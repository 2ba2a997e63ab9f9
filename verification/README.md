# ReformoJuste

A tray application that corrects and rewords the selected text (double
Ctrl+Space) through Mistral, a local model server or LanguageTool.

- `src/` is the library, verified with Verus: the application of LanguageTool
  matches, the prompt, the framing and acceptance of a model's answer, the
  choice of a provider, the automatic fallback chain with its recovery delay,
  the stale-result counter, the keyboard shortcut state machine, the popup
  placement, the retry policies, and the configuration types.
- `app/` is the program around it: the Tauri window and tray, HTTP requests,
  the clipboard, the keyboard hook, the LanguageTool process and the reading of
  `config.json`. It hands plain values to the library and acts on its answers.
- `tests/` exercises the library on concrete values.
