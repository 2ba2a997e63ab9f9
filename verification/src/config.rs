//! The user configuration (`config.json`), as plain values.
use vstd::prelude::*;
use vstd::string::StringExecFns;

verus! {

/// The whole configuration file.
#[derive(Debug, Clone, PartialEq, Eq)]
pub struct Config {
    /// `"auto"`, `"mistral"`, `"local"`, `"languagetool"` or `"hybrid"`.
    pub ai_provider: String,
    /// Mistral API key; empty means Mistral is off (auto detection skips it).
    pub mistral_api_key: String,
    pub mistral_model: String,
    pub local: Option<LocalConfig>,
    pub languagetool: Option<LanguageToolConfig>,
    pub hotkey: HotkeyConfig,
    pub popup: PopupConfig,
}

/// A local model server (Ollama, LM Studio, any OpenAI-compatible server).
#[derive(Debug, Clone, PartialEq, Eq)]
pub struct LocalConfig {
    pub base_url: String,
    pub model: String,
    /// `"ollama"`, `"lmstudio"` or `"openai_compatible"`.
    pub provider: String,
}

/// The local LanguageTool server.
#[derive(Debug, Clone, PartialEq, Eq)]
pub struct LanguageToolConfig {
    pub base_url: String,
    pub language: String,
}

/// The global shortcut: two Ctrl+Space presses closer than `double_press_ms`.
#[derive(Debug, Clone, Copy, PartialEq, Eq)]
pub struct HotkeyConfig {
    pub double_press_ms: u64,
}

/// Size of the popup and its offset from the cursor, in physical pixels.
#[derive(Debug, Clone, Copy, PartialEq, Eq)]
pub struct PopupConfig {
    pub width: u32,
    pub height: u32,
    pub offset_x: i32,
    pub offset_y: i32,
}

/// Model used when `mistral_model` is absent from the file.
pub fn default_mistral_model() -> (r: String)
    ensures
        r@ == "mistral-small-latest"@,
{
    String::from_str("mistral-small-latest")
}

/// Language used when `languagetool.language` is absent from the file.
pub fn default_lt_language() -> (r: String)
    ensures
        r@ == "fr"@,
{
    String::from_str("fr")
}

} // verus!
