use reformojuste::ai::{
    accept_response, build_prompt, json_span, json_span_is_defined, single_outcome, AiError, AiResult,
    PROMPT_HEAD, PROMPT_TAIL,
};

fn result_with(correction: &str) -> AiResult {
    AiResult {
        correction: correction.to_string(),
        simple: "s".to_string(),
        professional: "p".to_string(),
        formal: "f".to_string(),
        short: "c".to_string(),
        creative: "r".to_string(),
    }
}

#[test]
fn prompt_wraps_the_text() {
    let p = build_prompt("Bonjour tu va bien ?");
    assert_eq!(p, format!("{PROMPT_HEAD}Bonjour tu va bien ?{PROMPT_TAIL}"));
    assert!(p.starts_with("Tu es un assistant de correction et reformulation en FRANÇAIS."));
    assert!(p.contains("{\n  \"correction\":"));
    assert!(p.ends_with(
        "Texte à analyser : Bonjour tu va bien ?\n\nIMPORTANT : Réponds UNIQUEMENT avec le JSON en français, aucun texte avant ou après."
    ));
}

#[test]
fn span_is_cut_from_first_brace_to_last() {
    let raw = "Voici le JSON : {\"correction\": \"a\", \"x\": {\"y\": 1}} Merci.";
    assert!(json_span_is_defined(raw));
    assert_eq!(json_span(raw), "{\"correction\": \"a\", \"x\": {\"y\": 1}}");
}

#[test]
fn span_is_the_whole_answer_without_braces() {
    assert!(json_span_is_defined("pas de json"));
    assert_eq!(json_span("pas de json"), "pas de json");
    assert_eq!(json_span("seulement { ouvrante"), "seulement { ouvrante");
    assert_eq!(json_span("seulement } fermante"), "seulement } fermante");
}

#[test]
fn span_after_multibyte_text() {
    let raw = "Réponse à l'écrit : {\"correction\": \"été\"}";
    assert_eq!(json_span(raw), "{\"correction\": \"été\"}");
}

#[test]
fn closing_brace_before_opening_one_has_no_span() {
    assert!(!json_span_is_defined("} puis {"));
}

#[test]
fn closing_brace_right_before_opening_one_gives_empty_span() {
    assert!(json_span_is_defined("}{"));
    assert_eq!(json_span("}{"), "");
    assert!(json_span_is_defined("réponse : }{ fin"));
    assert_eq!(json_span("réponse : }{ fin"), "");
}

#[test]
fn serialised_result_is_kept_whole() {
    let raw = "{\"correction\":\"a {b} c\",\"simple\":\"}{\"}";
    assert!(json_span_is_defined(raw));
    assert_eq!(json_span(raw), raw);
}

#[test]
fn single_provider_outcome() {
    let (shown, outcome) = single_outcome(Ok(result_with("ok")));
    assert_eq!(shown, Some(result_with("ok")));
    assert_eq!(outcome, Ok(()));
    let (shown, outcome) = single_outcome(Err(AiError::MissingMistralKey));
    assert_eq!(shown, None);
    assert_eq!(outcome, Err(AiError::MissingMistralKey));
}

#[test]
fn parsed_answer_with_correction_is_accepted() {
    let r = accept_response(Ok(result_with("Bonjour")), "{}").unwrap();
    assert_eq!(r, result_with("Bonjour"));
}

#[test]
fn blank_correction_is_refused() {
    let e = accept_response(Ok(result_with(" \t\n\u{a0}\u{3000}")), "{\"correction\":\" \"}")
        .unwrap_err();
    assert_eq!(e, AiError::NoCorrection { json: "{\"correction\":\" \"}".to_string() });
    assert_eq!(
        e.message(),
        "Réponse du modèle sans correction exploitable : {\"correction\":\" \"}"
    );
    let empty = accept_response(Ok(AiResult::default()), "{}").unwrap_err();
    assert_eq!(empty, AiError::NoCorrection { json: "{}".to_string() });
}

#[test]
fn correction_with_a_visible_character_is_kept() {
    assert!(accept_response(Ok(result_with("  x  ")), "{}").is_ok());
}

#[test]
fn parse_error_keeps_the_span() {
    let e = accept_response(Err("expected value at line 1 column 1".to_string()), "oops")
        .unwrap_err();
    assert_eq!(e.message(), "JSON parse error: expected value at line 1 column 1\nRaw: oops");
}
