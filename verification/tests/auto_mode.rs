use reformojuste::ai::hybrid::HybridProvider;
use reformojuste::ai::local::{local_backend, warms_up, LocalBackend};
use reformojuste::ai::mistral::{check_api_key, check_status, needs_error_detail, ping_allowed};
use reformojuste::ai::{
    check_chain_config, check_detected_config, detect_after_mistral, detect_after_ollama,
    detect_start, downgrade, fallback_after_failure, fallback_message, hybrid_streaming_result,
    is_current, lt_only_outcome, needs_ollama_probe, next_generation, ollama_base_url,
    provider_label, provider_startup_message, record_detection, recovery_notice,
    resolve_provider, select_provider, streaming_mode, tray_tooltip, AiError, AiResult, AutoState,
    DetectStep, Generation, ProviderChoice, ProviderKind, Resolution, StreamingMode,
    RECOVERY_AFTER_MS,
};
use reformojuste::config::{
    default_lt_language, default_mistral_model, Config, HotkeyConfig, LanguageToolConfig,
    LocalConfig, PopupConfig,
};

fn config(mode: &str, local: bool, languagetool: bool, key: &str) -> Config {
    Config {
        ai_provider: mode.to_string(),
        mistral_api_key: key.to_string(),
        mistral_model: default_mistral_model(),
        local: local.then(|| LocalConfig {
            base_url: "http://localhost:1234".to_string(),
            model: "gemma3:4b".to_string(),
            provider: "ollama".to_string(),
        }),
        languagetool: languagetool.then(|| LanguageToolConfig {
            base_url: "http://localhost:8082".to_string(),
            language: default_lt_language(),
        }),
        hotkey: HotkeyConfig { double_press_ms: 400 },
        popup: PopupConfig { width: 446, height: 286, offset_x: 20, offset_y: 20 },
    }
}

fn full(correction: &str, note: &str) -> AiResult {
    AiResult {
        correction: correction.to_string(),
        simple: format!("{note}1"),
        professional: format!("{note}2"),
        formal: format!("{note}3"),
        short: format!("{note}4"),
        creative: format!("{note}5"),
    }
}

#[test]
fn defaults_of_the_file() {
    assert_eq!(default_mistral_model(), "mistral-small-latest");
    assert_eq!(default_lt_language(), "fr");
}

#[test]
fn labels_and_notices() {
    assert_eq!(provider_label(ProviderKind::Mistral), "Mistral API");
    assert_eq!(provider_label(ProviderKind::Ollama), "Ollama (local)");
    assert_eq!(provider_label(ProviderKind::LtOnly), "LanguageTool seul");
    assert_eq!(provider_startup_message(ProviderKind::Mistral), "IA active : Mistral API");
    assert_eq!(provider_startup_message(ProviderKind::Ollama), "IA active : Ollama (local)");
    assert_eq!(
        provider_startup_message(ProviderKind::LtOnly),
        "IA indisponible → LanguageTool seul"
    );
    assert_eq!(
        fallback_message(ProviderKind::Mistral, ProviderKind::Ollama),
        "Mistral indisponible → bascule sur Ollama"
    );
    assert_eq!(
        fallback_message(ProviderKind::Mistral, ProviderKind::LtOnly),
        "Mistral indisponible → bascule sur LanguageTool"
    );
    assert_eq!(
        fallback_message(ProviderKind::Ollama, ProviderKind::LtOnly),
        "Ollama indisponible → bascule sur LanguageTool"
    );
    assert_eq!(tray_tooltip("IA active : Mistral API"), "ReformoJuste — IA active : Mistral API");
}

#[test]
fn mistral_is_never_probed_again() {
    let s = AutoState { kind: Some(ProviderKind::Mistral), downgraded_at: None };
    assert_eq!(resolve_provider(&s, 1_000_000), Resolution::Use(ProviderKind::Mistral));
}

#[test]
fn first_request_before_detection_detects() {
    let s = AutoState::default();
    assert_eq!(resolve_provider(&s, 5), Resolution::Detect { previous: None });
}

#[test]
fn downgraded_provider_is_probed_again_after_ninety_seconds() {
    let mut s = AutoState::default();
    record_detection(&mut s, ProviderKind::Mistral, 0);
    assert_eq!(s, AutoState { kind: Some(ProviderKind::Mistral), downgraded_at: None });
    downgrade(&mut s, ProviderKind::Ollama, 10_000);
    assert_eq!(s, AutoState { kind: Some(ProviderKind::Ollama), downgraded_at: Some(10_000) });
    assert_eq!(resolve_provider(&s, 10_000 + RECOVERY_AFTER_MS - 1), Resolution::Use(ProviderKind::Ollama));
    assert_eq!(
        resolve_provider(&s, 10_000 + RECOVERY_AFTER_MS),
        Resolution::Detect { previous: Some(ProviderKind::Ollama) }
    );
    // A clock that reads earlier counts as no time elapsed.
    assert_eq!(resolve_provider(&s, 0), Resolution::Use(ProviderKind::Ollama));
}

#[test]
fn detection_below_mistral_counts_as_downgrade() {
    let mut s = AutoState::default();
    record_detection(&mut s, ProviderKind::LtOnly, 42);
    assert_eq!(s, AutoState { kind: Some(ProviderKind::LtOnly), downgraded_at: Some(42) });
    record_detection(&mut s, ProviderKind::Mistral, 100_000);
    assert_eq!(s.downgraded_at, None);
}

#[test]
fn only_a_new_probe_with_another_provider_is_announced() {
    assert_eq!(recovery_notice(None, ProviderKind::Ollama), None);
    assert_eq!(recovery_notice(Some(ProviderKind::Ollama), ProviderKind::Ollama), None);
    assert_eq!(
        recovery_notice(Some(ProviderKind::Ollama), ProviderKind::Mistral).as_deref(),
        Some("Reprise → Mistral API")
    );
}

#[test]
fn fallback_chain() {
    assert!(needs_ollama_probe(ProviderKind::Mistral));
    assert!(!needs_ollama_probe(ProviderKind::Ollama));
    assert_eq!(fallback_after_failure(ProviderKind::Mistral, true), Some(ProviderKind::Ollama));
    assert_eq!(fallback_after_failure(ProviderKind::Mistral, false), Some(ProviderKind::LtOnly));
    assert_eq!(fallback_after_failure(ProviderKind::Ollama, true), Some(ProviderKind::LtOnly));
    assert_eq!(fallback_after_failure(ProviderKind::LtOnly, true), None);
}

#[test]
fn detection_chain() {
    assert_eq!(detect_start(&config("auto", true, true, "")), DetectStep::PingOllama);
    assert_eq!(detect_start(&config("auto", true, true, "k")), DetectStep::PingMistral);
    assert_eq!(detect_after_mistral(true), DetectStep::Detected(ProviderKind::Mistral));
    assert_eq!(detect_after_mistral(false), DetectStep::PingOllama);
    assert_eq!(detect_after_ollama(true), DetectStep::Detected(ProviderKind::Ollama));
    assert_eq!(detect_after_ollama(false), DetectStep::Detected(ProviderKind::LtOnly));
    assert_eq!(ollama_base_url(&config("auto", true, true, "")), "http://localhost:1234");
    assert_eq!(ollama_base_url(&config("auto", false, true, "")), "http://localhost:11434");
}

#[test]
fn provider_is_chosen_from_the_configuration() {
    assert_eq!(select_provider(&config("local", true, false, "")), Ok(ProviderChoice::Local));
    assert_eq!(select_provider(&config("local", false, true, "")), Err(AiError::LocalConfigMissing));
    assert_eq!(
        select_provider(&config("languagetool", true, false, "")),
        Err(AiError::LanguageToolConfigMissing)
    );
    assert_eq!(select_provider(&config("languagetool", false, true, "")), Ok(ProviderChoice::LanguageTool));
    assert_eq!(select_provider(&config("mistral", false, false, "")), Ok(ProviderChoice::Mistral));
    assert_eq!(
        select_provider(&config("hybrid", false, false, "")),
        Err(AiError::HybridLanguageToolConfigMissing)
    );
    assert_eq!(
        select_provider(&config("hybrid", false, true, "")),
        Err(AiError::HybridLocalConfigMissing)
    );
    assert_eq!(select_provider(&config("hybrid", true, true, "")), Ok(ProviderChoice::Hybrid));
    assert_eq!(select_provider(&config("auto", false, false, "")), Ok(ProviderChoice::Auto));
    let e = select_provider(&config("gpt", true, true, "")).unwrap_err();
    assert_eq!(e, AiError::UnknownProvider("gpt".to_string()));
    assert_eq!(e.message(), "Unknown ai_provider: gpt");
}

#[test]
fn detected_provider_needs_its_section() {
    let none = config("auto", false, false, "");
    assert_eq!(check_detected_config(&none, ProviderKind::Mistral), Ok(()));
    assert_eq!(check_detected_config(&none, ProviderKind::Ollama), Err(AiError::LocalConfigMissing));
    assert_eq!(check_detected_config(&none, ProviderKind::LtOnly), Err(AiError::LanguageToolConfigMissing));
    assert_eq!(check_chain_config(&none, ProviderKind::Ollama), Err(AiError::OllamaConfigMissing));
    assert_eq!(check_chain_config(&none, ProviderKind::LtOnly), Err(AiError::LtOnlyConfigMissing));
    let all = config("auto", true, true, "");
    assert_eq!(check_chain_config(&all, ProviderKind::Ollama), Ok(()));
    assert_eq!(check_detected_config(&all, ProviderKind::LtOnly), Ok(()));
}

#[test]
fn streaming_modes() {
    assert_eq!(streaming_mode(&config("auto", false, false, "")), Ok(StreamingMode::Auto));
    assert_eq!(streaming_mode(&config("hybrid", true, true, "")), Ok(StreamingMode::Hybrid));
    assert_eq!(
        streaming_mode(&config("hybrid", true, false, "")),
        Err(AiError::HybridLanguageToolConfigMissing)
    );
    assert_eq!(streaming_mode(&config("mistral", false, false, "")), Ok(StreamingMode::Single));
    assert_eq!(streaming_mode(&config("inconnu", false, false, "")), Ok(StreamingMode::Single));
}

#[test]
fn hybrid_streaming_takes_languagetool_correction() {
    let r = hybrid_streaming_result(Some("LT".to_string()), Ok(full("IA", "r"))).unwrap();
    assert_eq!(r, full("LT", "r"));
    let r = hybrid_streaming_result(None, Ok(full("IA", "r"))).unwrap();
    assert_eq!(r, full("IA", "r"));
}

#[test]
fn hybrid_streaming_without_the_model() {
    let r = hybrid_streaming_result(Some("LT".to_string()), Err(AiError::Other("down".to_string())))
        .unwrap();
    assert_eq!(r.correction, "LT");
    assert_eq!(r.simple, "IA locale non disponible (Ollama)");
    assert_eq!(r.creative, "IA locale non disponible (Ollama)");
    let e = hybrid_streaming_result(None, Err(AiError::Other("down".to_string()))).unwrap_err();
    assert_eq!(e, AiError::BothUnavailable);
    assert_eq!(e.message(), "Ollama et LanguageTool sont tous deux indisponibles");
}

#[test]
fn hybrid_provider_combines_both_answers() {
    let h = HybridProvider::new(1u8, 2u8);
    assert_eq!((h.lt, h.ai), (1, 2));
    let r = HybridProvider::<u8, u8>::combine(Ok(full("LT", "x")), Ok(full("IA", "r"))).unwrap();
    assert_eq!(r, full("LT", "r"));
    let r = HybridProvider::<u8, u8>::combine(Err(AiError::Other("lt".to_string())), Ok(full("IA", "r")))
        .unwrap();
    assert_eq!(r, full("IA", "r"));
    let e = HybridProvider::<u8, u8>::combine(Ok(full("LT", "x")), Err(AiError::MistralRateLimited))
        .unwrap_err();
    assert_eq!(e, AiError::MistralRateLimited);
}

#[test]
fn languagetool_only_outcome() {
    let (partial, result) = lt_only_outcome("Texte".to_string());
    assert_eq!(partial.correction, "Texte");
    assert_eq!(result.correction, "Texte");
    assert_eq!(result.professional, "Reformulations indisponibles (mode LanguageTool seul)");
    let only = AiResult::correction_only("c".to_string(), "n");
    assert_eq!(only, AiResult {
        correction: "c".to_string(),
        simple: "n".to_string(),
        professional: "n".to_string(),
        formal: "n".to_string(),
        short: "n".to_string(),
        creative: "n".to_string(),
    });
}

#[test]
fn newer_capture_drops_older_results() {
    let mut g = Generation::new();
    let first = next_generation(&mut g);
    assert_eq!(first, 1);
    assert!(is_current(&g, first));
    let second = next_generation(&mut g);
    assert_eq!(second, 2);
    assert!(!is_current(&g, first));
    assert!(is_current(&g, second));
}

#[test]
fn local_servers() {
    assert_eq!(local_backend("ollama"), Ok(LocalBackend::Ollama));
    assert_eq!(local_backend("lmstudio"), Ok(LocalBackend::OpenAiCompatible));
    assert_eq!(local_backend("openai_compatible"), Ok(LocalBackend::OpenAiCompatible));
    let e = local_backend("vllm").unwrap_err();
    assert_eq!(e, AiError::UnknownLocalProvider("vllm".to_string()));
    assert_eq!(e.message(), "Unknown local provider: vllm");
    let c = config("local", true, false, "");
    assert!(warms_up(c.local.as_ref().unwrap()));
    let lm = LocalConfig { provider: "lmstudio".to_string(), ..c.local.clone().unwrap() };
    assert!(!warms_up(&lm));
}

#[test]
fn mistral_statuses() {
    assert_eq!(check_api_key(""), Err(AiError::MissingMistralKey));
    assert_eq!(check_api_key("abc"), Ok(()));
    assert!(!ping_allowed(""));
    assert!(ping_allowed("abc"));
    assert_eq!(check_status(200, String::new()), Ok(()));
    assert_eq!(check_status(204, String::new()), Ok(()));
    assert_eq!(check_status(401, String::new()), Err(AiError::MistralUnauthorized));
    assert_eq!(check_status(429, String::new()), Err(AiError::MistralRateLimited));
    let e = check_status(503, "maintenance".to_string()).unwrap_err();
    assert_eq!(e.message(), "Mistral : erreur HTTP 503 — maintenance");
    assert!(needs_error_detail(500));
    assert!(!needs_error_detail(401));
    assert!(!needs_error_detail(429));
    assert!(!needs_error_detail(200));
    assert_eq!(AiError::MistralUnauthorized.message(), "Mistral : clé API invalide ou révoquée (401)");
    assert_eq!(AiError::MistralRateLimited.message(), "Mistral : quota dépassé / trop de requêtes (429)");
    assert_eq!(AiError::MissingMistralKey.message(), "Clé API Mistral absente (mistral_api_key vide)");
    assert_eq!(AiError::MistralHttp { status: 7, detail: String::new() }.message(), "Mistral : erreur HTTP 7 — ");
}

#[test]
fn configuration_error_messages() {
    assert_eq!(AiError::LocalConfigMissing.message(), "local config missing");
    assert_eq!(AiError::LanguageToolConfigMissing.message(), "languagetool config missing");
    assert_eq!(
        AiError::HybridLanguageToolConfigMissing.message(),
        "languagetool config missing for hybrid mode"
    );
    assert_eq!(AiError::HybridLocalConfigMissing.message(), "local config missing for hybrid mode");
    assert_eq!(AiError::OllamaConfigMissing.message(), "config local manquante pour Ollama");
    assert_eq!(AiError::LtOnlyConfigMissing.message(), "config languagetool manquante");
    assert_eq!(AiError::Other("réseau".to_string()).message(), "réseau");
}
