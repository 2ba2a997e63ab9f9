//! Correction and rewording of a captured text: result types, the prompt,
//! the choice of a provider, the automatic fallback chain and the framing of
//! a model's answer.
use vstd::prelude::*;
use vstd::string::StringExecFns;

use crate::config::Config;
use crate::text::{
    chars_of, decimal, find_char, is_blank, lemma_find_char, lemma_rfind_char, push_decimal,
    rfind_char, same_text, trims_to_empty,
};
use vstd::string::StrSliceExecFns;

pub mod hybrid;
pub mod languagetool;
pub mod local;
pub mod mistral;

verus! {

// ── HTTP time limits ─────────────────────────────────────────────────────────

/// Time limit of a request to a model, in seconds (a cold Ollama takes about 20).
pub const AI_TIMEOUT_SECS: u64 = 60;

/// Time limit of a request to LanguageTool, in seconds.
pub const LT_TIMEOUT_SECS: u64 = 20;

/// Time limit of an availability probe, in seconds.
pub const PROBE_TIMEOUT_SECS: u64 = 3;

// ── Result types ─────────────────────────────────────────────────────────────

/// Sent to the popup as soon as LanguageTool is done, before the rewordings.
#[derive(Debug, Clone, PartialEq, Eq)]
pub struct PartialResult {
    pub correction: String,
}

/// The correction and the five rewordings shown in the popup.
#[derive(Debug, Clone, PartialEq, Eq)]
pub struct AiResult {
    pub correction: String,
    pub simple: String,
    pub professional: String,
    pub formal: String,
    pub short: String,
    pub creative: String,
}

impl AiResult {
    /// The five rewordings all equal `note`.
    pub open spec fn rewordings_are(self, note: Seq<char>) -> bool {
        &&& self.simple@ == note
        &&& self.professional@ == note
        &&& self.formal@ == note
        &&& self.short@ == note
        &&& self.creative@ == note
    }

    /// A result that carries a correction only: the five rewordings all hold
    /// the same `note`.
    pub fn correction_only(correction: String, note: &str) -> (r: Self)
        ensures
            r.correction == correction,
            r.rewordings_are(note@),
    {
        AiResult {
            correction,
            simple: String::from_str(note),
            professional: String::from_str(note),
            formal: String::from_str(note),
            short: String::from_str(note),
            creative: String::from_str(note),
        }
    }
}

impl Default for AiResult {
    /// Every field empty.
    fn default() -> (r: Self)
        ensures
            r.correction@ == Seq::<char>::empty(),
            r.rewordings_are(Seq::<char>::empty()),
    {
        AiResult {
            correction: String::new(),
            simple: String::new(),
            professional: String::new(),
            formal: String::new(),
            short: String::new(),
            creative: String::new(),
        }
    }
}

// ── Errors ───────────────────────────────────────────────────────────────────

/// Why a correction could not be produced.
#[derive(Debug, Clone, PartialEq, Eq)]
pub enum AiError {
    /// `ai_provider` is `"local"` (or auto chose Ollama) without a `local` section.
    LocalConfigMissing,
    /// `ai_provider` is `"languagetool"` (or auto fell back to it) without a `languagetool` section.
    LanguageToolConfigMissing,
    /// Hybrid mode without a `languagetool` section.
    HybridLanguageToolConfigMissing,
    /// Hybrid mode without a `local` section.
    HybridLocalConfigMissing,
    /// The automatic chain reached Ollama without a `local` section.
    OllamaConfigMissing,
    /// The automatic chain reached LanguageTool without a `languagetool` section.
    LtOnlyConfigMissing,
    /// `ai_provider` names no known mode.
    UnknownProvider(String),
    /// `local.provider` names no known server kind.
    UnknownLocalProvider(String),
    /// The Mistral key is empty.
    MissingMistralKey,
    /// Mistral answered 401.
    MistralUnauthorized,
    /// Mistral answered 429.
    MistralRateLimited,
    /// Mistral answered another non-success status, with the body as detail.
    MistralHttp { status: u16, detail: String },
    /// The model's answer is not a JSON object of the expected shape.
    JsonParse { error: String, raw: String },
    /// The model's answer parsed, but its correction is blank.
    NoCorrection { json: String },
    /// Hybrid mode: neither the local model nor LanguageTool answered.
    BothUnavailable,
    /// Any other failure (transport, malformed reply), with its message.
    Other(String),
}

/// The message of each error, as shown to the user.
pub open spec fn error_text(e: AiError) -> Seq<char> {
    match e {
        AiError::LocalConfigMissing => "local config missing"@,
        AiError::LanguageToolConfigMissing => "languagetool config missing"@,
        AiError::HybridLanguageToolConfigMissing => "languagetool config missing for hybrid mode"@,
        AiError::HybridLocalConfigMissing => "local config missing for hybrid mode"@,
        AiError::OllamaConfigMissing => "config local manquante pour Ollama"@,
        AiError::LtOnlyConfigMissing => "config languagetool manquante"@,
        AiError::UnknownProvider(p) => "Unknown ai_provider: "@ + p@,
        AiError::UnknownLocalProvider(p) => "Unknown local provider: "@ + p@,
        AiError::MissingMistralKey => "Clé API Mistral absente (mistral_api_key vide)"@,
        AiError::MistralUnauthorized => "Mistral : clé API invalide ou révoquée (401)"@,
        AiError::MistralRateLimited => "Mistral : quota dépassé / trop de requêtes (429)"@,
        AiError::MistralHttp { status, detail } => "Mistral : erreur HTTP "@ + decimal(status as nat)
            + " — "@ + detail@,
        AiError::JsonParse { error, raw } => "JSON parse error: "@ + error@ + "\nRaw: "@ + raw@,
        AiError::NoCorrection { json } => "Réponse du modèle sans correction exploitable : "@ + json@,
        AiError::BothUnavailable => "Ollama et LanguageTool sont tous deux indisponibles"@,
        AiError::Other(m) => m@,
    }
}

fn text_then(head: &str, tail: &str) -> (r: String)
    ensures
        r@ == head@ + tail@,
{
    let mut s = String::from_str(head);
    s.append(tail);
    s
}

impl AiError {
    /// The message shown to the user for this error.
    pub fn message(&self) -> (r: String)
        ensures
            r@ == error_text(*self),
    {
        match self {
            AiError::LocalConfigMissing => String::from_str("local config missing"),
            AiError::LanguageToolConfigMissing => String::from_str("languagetool config missing"),
            AiError::HybridLanguageToolConfigMissing => String::from_str(
                "languagetool config missing for hybrid mode",
            ),
            AiError::HybridLocalConfigMissing => String::from_str(
                "local config missing for hybrid mode",
            ),
            AiError::OllamaConfigMissing => String::from_str("config local manquante pour Ollama"),
            AiError::LtOnlyConfigMissing => String::from_str("config languagetool manquante"),
            AiError::UnknownProvider(p) => text_then("Unknown ai_provider: ", p.as_str()),
            AiError::UnknownLocalProvider(p) => text_then("Unknown local provider: ", p.as_str()),
            AiError::MissingMistralKey => String::from_str(
                "Clé API Mistral absente (mistral_api_key vide)",
            ),
            AiError::MistralUnauthorized => String::from_str(
                "Mistral : clé API invalide ou révoquée (401)",
            ),
            AiError::MistralRateLimited => String::from_str(
                "Mistral : quota dépassé / trop de requêtes (429)",
            ),
            AiError::MistralHttp { status, detail } => {
                let mut s = String::from_str("Mistral : erreur HTTP ");
                push_decimal(&mut s, *status);
                s.append(" — ");
                s.append(detail.as_str());
                s
            },
            AiError::JsonParse { error, raw } => {
                let mut s = String::from_str("JSON parse error: ");
                s.append(error.as_str());
                s.append("\nRaw: ");
                s.append(raw.as_str());
                s
            },
            AiError::NoCorrection { json } => text_then(
                "Réponse du modèle sans correction exploitable : ",
                json.as_str(),
            ),
            AiError::BothUnavailable => String::from_str(
                "Ollama et LanguageTool sont tous deux indisponibles",
            ),
            AiError::Other(m) => m.clone(),
        }
    }
}

// ── Prompt ───────────────────────────────────────────────────────────────────

/// The instructions that come before the user's text in the prompt.
pub const PROMPT_HEAD: &'static str = r#"Tu es un assistant de correction et reformulation en FRANÇAIS. Tu dois TOUJOURS répondre en français, quelle que soit la langue du texte.

Analyse ce texte et retourne UNIQUEMENT un objet JSON valide avec exactement ces 6 clés (toutes les valeurs doivent être en français) :
{
  "correction":   "texte corrigé orthographiquement et grammaticalement en français, sans changer le sens",
  "simple":       "reformulation en français, langage simple et accessible",
  "professional": "reformulation en français, style professionnel",
  "formal":       "reformulation en français, style soutenu et élaboré",
  "short":        "réécriture en français, raccourcie au maximum en gardant l'essentiel",
  "creative":     "réécriture en français, créative et originale"
}

RÈGLE ABSOLUE — forme d'adresse : conserve exactement celle du texte d'origine.
S'il tutoie, les 6 valeurs tutoient. S'il vouvoie, les 6 vouvoient. Ne convertis
JAMAIS « tu » en « vous » ni l'inverse.
Les 5 styles portent sur le vocabulaire et la syntaxe, jamais sur la forme
d'adresse : "professional" et "formal" restent au tutoiement si l'original tutoie
(ex. « Aurais-tu l'obligeance de… ») ; "simple" et "creative" restent au
vouvoiement si l'original vouvoie.

Texte à analyser : "#;

/// The closing instruction that comes after the user's text in the prompt.
pub const PROMPT_TAIL: &'static str = r#"

IMPORTANT : Réponds UNIQUEMENT avec le JSON en français, aucun texte avant ou après."#;

/// The prompt text that comes before the user's text.
pub open spec fn prompt_head() -> Seq<char> {
    PROMPT_HEAD@
}

/// The prompt text that comes after the user's text.
pub open spec fn prompt_tail() -> Seq<char> {
    PROMPT_TAIL@
}

/// The instruction sent to a model: the fixed French instructions around the
/// user's text.
pub fn build_prompt(text: &str) -> (r: String)
    ensures
        r@ == prompt_head() + text@ + prompt_tail(),
{
    let mut s = String::from_str(PROMPT_HEAD);
    s.append(text);
    s.append(PROMPT_TAIL);
    s
}

// ── Providers ────────────────────────────────────────────────────────────────

/// The provider in use when `ai_provider` is `"auto"`, best first.
#[derive(Debug, Clone, Copy, PartialEq, Eq, Structural)]
pub enum ProviderKind {
    Mistral,
    Ollama,
    LtOnly,
}

/// Position in the fallback chain: 0 for Mistral, 1 for Ollama, 2 for LanguageTool.
pub open spec fn rank(kind: ProviderKind) -> int {
    match kind {
        ProviderKind::Mistral => 0,
        ProviderKind::Ollama => 1,
        ProviderKind::LtOnly => 2,
    }
}

/// The name of a provider shown to the user.
pub open spec fn label_text(kind: ProviderKind) -> Seq<char> {
    match kind {
        ProviderKind::Mistral => "Mistral API"@,
        ProviderKind::Ollama => "Ollama (local)"@,
        ProviderKind::LtOnly => "LanguageTool seul"@,
    }
}

/// The name of a provider shown to the user.
pub fn provider_label(kind: ProviderKind) -> (r: &'static str)
    ensures
        r@ == label_text(kind),
{
    match kind {
        ProviderKind::Mistral => "Mistral API",
        ProviderKind::Ollama => "Ollama (local)",
        ProviderKind::LtOnly => "LanguageTool seul",
    }
}

/// The notice shown once the provider has been detected at start-up.
pub open spec fn startup_text(kind: ProviderKind) -> Seq<char> {
    match kind {
        ProviderKind::LtOnly => "IA indisponible → LanguageTool seul"@,
        _ => "IA active : "@ + label_text(kind),
    }
}

/// The notice shown once the provider has been detected at start-up.
pub fn provider_startup_message(kind: ProviderKind) -> (r: String)
    ensures
        r@ == startup_text(kind),
{
    match kind {
        ProviderKind::LtOnly => String::from_str("IA indisponible → LanguageTool seul"),
        _ => text_then("IA active : ", provider_label(kind)),
    }
}

/// The notice shown when a new probe brings back another provider.
pub open spec fn recovery_text(kind: ProviderKind) -> Seq<char> {
    "Reprise → "@ + label_text(kind)
}

/// The notice shown when a new probe brings back another provider.
pub fn recovery_message(kind: ProviderKind) -> (r: String)
    ensures
        r@ == recovery_text(kind),
{
    text_then("Reprise → ", provider_label(kind))
}

/// The short name of a provider in a fallback notice.
pub open spec fn short_name(kind: ProviderKind) -> Seq<char> {
    match kind {
        ProviderKind::Mistral => "Mistral"@,
        ProviderKind::Ollama => "Ollama"@,
        ProviderKind::LtOnly => "LanguageTool"@,
    }
}

fn short_name_of(kind: ProviderKind) -> (r: &'static str)
    ensures
        r@ == short_name(kind),
{
    match kind {
        ProviderKind::Mistral => "Mistral",
        ProviderKind::Ollama => "Ollama",
        ProviderKind::LtOnly => "LanguageTool",
    }
}

/// The notice shown when the chain falls from `from` to `to`, such as
/// "Mistral indisponible → bascule sur Ollama".
pub open spec fn fallback_text(from: ProviderKind, to: ProviderKind) -> Seq<char> {
    short_name(from) + " indisponible → bascule sur "@ + short_name(to)
}

/// The notice shown when the chain falls from `from` to `to`.
pub fn fallback_message(from: ProviderKind, to: ProviderKind) -> (r: String)
    ensures
        r@ == fallback_text(from, to),
{
    let mut s = String::from_str(short_name_of(from));
    s.append(" indisponible → bascule sur ");
    s.append(short_name_of(to));
    s
}

/// The text of the tray tooltip that shows the provider state.
pub fn tray_tooltip(message: &str) -> (r: String)
    ensures
        r@ == "ReformoJuste — "@ + message@,
{
    text_then("ReformoJuste — ", message)
}

// ── Generations: stale results are dropped ───────────────────────────────────

/// Counts captures; a result is shown only if it belongs to the latest one.
#[derive(Debug, Clone, Copy, PartialEq, Eq)]
pub struct Generation {
    pub current: u64,
}

impl Generation {
    /// No capture yet.
    pub fn new() -> (r: Self)
        ensures
            r.current == 0,
    {
        Generation { current: 0 }
    }
}

/// Starts a new capture and returns its number; earlier numbers stop being current.
pub fn next_generation(counter: &mut Generation) -> (r: u64)
    requires
        old(counter).current < u64::MAX,
    ensures
        final(counter).current == old(counter).current + 1,
        r == final(counter).current,
{
    counter.current = counter.current + 1;
    counter.current
}

/// Whether `generation` is still the latest capture.
pub fn is_current(counter: &Generation, generation: u64) -> (r: bool)
    ensures
        r == (generation == counter.current),
{
    counter.current == generation
}

/// A result of a capture made before the latest call of `next_generation` is
/// never current again: once a new capture starts, results of older ones are dropped.
pub proof fn lemma_new_capture_discards_older(before: Generation, after: Generation, generation: u64)
    requires
        generation <= before.current,
        after.current == before.current + 1,
    ensures
        generation != after.current,
{
}

// ── Automatic mode: detection, fallback and recovery ─────────────────────────

/// How long after a downgrade the top of the chain is probed again, in milliseconds.
pub const RECOVERY_AFTER_MS: u64 = 90_000;

/// The provider in use in automatic mode, and when it was last downgraded.
/// Times are milliseconds of a monotonic clock.
#[derive(Debug, Clone, Copy, PartialEq, Eq)]
pub struct AutoState {
    /// `None` until the first detection is done.
    pub kind: Option<ProviderKind>,
    /// When the chain was last moved below Mistral.
    pub downgraded_at: Option<u64>,
}

impl Default for AutoState {
    /// Nothing detected yet.
    fn default() -> (r: Self)
        ensures
            r.kind is None,
            r.downgraded_at is None,
    {
        AutoState { kind: None, downgraded_at: None }
    }
}

/// What to do before handling a request in automatic mode.
#[derive(Debug, Clone, Copy, PartialEq, Eq, Structural)]
pub enum Resolution {
    /// Use this provider.
    Use(ProviderKind),
    /// Run the detection chain; `previous` is the provider it may replace.
    Detect { previous: Option<ProviderKind> },
}

/// Milliseconds from `since` to `now`, zero if the clock reads earlier.
pub open spec fn elapsed_ms(since: u64, now: u64) -> int {
    if now >= since { now - since } else { 0 }
}

/// The provider to use now: Mistral stays; a downgraded provider is probed
/// again once `RECOVERY_AFTER_MS` have passed; nothing detected yet means detect.
pub open spec fn resolution_of(state: AutoState, now: u64) -> Resolution {
    match state.kind {
        Some(ProviderKind::Mistral) => Resolution::Use(ProviderKind::Mistral),
        Some(current) => match state.downgraded_at {
            Some(since) => if elapsed_ms(since, now) >= RECOVERY_AFTER_MS {
                Resolution::Detect { previous: Some(current) }
            } else {
                Resolution::Use(current)
            },
            None => Resolution::Use(current),
        },
        None => Resolution::Detect { previous: None },
    }
}

/// The provider to use now, or a request to detect it again.
pub fn resolve_provider(state: &AutoState, now: u64) -> (r: Resolution)
    ensures
        r == resolution_of(*state, now),
{
    match state.kind {
        Some(ProviderKind::Mistral) => Resolution::Use(ProviderKind::Mistral),
        Some(current) => match state.downgraded_at {
            Some(since) => {
                let elapsed = if now >= since { now - since } else { 0 };
                if elapsed >= RECOVERY_AFTER_MS {
                    Resolution::Detect { previous: Some(current) }
                } else {
                    Resolution::Use(current)
                }
            },
            None => Resolution::Use(current),
        },
        None => Resolution::Detect { previous: None },
    }
}

/// Records the outcome of a detection made at `now`: anything below Mistral
/// counts as a downgrade from that moment.
pub fn record_detection(state: &mut AutoState, fresh: ProviderKind, now: u64)
    ensures
        final(state).kind == Some(fresh),
        final(state).downgraded_at == (if fresh == ProviderKind::Mistral {
            None::<u64>
        } else {
            Some(now)
        }),
{
    state.kind = Some(fresh);
    state.downgraded_at = if fresh == ProviderKind::Mistral {
        None
    } else {
        Some(now)
    };
}

/// The notice to show after a detection that replaced `previous`: only a new
/// probe (not the first detection) that found another provider is announced.
pub fn recovery_notice(previous: Option<ProviderKind>, fresh: ProviderKind) -> (r: Option<String>)
    ensures
        match previous {
            Some(p) => if p != fresh {
                r is Some && r->0@ == recovery_text(fresh)
            } else {
                r is None
            },
            None => r is None,
        },
{
    match previous {
        Some(p) => if p != fresh {
            Some(recovery_message(fresh))
        } else {
            None
        },
        None => None,
    }
}

/// Moves the chain down to `to` at time `now`.
pub fn downgrade(state: &mut AutoState, to: ProviderKind, now: u64)
    ensures
        final(state).kind == Some(to),
        final(state).downgraded_at == Some(now),
{
    state.kind = Some(to);
    state.downgraded_at = Some(now);
}

/// Only a failing Mistral needs to know whether Ollama answers before falling back.
pub fn needs_ollama_probe(failed: ProviderKind) -> (r: bool)
    ensures
        r == (failed == ProviderKind::Mistral),
{
    failed == ProviderKind::Mistral
}

/// The provider to fall back to once `failed` has failed on a request:
/// Mistral falls to Ollama if it answers, else to LanguageTool; Ollama falls
/// to LanguageTool; LanguageTool is the end of the chain.
pub open spec fn fallback_of(failed: ProviderKind, ollama_reachable: bool) -> Option<ProviderKind> {
    match failed {
        ProviderKind::Mistral => if ollama_reachable {
            Some(ProviderKind::Ollama)
        } else {
            Some(ProviderKind::LtOnly)
        },
        ProviderKind::Ollama => Some(ProviderKind::LtOnly),
        ProviderKind::LtOnly => None,
    }
}

/// The provider to fall back to once `failed` has failed on a request.
pub fn fallback_after_failure(failed: ProviderKind, ollama_reachable: bool) -> (r: Option<ProviderKind>)
    ensures
        r == fallback_of(failed, ollama_reachable),
{
    match failed {
        ProviderKind::Mistral => if ollama_reachable {
            Some(ProviderKind::Ollama)
        } else {
            Some(ProviderKind::LtOnly)
        },
        ProviderKind::Ollama => Some(ProviderKind::LtOnly),
        ProviderKind::LtOnly => None,
    }
}

/// The next step of the detection chain Mistral → Ollama → LanguageTool.
#[derive(Debug, Clone, Copy, PartialEq, Eq, Structural)]
pub enum DetectStep {
    /// Check the Mistral key against the API.
    PingMistral,
    /// Check that Ollama answers.
    PingOllama,
    /// The chain is decided.
    Detected(ProviderKind),
}

/// First step: Mistral is probed only when a key is configured.
pub fn detect_start(config: &Config) -> (r: DetectStep)
    ensures
        r == (if config.mistral_api_key@.len() > 0 {
            DetectStep::PingMistral
        } else {
            DetectStep::PingOllama
        }),
{
    if config.mistral_api_key.as_str().is_empty() {
        DetectStep::PingOllama
    } else {
        DetectStep::PingMistral
    }
}

/// After the Mistral probe.
pub fn detect_after_mistral(ok: bool) -> (r: DetectStep)
    ensures
        r == (if ok { DetectStep::Detected(ProviderKind::Mistral) } else { DetectStep::PingOllama }),
{
    if ok {
        DetectStep::Detected(ProviderKind::Mistral)
    } else {
        DetectStep::PingOllama
    }
}

/// After the Ollama probe.
pub fn detect_after_ollama(ok: bool) -> (r: DetectStep)
    ensures
        r == DetectStep::Detected(if ok { ProviderKind::Ollama } else { ProviderKind::LtOnly }),
{
    if ok {
        DetectStep::Detected(ProviderKind::Ollama)
    } else {
        DetectStep::Detected(ProviderKind::LtOnly)
    }
}

/// The provider the detection chain settles on, given the probe results
/// (the Mistral probe only counts when a key is set).
pub open spec fn detected_kind(has_key: bool, mistral_ok: bool, ollama_ok: bool) -> ProviderKind {
    if has_key && mistral_ok {
        ProviderKind::Mistral
    } else if ollama_ok {
        ProviderKind::Ollama
    } else {
        ProviderKind::LtOnly
    }
}

/// Base URL probed to see whether Ollama answers: the `local` one, else
/// Ollama's default address.
pub fn ollama_base_url(config: &Config) -> (r: String)
    ensures
        r@ == match config.local {
            Some(l) => l.base_url@,
            None => "http://localhost:11434"@,
        },
{
    match &config.local {
        Some(l) => l.base_url.clone(),
        None => String::from_str("http://localhost:11434"),
    }
}

/// `base` followed by `path`, as `format!("{base}{path}")`.
pub fn endpoint(base: &str, path: &str) -> (r: String)
    ensures
        r@ == base@ + path@,
{
    text_then(base, path)
}

/// A state whose chain was moved down to `to` at time `since` is probed again
/// exactly when `RECOVERY_AFTER_MS` have passed; until then `to` stays in use.
pub proof fn lemma_recovery_after_downgrade(to: ProviderKind, since: u64, now: u64)
    requires
        to != ProviderKind::Mistral,
    ensures
        resolution_of(AutoState { kind: Some(to), downgraded_at: Some(since) }, now) == (if elapsed_ms(
            since,
            now,
        ) >= RECOVERY_AFTER_MS {
            Resolution::Detect { previous: Some(to) }
        } else {
            Resolution::Use(to)
        }),
{
}

/// Once Mistral is the provider, it is used without any new probe.
pub proof fn lemma_mistral_is_kept(state: AutoState, now: u64)
    requires
        state.kind == Some(ProviderKind::Mistral),
    ensures
        resolution_of(state, now) == Resolution::Use(ProviderKind::Mistral),
{
}

/// Before the first detection, every request asks for one.
pub proof fn lemma_undetected_asks_detection(state: AutoState, now: u64)
    requires
        state.kind is None,
    ensures
        resolution_of(state, now) == (Resolution::Detect { previous: None }),
{
}

/// A fallback always goes strictly down the chain Mistral → Ollama →
/// LanguageTool, and only LanguageTool has none.
pub proof fn lemma_fallback_goes_down(failed: ProviderKind, ollama_reachable: bool)
    ensures
        fallback_of(failed, ollama_reachable) is None <==> failed == ProviderKind::LtOnly,
        fallback_of(failed, ollama_reachable) matches Some(to) ==> rank(to) > rank(failed),
{
}

/// Detection then resolution: a detected Mistral is kept; anything below it is
/// used for `RECOVERY_AFTER_MS` after the detection, then probed again.
pub proof fn lemma_detection_then_resolution(fresh: ProviderKind, at: u64, now: u64)
    ensures
        ({
            let state = AutoState {
                kind: Some(fresh),
                downgraded_at: if fresh == ProviderKind::Mistral {
                    None::<u64>
                } else {
                    Some(at)
                },
            };
            resolution_of(state, now) == (if fresh == ProviderKind::Mistral {
                Resolution::Use(ProviderKind::Mistral)
            } else if elapsed_ms(at, now) >= RECOVERY_AFTER_MS {
                Resolution::Detect { previous: Some(fresh) }
            } else {
                Resolution::Use(fresh)
            })
        }),
{
}

// ── Choice of the provider from the configuration ───────────────────────────

/// The mode named by `ai_provider`.
#[derive(Debug, Clone, Copy, PartialEq, Eq, Structural)]
pub enum ProviderChoice {
    /// A local model server (`local` section).
    Local,
    /// LanguageTool alone (`languagetool` section).
    LanguageTool,
    /// The Mistral API.
    Mistral,
    /// LanguageTool for the correction and a local model for the rewordings.
    Hybrid,
    /// The automatic chain Mistral → Ollama → LanguageTool.
    Auto,
}

/// The mode `config` asks for, or why it cannot run.
pub open spec fn choice_of(config: Config) -> Result<ProviderChoice, AiError> {
    let p = config.ai_provider@;
    if p == "local"@ {
        if config.local is Some { Ok(ProviderChoice::Local) } else { Err(AiError::LocalConfigMissing) }
    } else if p == "languagetool"@ {
        if config.languagetool is Some {
            Ok(ProviderChoice::LanguageTool)
        } else {
            Err(AiError::LanguageToolConfigMissing)
        }
    } else if p == "mistral"@ {
        Ok(ProviderChoice::Mistral)
    } else if p == "hybrid"@ {
        if config.languagetool is None {
            Err(AiError::HybridLanguageToolConfigMissing)
        } else if config.local is None {
            Err(AiError::HybridLocalConfigMissing)
        } else {
            Ok(ProviderChoice::Hybrid)
        }
    } else if p == "auto"@ {
        Ok(ProviderChoice::Auto)
    } else {
        Err(AiError::UnknownProvider(config.ai_provider))
    }
}

/// The mode `config` asks for; the sections that mode needs must be present.
pub fn select_provider(config: &Config) -> (r: Result<ProviderChoice, AiError>)
    ensures
        r == choice_of(*config),
{
    let p = config.ai_provider.as_str();
    if same_text(p, "local") {
        if config.local.is_some() { Ok(ProviderChoice::Local) } else { Err(AiError::LocalConfigMissing) }
    } else if same_text(p, "languagetool") {
        if config.languagetool.is_some() {
            Ok(ProviderChoice::LanguageTool)
        } else {
            Err(AiError::LanguageToolConfigMissing)
        }
    } else if same_text(p, "mistral") {
        Ok(ProviderChoice::Mistral)
    } else if same_text(p, "hybrid") {
        if config.languagetool.is_none() {
            Err(AiError::HybridLanguageToolConfigMissing)
        } else if config.local.is_none() {
            Err(AiError::HybridLocalConfigMissing)
        } else {
            Ok(ProviderChoice::Hybrid)
        }
    } else if same_text(p, "auto") {
        Ok(ProviderChoice::Auto)
    } else {
        Err(AiError::UnknownProvider(config.ai_provider.clone()))
    }
}

/// In automatic mode, once a provider is detected, the section it needs must
/// be present: Ollama needs `local`, LanguageTool needs `languagetool`.
pub open spec fn detected_config_check(config: Config, kind: ProviderKind) -> Result<(), AiError> {
    match kind {
        ProviderKind::Mistral => Ok(()),
        ProviderKind::Ollama => if config.local is Some {
            Ok(())
        } else {
            Err(AiError::LocalConfigMissing)
        },
        ProviderKind::LtOnly => if config.languagetool is Some {
            Ok(())
        } else {
            Err(AiError::LanguageToolConfigMissing)
        },
    }
}

/// Checks that the section the detected provider needs is present.
pub fn check_detected_config(config: &Config, kind: ProviderKind) -> (r: Result<(), AiError>)
    ensures
        r == detected_config_check(*config, kind),
{
    match kind {
        ProviderKind::Mistral => Ok(()),
        ProviderKind::Ollama => if config.local.is_some() {
            Ok(())
        } else {
            Err(AiError::LocalConfigMissing)
        },
        ProviderKind::LtOnly => if config.languagetool.is_some() {
            Ok(())
        } else {
            Err(AiError::LanguageToolConfigMissing)
        },
    }
}

/// In the streaming automatic mode, the check made before running a provider
/// of the chain (its own messages).
pub open spec fn chain_config_check(config: Config, kind: ProviderKind) -> Result<(), AiError> {
    match kind {
        ProviderKind::Mistral => Ok(()),
        ProviderKind::Ollama => if config.local is Some {
            Ok(())
        } else {
            Err(AiError::OllamaConfigMissing)
        },
        ProviderKind::LtOnly => if config.languagetool is Some {
            Ok(())
        } else {
            Err(AiError::LtOnlyConfigMissing)
        },
    }
}

/// Checks, before running a provider of the streaming chain, that its section is present.
pub fn check_chain_config(config: &Config, kind: ProviderKind) -> (r: Result<(), AiError>)
    ensures
        r == chain_config_check(*config, kind),
{
    match kind {
        ProviderKind::Mistral => Ok(()),
        ProviderKind::Ollama => if config.local.is_some() {
            Ok(())
        } else {
            Err(AiError::OllamaConfigMissing)
        },
        ProviderKind::LtOnly => if config.languagetool.is_some() {
            Ok(())
        } else {
            Err(AiError::LtOnlyConfigMissing)
        },
    }
}

/// How a request is streamed to the popup.
#[derive(Debug, Clone, Copy, PartialEq, Eq, Structural)]
pub enum StreamingMode {
    /// The automatic chain with live fallback.
    Auto,
    /// LanguageTool and the local model side by side.
    Hybrid,
    /// One provider, one final result (`select_provider` decides which).
    Single,
}

/// The streaming mode `config` asks for, or why it cannot run.
pub open spec fn streaming_mode_of(config: Config) -> Result<StreamingMode, AiError> {
    let p = config.ai_provider@;
    if p == "auto"@ {
        Ok(StreamingMode::Auto)
    } else if p == "hybrid"@ {
        if config.languagetool is None {
            Err(AiError::HybridLanguageToolConfigMissing)
        } else if config.local is None {
            Err(AiError::HybridLocalConfigMissing)
        } else {
            Ok(StreamingMode::Hybrid)
        }
    } else {
        Ok(StreamingMode::Single)
    }
}

/// The streaming mode `config` asks for.
pub fn streaming_mode(config: &Config) -> (r: Result<StreamingMode, AiError>)
    ensures
        r == streaming_mode_of(*config),
{
    let p = config.ai_provider.as_str();
    if same_text(p, "auto") {
        Ok(StreamingMode::Auto)
    } else if same_text(p, "hybrid") {
        if config.languagetool.is_none() {
            Err(AiError::HybridLanguageToolConfigMissing)
        } else if config.local.is_none() {
            Err(AiError::HybridLocalConfigMissing)
        } else {
            Ok(StreamingMode::Hybrid)
        }
    } else {
        Ok(StreamingMode::Single)
    }
}

// ── Outcomes shown in the popup ──────────────────────────────────────────────

/// The rewording note of hybrid streaming when the local model is down.
pub open spec fn local_down_note() -> Seq<char> {
    "IA locale non disponible (Ollama)"@
}

/// The rewording note of the LanguageTool-only mode.
pub open spec fn lt_only_note() -> Seq<char> {
    "Reformulations indisponibles (mode LanguageTool seul)"@
}

/// Hybrid streaming: the final result once both LanguageTool (`lt_correction`,
/// `None` if it failed) and the local model (`ai`) are done.
pub fn hybrid_streaming_result(lt_correction: Option<String>, ai: Result<AiResult, AiError>) -> (r:
    Result<AiResult, AiError>)
    ensures
        match ai {
            Ok(a) => r matches Ok(res) && res.correction == (match lt_correction {
                Some(c) => c,
                None => a.correction,
            }) && res.simple == a.simple && res.professional == a.professional && res.formal
                == a.formal && res.short == a.short && res.creative == a.creative,
            Err(_) => match lt_correction {
                Some(c) => r matches Ok(res) && res.correction == c && res.rewordings_are(
                    local_down_note(),
                ),
                None => r == Err::<AiResult, AiError>(AiError::BothUnavailable),
            },
        },
{
    match ai {
        Ok(a) => {
            let correction = match lt_correction {
                Some(c) => c,
                None => a.correction,
            };
            Ok(AiResult { correction, ..a })
        },
        Err(_) => match lt_correction {
            Some(c) => Ok(AiResult::correction_only(c, "IA locale non disponible (Ollama)")),
            None => Err(AiError::BothUnavailable),
        },
    }
}

/// LanguageTool-only mode: the partial result sent first, then the final one
/// whose rewordings say they are unavailable.
pub fn lt_only_outcome(correction: String) -> (r: (PartialResult, AiResult))
    ensures
        r.0.correction == correction,
        r.1.correction == correction,
        r.1.rewordings_are(lt_only_note()),
{
    let partial = PartialResult { correction: correction.clone() };
    (partial, AiResult::correction_only(correction, "Reformulations indisponibles (mode LanguageTool seul)"))
}

// ── Framing of a model's answer ──────────────────────────────────────────────

/// The JSON object inside a model's answer: from the first `{` to the last
/// `}`, both included (empty when the last `}` comes right before the first
/// `{`); the whole answer if either is missing.
pub open spec fn json_span_of(raw: Seq<char>) -> Seq<char> {
    match (find_char(raw, '{'), rfind_char(raw, '}')) {
        (Some(s), Some(e)) => raw.subrange(s, e + 1),
        _ => raw,
    }
}

/// The span can be cut: the first `{` comes at most one character after the
/// last `}` (one after gives the empty span).
pub open spec fn json_span_defined(raw: Seq<char>) -> bool {
    match (find_char(raw, '{'), rfind_char(raw, '}')) {
        (Some(s), Some(e)) => s <= e + 1,
        _ => true,
    }
}

fn first_last(cs: &Vec<char>) -> (r: (Option<usize>, Option<usize>))
    ensures
        (match r.0 { Some(i) => Some(i as int), None => None::<int> }) == find_char(cs@, '{'),
        (match r.1 { Some(i) => Some(i as int), None => None::<int> }) == rfind_char(cs@, '}'),
        r.0 matches Some(i) ==> i < cs@.len(),
        r.1 matches Some(i) ==> i < cs@.len(),
{
    let n = cs.len();
    let mut i: usize = 0;
    while i < n && cs[i] != '{'
        invariant
            n == cs@.len(),
            0 <= i <= n,
            forall|j: int| 0 <= j < i ==> cs@[j] != '{',
        decreases n - i,
    {
        i = i + 1;
    }
    proof {
        lemma_find_char(cs@, '{', i as int);
    }
    let first = if i < n { Some(i) } else { None };
    let mut k: usize = n;
    while k > 0 && cs[k - 1] != '}'
        invariant
            n == cs@.len(),
            0 <= k <= n,
            forall|j: int| k <= j < n ==> cs@[j] != '}',
        decreases k,
    {
        k = k - 1;
    }
    proof {
        lemma_rfind_char(cs@, '}', k - 1);
    }
    let last = if k > 0 { Some(k - 1) } else { None };
    (first, last)
}

/// Whether `json_span` can cut `raw`.
pub fn json_span_is_defined(raw: &str) -> (r: bool)
    ensures
        r == json_span_defined(raw@),
{
    let cs = chars_of(raw);
    let n = cs.len();
    let (first, last) = first_last(&cs);
    match (first, last) {
        (Some(s), Some(e)) => {
            assert(e < n);
            s <= e + 1
        },
        _ => true,
    }
}

/// The part of a model's answer that is parsed as JSON.
pub fn json_span(raw: &str) -> (r: &str)
    requires
        json_span_defined(raw@),
    ensures
        r@ == json_span_of(raw@),
{
    let cs = chars_of(raw);
    let n = cs.len();
    let (first, last) = first_last(&cs);
    match (first, last) {
        (Some(s), Some(e)) => {
            assert(e < n);
            raw.substring_char(s, e + 1)
        },
        _ => raw,
    }
}

/// An answer that is a JSON object from its first to its last character (as
/// a serialised result is, whatever braces its strings hold) is parsed whole.
pub proof fn lemma_object_answer_is_kept_whole(raw: Seq<char>)
    requires
        raw.len() > 0,
        raw[0] == '{',
        raw.last() == '}',
    ensures
        json_span_defined(raw),
        json_span_of(raw) == raw,
{
    lemma_find_char(raw, '{', 0);
    lemma_rfind_char(raw, '}', raw.len() - 1);
    assert(raw.subrange(0, raw.len() as int) == raw);
}

/// What a single-provider request gives the popup: one final result when the
/// provider succeeded, nothing when it failed; the error is passed on.
pub fn single_outcome(result: Result<AiResult, AiError>) -> (r: (Option<AiResult>, Result<(), AiError>))
    ensures
        match result {
            Ok(a) => r.0 == Some(a) && r.1 == Ok::<(), AiError>(()),
            Err(e) => r.0 is None && r.1 == Err::<(), AiError>(e),
        },
{
    match result {
        Ok(a) => (Some(a), Ok(())),
        Err(e) => (None, Err(e)),
    }
}

/// The result of a model once its JSON span has been parsed into `parsed`
/// (the parse error's text otherwise): a parse error is reported with the
/// span, and a blank correction is refused.
pub fn accept_response(parsed: Result<AiResult, String>, json: &str) -> (r: Result<AiResult, AiError>)
    ensures
        match parsed {
            Err(e) => r matches Err(AiError::JsonParse { error, raw }) && error == e && raw@ == json@,
            Ok(a) => if is_blank(a.correction@) {
                r matches Err(AiError::NoCorrection { json: j }) && j@ == json@
            } else {
                r == Ok::<AiResult, AiError>(a)
            },
        },
{
    match parsed {
        Err(e) => Err(AiError::JsonParse { error: e, raw: String::from_str(json) }),
        Ok(a) => if trims_to_empty(a.correction.as_str()) {
            Err(AiError::NoCorrection { json: String::from_str(json) })
        } else {
            Ok(a)
        },
    }
}

// ── Laws of the framing and of the mode choice ───────────────────────────────

/// When the answer holds a `{` (first one at `s`) and a `}` (last one at `e`),
/// it can be cut exactly when `s <= e + 1`, and the span is then the text from
/// `s` to `e` included, wherever the first `{` falls.
pub proof fn lemma_span_between_braces(raw: Seq<char>, s: int, e: int)
    requires
        0 <= s < raw.len(),
        raw[s] == '{',
        forall|j: int| 0 <= j < s ==> raw[j] != '{',
        0 <= e < raw.len(),
        raw[e] == '}',
        forall|j: int| e < j < raw.len() ==> raw[j] != '}',
    ensures
        json_span_defined(raw) == (s <= e + 1),
        s <= e + 1 ==> json_span_of(raw) == raw.subrange(s, e + 1),
{
    lemma_find_char(raw, '{', s);
    lemma_rfind_char(raw, '}', e);
}

/// An answer without a `{`, or without a `}`, is parsed whole.
pub proof fn lemma_span_without_both_braces(raw: Seq<char>)
    requires
        (forall|j: int| 0 <= j < raw.len() ==> raw[j] != '{') || (forall|j: int|
            0 <= j < raw.len() ==> raw[j] != '}'),
    ensures
        json_span_defined(raw),
        json_span_of(raw) == raw,
{
    if forall|j: int| 0 <= j < raw.len() ==> raw[j] != '{' {
        lemma_find_char(raw, '{', raw.len() as int);
    } else {
        lemma_rfind_char(raw, '}', -1);
    }
}

proof fn lemma_mode_names_differ()
    ensures
        "local"@.len() == 5,
        "languagetool"@.len() == 12,
        "mistral"@.len() == 7,
        "hybrid"@.len() == 6,
        "auto"@.len() == 4,
{
    reveal_strlit("local");
    reveal_strlit("languagetool");
    reveal_strlit("mistral");
    reveal_strlit("hybrid");
    reveal_strlit("auto");
}

/// The provider follows `ai_provider` alone, and a mode only looks at the
/// sections it needs: `"mistral"` and `"auto"` always succeed whatever sections
/// the file holds; `"local"`, `"languagetool"` and `"hybrid"` succeed exactly
/// when their sections are present; any other name is refused. Each choice
/// comes only from its own name.
pub proof fn lemma_choice_follows_the_mode(config: Config)
    ensures
        config.ai_provider@ == "mistral"@ ==> choice_of(config) == Ok::<ProviderChoice, AiError>(
            ProviderChoice::Mistral,
        ),
        config.ai_provider@ == "auto"@ ==> choice_of(config) == Ok::<ProviderChoice, AiError>(
            ProviderChoice::Auto,
        ),
        config.ai_provider@ == "local"@ ==> (choice_of(config) is Ok <==> config.local is Some),
        config.ai_provider@ == "languagetool"@ ==> (choice_of(config) is Ok
            <==> config.languagetool is Some),
        config.ai_provider@ == "hybrid"@ ==> (choice_of(config) is Ok <==> (config.local is Some
            && config.languagetool is Some)),
        choice_of(config) == Ok::<ProviderChoice, AiError>(ProviderChoice::Local)
            ==> config.ai_provider@ == "local"@,
        choice_of(config) == Ok::<ProviderChoice, AiError>(ProviderChoice::LanguageTool)
            ==> config.ai_provider@ == "languagetool"@,
        choice_of(config) == Ok::<ProviderChoice, AiError>(ProviderChoice::Mistral)
            ==> config.ai_provider@ == "mistral"@,
        choice_of(config) == Ok::<ProviderChoice, AiError>(ProviderChoice::Hybrid)
            ==> config.ai_provider@ == "hybrid"@,
        choice_of(config) == Ok::<ProviderChoice, AiError>(ProviderChoice::Auto)
            ==> config.ai_provider@ == "auto"@,
        (config.ai_provider@ != "local"@ && config.ai_provider@ != "languagetool"@
            && config.ai_provider@ != "mistral"@ && config.ai_provider@ != "hybrid"@
            && config.ai_provider@ != "auto"@) ==> choice_of(config) == Err::<ProviderChoice, AiError>(
            AiError::UnknownProvider(config.ai_provider),
        ),
{
    lemma_mode_names_differ();
}

/// Only `"hybrid"` streams LanguageTool and the local model side by side, and
/// only `"auto"` runs the chain; every other name streams one provider's
/// result, whatever sections the file holds.
pub proof fn lemma_streaming_follows_the_mode(config: Config)
    ensures
        streaming_mode_of(config) == Ok::<StreamingMode, AiError>(StreamingMode::Hybrid)
            ==> config.ai_provider@ == "hybrid"@,
        streaming_mode_of(config) == Ok::<StreamingMode, AiError>(StreamingMode::Auto)
            <==> config.ai_provider@ == "auto"@,
        config.ai_provider@ != "auto"@ && config.ai_provider@ != "hybrid"@ ==> streaming_mode_of(
            config,
        ) == Ok::<StreamingMode, AiError>(StreamingMode::Single),
        config.ai_provider@ == "hybrid"@ ==> (streaming_mode_of(config) is Ok <==> (config.local is Some
            && config.languagetool is Some)),
{
    lemma_mode_names_differ();
}

} // verus!
