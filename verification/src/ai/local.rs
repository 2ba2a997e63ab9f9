//! Local model servers: Ollama, LM Studio, any OpenAI-compatible server.
use vstd::prelude::*;
use vstd::string::StringExecFns;

use super::AiError;
use crate::config::LocalConfig;
use crate::text::same_text;

verus! {

/// How long Ollama keeps the model loaded after a request.
pub const KEEP_ALIVE: &'static str = "30m";

/// Cap on generated tokens: six fields take about two hundred.
pub const MAX_TOKENS: u32 = 512;

/// The API a local server speaks.
#[derive(Debug, Clone, Copy, PartialEq, Eq, Structural)]
pub enum LocalBackend {
    /// Ollama's `/api/generate`.
    Ollama,
    /// `/v1/chat/completions` (LM Studio, any OpenAI-compatible server).
    OpenAiCompatible,
}

/// The API named by `local.provider`: `"ollama"`, or `"lmstudio"` and
/// `"openai_compatible"` for the OpenAI one; anything else is refused.
pub fn local_backend(provider: &str) -> (r: Result<LocalBackend, AiError>)
    ensures
        if provider@ == "ollama"@ {
            r == Ok::<LocalBackend, AiError>(LocalBackend::Ollama)
        } else if provider@ == "lmstudio"@ || provider@ == "openai_compatible"@ {
            r == Ok::<LocalBackend, AiError>(LocalBackend::OpenAiCompatible)
        } else {
            r matches Err(AiError::UnknownLocalProvider(p)) && p@ == provider@
        },
{
    if same_text(provider, "ollama") {
        Ok(LocalBackend::Ollama)
    } else if same_text(provider, "lmstudio") || same_text(provider, "openai_compatible") {
        Ok(LocalBackend::OpenAiCompatible)
    } else {
        Err(AiError::UnknownLocalProvider(String::from_str(provider)))
    }
}

/// Preloading the model at start-up only applies to Ollama.
pub fn warms_up(config: &LocalConfig) -> (r: bool)
    ensures
        r == (config.provider@ == "ollama"@),
{
    same_text(config.provider.as_str(), "ollama")
}

} // verus!
