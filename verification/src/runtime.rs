//! State shared by the running application and the launch of the local
//! LanguageTool server.
use vstd::prelude::*;
use vstd::string::{StrSliceExecFns, StringExecFns};

use crate::config::Config;
use crate::text::{chars_of, lemma_rfind_char, rfind_char, same_text};

verus! {

/// The configuration shared with every request.
pub struct AppConfig(pub std::sync::Arc<Config>);

/// What `s.rsplit(':').next()` gives: the text after the last `:`, or the
/// whole text without one.
pub open spec fn after_last_colon(s: Seq<char>) -> Seq<char> {
    match rfind_char(s, ':') {
        Some(i) => s.skip(i + 1),
        None => s,
    }
}

/// The port the LanguageTool server is started on: the part of its base URL
/// after the last `:`, or 8082 without a `languagetool` section.
pub fn lt_port(config: &Config) -> (r: String)
    ensures
        r@ == match config.languagetool {
            Some(lt) => after_last_colon(lt.base_url@),
            None => "8082"@,
        },
{
    match &config.languagetool {
        Some(lt) => {
            let url = lt.base_url.as_str();
            let cs = chars_of(url);
            let n = cs.len();
            let mut k: usize = n;
            while k > 0 && cs[k - 1] != ':'
                invariant
                    n == cs@.len(),
                    0 <= k <= n,
                    forall|j: int| k <= j < n ==> cs@[j] != ':',
                decreases k,
            {
                k = k - 1;
            }
            proof {
                lemma_rfind_char(cs@, ':', k - 1);
            }
            String::from_str(url.substring_char(k, n))
        },
        None => String::from_str("8082"),
    }
}

/// The modes that use LanguageTool on every request start its server at
/// launch; the automatic mode starts it only when the chain falls to it.
pub fn starts_languagetool_at_launch(config: &Config) -> (r: bool)
    ensures
        r == (config.ai_provider@ == "hybrid"@ || config.ai_provider@ == "languagetool"@),
{
    let p = config.ai_provider.as_str();
    same_text(p, "hybrid") || same_text(p, "languagetool")
}

/// The provider is detected in the background at launch only in automatic mode.
pub fn detects_at_launch(config: &Config) -> (r: bool)
    ensures
        r == (config.ai_provider@ == "auto"@),
{
    same_text(config.ai_provider.as_str(), "auto")
}

/// The LanguageTool process as last seen.
#[derive(Debug, Clone, Copy, PartialEq, Eq, Structural)]
pub enum ServerState {
    /// Never started, or cleared.
    Absent,
    /// Started and still running.
    Running,
    /// Started, then exited (or its state cannot be read).
    Exited,
}

/// A start is launched unless the process still runs.
pub fn start_needed(state: ServerState) -> (r: bool)
    ensures
        r == (state != ServerState::Running),
{
    state != ServerState::Running
}

/// Whether `ensure_started` reports a start: only when one was needed and the
/// process could be spawned.
pub fn start_reported(state: ServerState, spawned: bool) -> (r: bool)
    ensures
        r == (state != ServerState::Running && spawned),
{
    start_needed(state) && spawned
}

} // verus!
