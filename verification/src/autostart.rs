//! Start with the session. Only Windows (the `Run` key of the current user)
//! supports it; elsewhere it is reported as off and cannot be turned on.
use vstd::prelude::*;
use vstd::string::StringExecFns;

use crate::text::{eq_ignore_ascii_case, push_char, same_ignoring_ascii_case};

verus! {

/// Why the start-with-session setting could not change.
#[derive(Debug, Clone, Copy, PartialEq, Eq, Structural)]
pub enum AutostartError {
    /// This platform has no such setting.
    Unsupported,
}

impl AutostartError {
    /// The message shown to the user.
    pub fn message(&self) -> (r: String)
        ensures
            r@ == "démarrage automatique non pris en charge sur cette plateforme"@,
    {
        String::from_str("démarrage automatique non pris en charge sur cette plateforme")
    }
}

/// Whether the application starts with the session: never, off Windows.
pub fn is_enabled() -> (r: bool)
    ensures
        !r,
{
    false
}

fn enable() -> (r: Result<(), AutostartError>)
    ensures
        r == Err::<(), AutostartError>(AutostartError::Unsupported),
{
    Err(AutostartError::Unsupported)
}

fn disable() -> (r: Result<(), AutostartError>)
    ensures
        r is Ok,
{
    Ok(())
}

/// Turns starting with the session on or off: turning it off always
/// succeeds (the wanted state already holds), turning it on is unsupported.
pub fn set(enabled: bool) -> (r: Result<(), AutostartError>)
    ensures
        enabled ==> r == Err::<(), AutostartError>(AutostartError::Unsupported),
        !enabled ==> r is Ok,
{
    if enabled {
        enable()
    } else {
        disable()
    }
}

/// Re-registers the executable path if it moved; nothing to do off Windows.
pub fn sync_path() {
}

/// The command line registered for start-up: the executable path in double
/// quotes, since a portable folder may hold spaces.
pub fn quoted_command_line(exe_path: &str) -> (r: String)
    ensures
        r@ == seq!['"'] + exe_path@ + seq!['"'],
{
    let mut s = String::new();
    push_char(&mut s, '"');
    s.append(exe_path);
    push_char(&mut s, '"');
    s
}

/// The registered command line must be rewritten when it differs from the
/// expected one other than by ASCII case (Windows paths ignore case).
pub fn needs_realign(current: &str, expected: &str) -> (r: bool)
    ensures
        r == !same_ignoring_ascii_case(current@, expected@),
{
    !eq_ignore_ascii_case(current, expected)
}

/// On Windows, the registered entry is rewritten only when one is registered,
/// the expected command line is known, and the two differ other than by ASCII
/// case; nothing is ever registered or removed here.
pub fn realign_needed(current: Option<&str>, expected: Option<&str>) -> (r: bool)
    ensures
        r == match (current, expected) {
            (Some(c), Some(e)) => !same_ignoring_ascii_case(c@, e@),
            _ => false,
        },
{
    match (current, expected) {
        (Some(c), Some(e)) => needs_realign(c, e),
        _ => false,
    }
}

} // verus!
