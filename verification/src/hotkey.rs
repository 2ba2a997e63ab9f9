//! The global shortcut: a double Ctrl+Space toggles the popup.
use vstd::prelude::*;

use crate::config::PopupConfig;
use vstd::string::StringExecFns;

verus! {

/// The keyboard events the shortcut looks at.
#[derive(Debug, Clone, Copy, PartialEq, Eq, Structural)]
pub enum KeyEvent {
    /// Left or right Ctrl pressed.
    CtrlPress,
    /// Left or right Ctrl released.
    CtrlRelease,
    /// Space pressed.
    SpacePress,
    /// Any other event.
    Other,
}

/// What the keyboard hook remembers between events; times are milliseconds
/// of a monotonic clock.
#[derive(Debug, Clone, Copy, PartialEq, Eq)]
pub struct HotkeyState {
    pub ctrl_held: bool,
    /// When the first Ctrl+Space of a possible double press came.
    pub last_trigger: Option<u64>,
}

impl Default for HotkeyState {
    /// Ctrl up, no pending press.
    fn default() -> (r: Self)
        ensures
            !r.ctrl_held,
            r.last_trigger is None,
    {
        HotkeyState { ctrl_held: false, last_trigger: None }
    }
}

/// Milliseconds from `since` to `now`, zero if the clock reads earlier.
pub open spec fn since_ms(since: u64, now: u64) -> int {
    if now >= since { now - since } else { 0 }
}

/// The state after `event` at `now`, and whether the popup toggles: a
/// Ctrl+Space closer than `window_ms` to the previous one toggles it and
/// starts over; otherwise it becomes the first press of a possible double.
pub open spec fn hotkey_step(state: HotkeyState, event: KeyEvent, now: u64, window_ms: u64) -> (
    HotkeyState,
    bool,
) {
    match event {
        KeyEvent::CtrlPress => (HotkeyState { ctrl_held: true, ..state }, false),
        KeyEvent::CtrlRelease => (HotkeyState { ctrl_held: false, ..state }, false),
        KeyEvent::SpacePress => if state.ctrl_held {
            match state.last_trigger {
                Some(t) if since_ms(t, now) < window_ms => (
                    HotkeyState { last_trigger: None, ..state },
                    true,
                ),
                _ => (HotkeyState { last_trigger: Some(now), ..state }, false),
            }
        } else {
            (state, false)
        },
        KeyEvent::Other => (state, false),
    }
}

/// Handles one keyboard event; returns whether the popup must toggle. Only
/// arithmetic: this runs inside the system keyboard hook.
pub fn on_event(state: &mut HotkeyState, event: KeyEvent, now: u64, window_ms: u64) -> (fire: bool)
    ensures
        (*final(state), fire) == hotkey_step(*old(state), event, now, window_ms),
{
    match event {
        KeyEvent::CtrlPress => {
            state.ctrl_held = true;
            false
        },
        KeyEvent::CtrlRelease => {
            state.ctrl_held = false;
            false
        },
        KeyEvent::SpacePress => {
            if state.ctrl_held {
                let double = match state.last_trigger {
                    Some(t) => {
                        let elapsed = if now >= t { now - t } else { 0 };
                        elapsed < window_ms
                    },
                    None => false,
                };
                if double {
                    state.last_trigger = None;
                    true
                } else {
                    state.last_trigger = Some(now);
                    false
                }
            } else {
                false
            }
        },
        KeyEvent::Other => false,
    }
}

/// With Ctrl held and no pending press, a first Space does not toggle; a
/// second Space less than `window_ms` later toggles, and leaves no pending
/// press, so a third Space alone does not toggle again.
pub proof fn lemma_double_press_toggles_once(
    state: HotkeyState,
    t1: u64,
    t2: u64,
    t3: u64,
    window_ms: u64,
)
    requires
        state.ctrl_held,
        state.last_trigger is None,
        t1 <= t2,
        t2 - t1 < window_ms,
    ensures
        ({
            let (s1, f1) = hotkey_step(state, KeyEvent::SpacePress, t1, window_ms);
            let (s2, f2) = hotkey_step(s1, KeyEvent::SpacePress, t2, window_ms);
            let (s3, f3) = hotkey_step(s2, KeyEvent::SpacePress, t3, window_ms);
            !f1 && f2 && !f3
        }),
{
}

/// Two Space presses further apart than the window never toggle: the second
/// one only starts a new double press.
pub proof fn lemma_slow_presses_do_not_toggle(state: HotkeyState, t1: u64, t2: u64, window_ms: u64)
    requires
        state.ctrl_held,
        state.last_trigger is None,
        t1 <= t2,
        t2 - t1 >= window_ms,
    ensures
        ({
            let (s1, f1) = hotkey_step(state, KeyEvent::SpacePress, t1, window_ms);
            let (s2, f2) = hotkey_step(s1, KeyEvent::SpacePress, t2, window_ms);
            !f1 && !f2 && s2.last_trigger == Some(t2)
        }),
{
}

/// Space without Ctrl held never toggles and changes nothing.
pub proof fn lemma_space_without_ctrl(state: HotkeyState, now: u64, window_ms: u64)
    requires
        !state.ctrl_held,
    ensures
        hotkey_step(state, KeyEvent::SpacePress, now, window_ms) == (state, false),
{
}

/// Size and offset of the popup, fixed at start-up from the configuration.
#[derive(Debug, Clone, Copy, PartialEq, Eq)]
pub struct Geometry {
    pub width: i32,
    pub height: i32,
    pub offset_x: i32,
    pub offset_y: i32,
}

/// The popup geometry of the configuration (sizes converted with `as i32`).
pub fn geometry_from(popup: &PopupConfig) -> (r: Geometry)
    ensures
        r.width == popup.width as i32,
        r.height == popup.height as i32,
        r.offset_x == popup.offset_x,
        r.offset_y == popup.offset_y,
{
    Geometry {
        width: popup.width as i32,
        height: popup.height as i32,
        offset_x: popup.offset_x,
        offset_y: popup.offset_y,
    }
}

/// What a double Ctrl+Space does to the popup.
#[derive(Debug, Clone, Copy, PartialEq, Eq, Structural)]
pub enum PopupAction {
    /// The popup is shown: hide it.
    Hide,
    /// The popup is hidden: copy the selection and show it.
    Capture,
}

/// A visible popup is hidden; a hidden one (or one whose visibility cannot be
/// read) captures the selection.
pub fn popup_action(visible: bool) -> (r: PopupAction)
    ensures
        r == (if visible { PopupAction::Hide } else { PopupAction::Capture }),
{
    if visible {
        PopupAction::Hide
    } else {
        PopupAction::Capture
    }
}

/// The text shown in the popup: the clipboard's, or "(aucun texte)" when it
/// could not be read.
pub fn captured_text(read: Option<String>) -> (r: String)
    ensures
        match read {
            Some(t) => r == t,
            None => r@ == "(aucun texte)"@,
        },
{
    match read {
        Some(t) => t,
        None => String::from_str("(aucun texte)"),
    }
}

/// Any other event (a Space release among them) leaves the state as it is and
/// never toggles.
pub proof fn lemma_other_events_change_nothing(state: HotkeyState, now: u64, window_ms: u64)
    ensures
        hotkey_step(state, KeyEvent::Other, now, window_ms) == (state, false),
{
}

/// Ctrl presses and releases only record whether Ctrl is held.
pub proof fn lemma_ctrl_only_sets_held(state: HotkeyState, now: u64, window_ms: u64)
    ensures
        hotkey_step(state, KeyEvent::CtrlPress, now, window_ms) == (HotkeyState {
            ctrl_held: true,
            last_trigger: state.last_trigger,
        }, false),
        hotkey_step(state, KeyEvent::CtrlRelease, now, window_ms) == (HotkeyState {
            ctrl_held: false,
            last_trigger: state.last_trigger,
        }, false),
{
}

/// Ctrl pressed, Space pressed, then released (an other event), then pressed
/// again less than `window_ms` later: the second press toggles the popup.
pub proof fn lemma_press_release_press_toggles(
    state: HotkeyState,
    t0: u64,
    t1: u64,
    t: u64,
    t2: u64,
    window_ms: u64,
)
    requires
        state.last_trigger is None,
        t1 <= t2,
        t2 - t1 < window_ms,
    ensures
        ({
            let (s0, f0) = hotkey_step(state, KeyEvent::CtrlPress, t0, window_ms);
            let (s1, f1) = hotkey_step(s0, KeyEvent::SpacePress, t1, window_ms);
            let (s2, f2) = hotkey_step(s1, KeyEvent::Other, t, window_ms);
            let (s3, f3) = hotkey_step(s2, KeyEvent::SpacePress, t2, window_ms);
            !f0 && !f1 && !f2 && f3
        }),
{
}

} // verus!
