use reformojuste::autostart::{
    is_enabled, needs_realign, quoted_command_line, realign_needed, sync_path, AutostartError,
};
use reformojuste::clipboard::{
    after_failed_attempt, simulate_copy, simulate_paste, ClipboardStep, CLIPBOARD_ATTEMPTS,
};
use reformojuste::config::{Config, HotkeyConfig, LanguageToolConfig, PopupConfig};
use reformojuste::cursor::{clamp_popup, get_monitor_rect, get_position};
use reformojuste::hotkey::{
    captured_text, geometry_from, on_event, popup_action, HotkeyState, KeyEvent, PopupAction,
};
use reformojuste::runtime::{
    detects_at_launch, lt_port, start_needed, start_reported, starts_languagetool_at_launch,
    ServerState,
};

fn config(mode: &str, lt_url: Option<&str>) -> Config {
    Config {
        ai_provider: mode.to_string(),
        mistral_api_key: String::new(),
        mistral_model: "mistral-small-latest".to_string(),
        local: None,
        languagetool: lt_url.map(|u| LanguageToolConfig {
            base_url: u.to_string(),
            language: "fr".to_string(),
        }),
        hotkey: HotkeyConfig { double_press_ms: 400 },
        popup: PopupConfig { width: 446, height: 286, offset_x: 20, offset_y: 20 },
    }
}

#[test]
fn popup_goes_below_right_of_the_cursor() {
    assert_eq!(clamp_popup((100, 100), (0, 0, 1920, 1080), (446, 286), (20, 20)), (120, 120));
}

#[test]
fn popup_flips_near_the_right_and_bottom_edges() {
    assert_eq!(clamp_popup((1900, 1000), (0, 0, 1920, 1080), (446, 286), (20, 20)), (1434, 694));
}

#[test]
fn popup_never_leaves_the_left_or_top_edge() {
    // Too wide for the space on either side of the cursor: pinned to the left edge.
    assert_eq!(clamp_popup((200, 50), (0, 0, 500, 300), (446, 286), (20, 20)), (0, 0));
    // Second monitor on the left, at negative coordinates.
    assert_eq!(clamp_popup((-100, 10), (-1920, 0, 0, 1080), (446, 286), (20, 20)), (-566, 30));
}

#[test]
fn fixed_cursor_and_monitor_off_windows() {
    assert_eq!(get_position(), (100, 100));
    assert_eq!(get_monitor_rect((5, 5)), (0, 0, 1920, 1080));
}

#[test]
fn double_ctrl_space_toggles_once() {
    let mut s = HotkeyState::default();
    assert!(!on_event(&mut s, KeyEvent::CtrlPress, 0, 400));
    assert!(!on_event(&mut s, KeyEvent::SpacePress, 1000, 400));
    assert!(on_event(&mut s, KeyEvent::SpacePress, 1399, 400));
    assert_eq!(s.last_trigger, None);
    assert!(!on_event(&mut s, KeyEvent::SpacePress, 1500, 400));
    assert_eq!(s.last_trigger, Some(1500));
}

#[test]
fn slow_second_press_starts_over() {
    let mut s = HotkeyState::default();
    on_event(&mut s, KeyEvent::CtrlPress, 0, 400);
    assert!(!on_event(&mut s, KeyEvent::SpacePress, 1000, 400));
    assert!(!on_event(&mut s, KeyEvent::SpacePress, 1400, 400));
    assert_eq!(s.last_trigger, Some(1400));
    assert!(on_event(&mut s, KeyEvent::SpacePress, 1500, 400));
}

#[test]
fn space_without_ctrl_does_nothing() {
    let mut s = HotkeyState::default();
    on_event(&mut s, KeyEvent::CtrlPress, 0, 400);
    on_event(&mut s, KeyEvent::SpacePress, 10, 400);
    assert!(!on_event(&mut s, KeyEvent::CtrlRelease, 20, 400));
    assert!(!on_event(&mut s, KeyEvent::SpacePress, 30, 400));
    assert_eq!(s, HotkeyState { ctrl_held: false, last_trigger: Some(10) });
    assert!(!on_event(&mut s, KeyEvent::Other, 40, 400));
}

#[test]
fn geometry_of_the_configuration() {
    let g = geometry_from(&PopupConfig { width: 446, height: 286, offset_x: -5, offset_y: 20 });
    assert_eq!((g.width, g.height, g.offset_x, g.offset_y), (446, 286, -5, 20));
}

#[test]
fn clipboard_is_tried_three_times() {
    assert_eq!(CLIPBOARD_ATTEMPTS, 3);
    assert_eq!(after_failed_attempt(0), ClipboardStep::PauseThenRetry);
    assert_eq!(after_failed_attempt(1), ClipboardStep::PauseThenRetry);
    assert_eq!(after_failed_attempt(2), ClipboardStep::GiveUp);
}

#[test]
fn keyboard_simulation_is_a_no_op_off_windows() {
    assert!(simulate_copy().is_ok());
    assert!(simulate_paste().is_ok());
}

#[test]
fn command_line_est_entre_guillemets() {
    let cmd = quoted_command_line(r"C:\Program Files\ReformoJuste\reformojuste.exe");
    assert!(cmd.starts_with('"') && cmd.ends_with('"'), "non protégé : {cmd}");
    assert_eq!(cmd, "\"C:\\Program Files\\ReformoJuste\\reformojuste.exe\"");
}

#[test]
fn registered_path_is_compared_without_case() {
    assert!(!needs_realign(r#""C:\Apps\RJ.exe""#, r#""c:\apps\rj.EXE""#));
    assert!(needs_realign(r#""C:\Apps\RJ.exe""#, r#""D:\Apps\RJ.exe""#));
    assert!(needs_realign("abc", "abcd"));
}

#[test]
fn autostart_off_windows() {
    assert!(!is_enabled());
    let e = reformojuste::autostart::set(true).unwrap_err();
    assert_eq!(e, AutostartError::Unsupported);
    assert_eq!(e.message(), "démarrage automatique non pris en charge sur cette plateforme");
    assert_eq!(reformojuste::autostart::set(false), Ok(()));
    assert_eq!(reformojuste::autostart::set(false), Ok(()));
    sync_path();
    assert!(!is_enabled());
}

#[test]
fn languagetool_port_comes_from_its_url() {
    assert_eq!(lt_port(&config("hybrid", Some("http://localhost:8082"))), "8082");
    assert_eq!(lt_port(&config("hybrid", Some("http://127.0.0.1:9000"))), "9000");
    assert_eq!(lt_port(&config("hybrid", Some("localhost"))), "localhost");
    assert_eq!(lt_port(&config("hybrid", None)), "8082");
}

#[test]
fn languagetool_server_starts_at_launch_only_when_always_needed() {
    assert!(starts_languagetool_at_launch(&config("hybrid", None)));
    assert!(starts_languagetool_at_launch(&config("languagetool", None)));
    assert!(!starts_languagetool_at_launch(&config("auto", None)));
    assert!(!starts_languagetool_at_launch(&config("mistral", None)));
    assert!(detects_at_launch(&config("auto", None)));
    assert!(!detects_at_launch(&config("hybrid", None)));
}

#[test]
fn toggle_hides_a_visible_popup_and_captures_otherwise() {
    assert_eq!(popup_action(true), PopupAction::Hide);
    assert_eq!(popup_action(false), PopupAction::Capture);
    assert_eq!(captured_text(Some("texte".to_string())), "texte");
    assert_eq!(captured_text(None), "(aucun texte)");
}

#[test]
fn languagetool_server_is_started_only_when_not_running() {
    assert!(!start_needed(ServerState::Running));
    assert!(start_needed(ServerState::Absent));
    assert!(start_needed(ServerState::Exited));
    assert!(!start_reported(ServerState::Running, true));
    assert!(start_reported(ServerState::Exited, true));
    assert!(!start_reported(ServerState::Absent, false));
}

#[test]
fn registered_entry_is_rewritten_only_when_it_moved() {
    assert!(!realign_needed(None, Some("\"C:\\a.exe\"")));
    assert!(!realign_needed(Some("\"C:\\a.exe\""), None));
    assert!(!realign_needed(Some("\"C:\\A.EXE\""), Some("\"c:\\a.exe\"")));
    assert!(realign_needed(Some("\"C:\\a.exe\""), Some("\"D:\\a.exe\"")));
}
