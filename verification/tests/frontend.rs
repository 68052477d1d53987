use trust_80::display::DisplayMode;
use trust_80::frontend::{
    frame_pacing, reaches_keyboard, Frontend, FrontendAction, HotKey, WindowEvent, WindowIds,
    FRAME_INTERVAL_NANOS,
};

const IDS: WindowIds = WindowIds { main: 1, console: 2, status: 3 };

fn key(key: HotKey, window_id: u32) -> WindowEvent {
    WindowEvent::HotKeyDown { key, repeat: false, window_id }
}

#[test]
fn zoom_keys_act_in_the_main_window() {
    let mut f = Frontend::new();
    let z = DisplayMode::Normal;
    assert_eq!(f.step(&IDS, &key(HotKey::F1, 1), z), FrontendAction::SetZoom(DisplayMode::Half));
    assert_eq!(f.step(&IDS, &key(HotKey::F2, 1), z), FrontendAction::SetZoom(DisplayMode::Normal));
    assert_eq!(f.step(&IDS, &key(HotKey::F3, 1), z), FrontendAction::SetZoom(DisplayMode::X2));
    assert_eq!(f.step(&IDS, &key(HotKey::F4, 1), z), FrontendAction::SetZoom(DisplayMode::Fullscreen));
    assert_eq!(
        f.step(&IDS, &key(HotKey::F4, 1), DisplayMode::Fullscreen),
        FrontendAction::SetZoom(DisplayMode::Normal)
    );
    assert_eq!(f.step(&IDS, &key(HotKey::F5, 1), z), FrontendAction::ToggleCrt);
    assert_eq!(f.step(&IDS, &key(HotKey::F6, 1), z), FrontendAction::ToggleCrtPanel);
    assert_eq!(f.step(&IDS, &key(HotKey::F7, 1), z), FrontendAction::ToggleKeyboardPanel);
    assert_eq!(f, Frontend::new());
}

#[test]
fn zoom_keys_do_nothing_elsewhere_or_on_repeat() {
    let mut f = Frontend::new();
    let z = DisplayMode::Normal;
    assert_eq!(f.step(&IDS, &key(HotKey::F1, 2), z), FrontendAction::Nothing);
    assert_eq!(f.step(&IDS, &key(HotKey::F5, 3), z), FrontendAction::Nothing);
    let repeated = WindowEvent::HotKeyDown { key: HotKey::F11, repeat: true, window_id: 1 };
    assert_eq!(f.step(&IDS, &repeated, z), FrontendAction::Nothing);
    assert!(!f.console_visible);
}

#[test]
fn console_and_status_windows_toggle() {
    let mut f = Frontend::new();
    let z = DisplayMode::Normal;
    assert_eq!(f.step(&IDS, &key(HotKey::F11, 1), z), FrontendAction::ShowConsole);
    assert!(f.console_visible);
    // Closed again from the console window itself, which has the focus.
    assert_eq!(f.step(&IDS, &key(HotKey::F11, 2), z), FrontendAction::HideConsole);
    assert!(!f.console_visible);
    // Not from the status window.
    assert_eq!(f.step(&IDS, &key(HotKey::F11, 3), z), FrontendAction::Nothing);
    assert_eq!(f.step(&IDS, &key(HotKey::F12, 1), z), FrontendAction::ShowStatus);
    assert_eq!(f.step(&IDS, &key(HotKey::F12, 2), z), FrontendAction::Nothing);
    assert!(f.status_visible);
    assert_eq!(f.step(&IDS, &key(HotKey::F12, 3), z), FrontendAction::HideStatus);
    assert!(!f.status_visible);
}

#[test]
fn closing_and_resizing_windows() {
    let mut f = Frontend::new();
    let z = DisplayMode::X2;
    f.step(&IDS, &key(HotKey::F11, 1), z);
    f.step(&IDS, &key(HotKey::F12, 1), z);
    assert_eq!(f.step(&IDS, &WindowEvent::Close { window_id: 2 }, z), FrontendAction::HideConsole);
    assert!(!f.console_visible && f.status_visible);
    assert_eq!(f.step(&IDS, &WindowEvent::Close { window_id: 3 }, z), FrontendAction::HideStatus);
    assert!(!f.status_visible);
    assert_eq!(f.step(&IDS, &WindowEvent::Close { window_id: 9 }, z), FrontendAction::Nothing);
    assert_eq!(f.step(&IDS, &WindowEvent::Close { window_id: 1 }, z), FrontendAction::Quit);
    assert_eq!(f.step(&IDS, &WindowEvent::Quit, z), FrontendAction::Quit);
    assert_eq!(f.step(&IDS, &WindowEvent::Resized { window_id: 1 }, z), FrontendAction::ResizeMain);
    assert_eq!(f.step(&IDS, &WindowEvent::Resized { window_id: 2 }, z), FrontendAction::ResizeConsole);
    assert_eq!(f.step(&IDS, &WindowEvent::Resized { window_id: 3 }, z), FrontendAction::ResizeStatus);
    assert_eq!(f.step(&IDS, &WindowEvent::Resized { window_id: 4 }, z), FrontendAction::Nothing);
    assert_eq!(f.step(&IDS, &WindowEvent::Other, z), FrontendAction::Nothing);
}

#[test]
fn only_main_window_keys_reach_the_keyboard() {
    assert!(reaches_keyboard(None, 1));
    assert!(reaches_keyboard(Some(1), 1));
    assert!(!reaches_keyboard(Some(2), 1));
}

#[test]
fn frame_governor_paces_to_fifty_hertz() {
    assert_eq!(FRAME_INTERVAL_NANOS, 20_000_000);
    // Ahead: sleep until the frame is due, next one a period later.
    assert_eq!(frame_pacing(5_000_000, 20_000_000), (15_000_000, 40_000_000));
    // Behind: no catching up.
    assert_eq!(frame_pacing(45_000_000, 40_000_000), (0, 45_000_000));
    assert_eq!(frame_pacing(0, 0), (0, 0));
}
