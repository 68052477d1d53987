//! The frontend's main loop decisions: which window event does what (the
//! function keys, closing and resizing the three windows), which events reach
//! the emulated keyboard, and the frame-rate governor. The loop itself, with
//! the windows and the clock, belongs to the host application.

use vstd::prelude::*;
use crate::display::DisplayMode;

verus! {

/// The function keys the frontend binds: F1-F4 zoom, F5 CRT shader, F6 display
/// panel, F7 virtual keyboard, F11 console window, F12 status window.
#[derive(Clone, Copy, PartialEq, Eq, Debug, Structural)]
pub enum HotKey {
    F1,
    F2,
    F3,
    F4,
    F5,
    F6,
    F7,
    F11,
    F12,
}

/// A host window event, reduced to what the main loop decides on.
#[derive(Clone, Copy, PartialEq, Eq, Debug, Structural)]
pub enum WindowEvent {
    /// The application was asked to quit.
    Quit,
    /// The close button of a window.
    Close { window_id: u32 },
    /// A window changed size.
    Resized { window_id: u32 },
    /// A function key went down in a window; `repeat` for the host's own
    /// typematic repeat of a key held down.
    HotKeyDown { key: HotKey, repeat: bool, window_id: u32 },
    /// Anything else.
    Other,
}

/// The host ids of the main window, the console window and the status window.
#[derive(Clone, Copy, PartialEq, Eq, Debug, Structural)]
pub struct WindowIds {
    pub main: u32,
    pub console: u32,
    pub status: u32,
}

/// Which of the two auxiliary windows are shown.
#[derive(Clone, Copy, PartialEq, Eq, Debug, Structural)]
pub struct Frontend {
    pub console_visible: bool,
    pub status_visible: bool,
}

/// What the host application does for an event.
#[derive(Clone, Copy, PartialEq, Eq, Debug, Structural)]
pub enum FrontendAction {
    Nothing,
    /// Leave the main loop.
    Quit,
    /// Show the console window and give it the focus.
    ShowConsole,
    HideConsole,
    ShowStatus,
    HideStatus,
    ResizeMain,
    ResizeConsole,
    ResizeStatus,
    SetZoom(DisplayMode),
    ToggleCrt,
    ToggleCrtPanel,
    ToggleKeyboardPanel,
}

/// Whether a key event of a window (`None`: an event of no window) reaches
/// the emulated keyboard: only the main window's do, so that typing into the
/// console window presses nothing on the machine.
pub open spec fn spec_reaches_keyboard(window: Option<u32>, main: u32) -> bool {
    match window {
        None => true,
        Some(id) => id == main,
    }
}

/// The frontend after an event, and what the host does for it; `zoom` is the
/// display's current zoom level.
pub open spec fn frontend_step(f: Frontend, ids: WindowIds, e: WindowEvent, zoom: DisplayMode) -> (
    Frontend,
    FrontendAction,
) {
    match e {
        WindowEvent::Quit => (f, FrontendAction::Quit),
        WindowEvent::Close { window_id } => if window_id == ids.main {
            (f, FrontendAction::Quit)
        } else if window_id == ids.console {
            (Frontend { console_visible: false, ..f }, FrontendAction::HideConsole)
        } else if window_id == ids.status {
            (Frontend { status_visible: false, ..f }, FrontendAction::HideStatus)
        } else {
            (f, FrontendAction::Nothing)
        },
        WindowEvent::Resized { window_id } => if window_id == ids.main {
            (f, FrontendAction::ResizeMain)
        } else if window_id == ids.console {
            (f, FrontendAction::ResizeConsole)
        } else if window_id == ids.status {
            (f, FrontendAction::ResizeStatus)
        } else {
            (f, FrontendAction::Nothing)
        },
        WindowEvent::HotKeyDown { key, repeat, window_id } => if repeat {
            (f, FrontendAction::Nothing)
        } else {
            match key {
                HotKey::F11 => if window_id == ids.main || window_id == ids.console {
                    let shown = !f.console_visible;
                    (
                        Frontend { console_visible: shown, ..f },
                        if shown { FrontendAction::ShowConsole } else { FrontendAction::HideConsole },
                    )
                } else {
                    (f, FrontendAction::Nothing)
                },
                HotKey::F12 => if window_id == ids.main || window_id == ids.status {
                    let shown = !f.status_visible;
                    (
                        Frontend { status_visible: shown, ..f },
                        if shown { FrontendAction::ShowStatus } else { FrontendAction::HideStatus },
                    )
                } else {
                    (f, FrontendAction::Nothing)
                },
                _ => if window_id == ids.main {
                    (f, main_window_key(key, zoom))
                } else {
                    (f, FrontendAction::Nothing)
                },
            }
        },
        WindowEvent::Other => (f, FrontendAction::Nothing),
    }
}

/// What a function key other than F11 and F12 does in the main window.
pub open spec fn main_window_key(key: HotKey, zoom: DisplayMode) -> FrontendAction {
    match key {
        HotKey::F1 => FrontendAction::SetZoom(DisplayMode::Half),
        HotKey::F2 => FrontendAction::SetZoom(DisplayMode::Normal),
        HotKey::F3 => FrontendAction::SetZoom(DisplayMode::X2),
        HotKey::F4 => FrontendAction::SetZoom(
            if zoom == DisplayMode::Fullscreen { DisplayMode::Normal } else { DisplayMode::Fullscreen },
        ),
        HotKey::F5 => FrontendAction::ToggleCrt,
        HotKey::F6 => FrontendAction::ToggleCrtPanel,
        HotKey::F7 => FrontendAction::ToggleKeyboardPanel,
        _ => FrontendAction::Nothing,
    }
}

/// Whether a key event of `window` reaches the emulated keyboard.
pub fn reaches_keyboard(window: Option<u32>, main: u32) -> (r: bool)
    ensures
        r == spec_reaches_keyboard(window, main),
{
    match window {
        None => true,
        Some(id) => id == main,
    }
}

fn main_window_action(key: HotKey, zoom: DisplayMode) -> (a: FrontendAction)
    ensures
        a == main_window_key(key, zoom),
{
    match key {
        HotKey::F1 => FrontendAction::SetZoom(DisplayMode::Half),
        HotKey::F2 => FrontendAction::SetZoom(DisplayMode::Normal),
        HotKey::F3 => FrontendAction::SetZoom(DisplayMode::X2),
        HotKey::F4 => FrontendAction::SetZoom(zoom.toggled_fullscreen()),
        HotKey::F5 => FrontendAction::ToggleCrt,
        HotKey::F6 => FrontendAction::ToggleCrtPanel,
        HotKey::F7 => FrontendAction::ToggleKeyboardPanel,
        _ => FrontendAction::Nothing,
    }
}

impl Frontend {
    /// Both auxiliary windows hidden, as at start-up.
    pub fn new() -> (f: Frontend)
        ensures
            !f.console_visible,
            !f.status_visible,
    {
        Frontend { console_visible: false, status_visible: false }
    }

    /// Decides what `event` does, with the display at zoom level `zoom`.
    pub fn step(&mut self, ids: &WindowIds, event: &WindowEvent, zoom: DisplayMode) -> (a: FrontendAction)
        ensures
            (*final(self), a) == frontend_step(*old(self), *ids, *event, zoom),
    {
        match *event {
            WindowEvent::Quit => FrontendAction::Quit,
            WindowEvent::Close { window_id } => {
                if window_id == ids.main {
                    FrontendAction::Quit
                } else if window_id == ids.console {
                    self.console_visible = false;
                    FrontendAction::HideConsole
                } else if window_id == ids.status {
                    self.status_visible = false;
                    FrontendAction::HideStatus
                } else {
                    FrontendAction::Nothing
                }
            },
            WindowEvent::Resized { window_id } => {
                if window_id == ids.main {
                    FrontendAction::ResizeMain
                } else if window_id == ids.console {
                    FrontendAction::ResizeConsole
                } else if window_id == ids.status {
                    FrontendAction::ResizeStatus
                } else {
                    FrontendAction::Nothing
                }
            },
            WindowEvent::HotKeyDown { key, repeat, window_id } => {
                if repeat {
                    FrontendAction::Nothing
                } else {
                    match key {
                        HotKey::F11 => {
                            if window_id == ids.main || window_id == ids.console {
                                self.console_visible = !self.console_visible;
                                if self.console_visible {
                                    FrontendAction::ShowConsole
                                } else {
                                    FrontendAction::HideConsole
                                }
                            } else {
                                FrontendAction::Nothing
                            }
                        },
                        HotKey::F12 => {
                            if window_id == ids.main || window_id == ids.status {
                                self.status_visible = !self.status_visible;
                                if self.status_visible {
                                    FrontendAction::ShowStatus
                                } else {
                                    FrontendAction::HideStatus
                                }
                            } else {
                                FrontendAction::Nothing
                            }
                        },
                        _ => {
                            if window_id == ids.main {
                                main_window_action(key, zoom)
                            } else {
                                FrontendAction::Nothing
                            }
                        },
                    }
                }
            },
            WindowEvent::Other => FrontendAction::Nothing,
        }
    }
}

/// The frame-rate governor's period: 50 frames a second.
pub const FRAME_INTERVAL_NANOS: u64 = 20_000_000;

/// The governor at time `now` (nanoseconds on the host's monotonic clock)
/// with the next frame due at `next_frame`: how long to sleep, and when the
/// frame after is due. Ahead of time, it sleeps until the frame is due and
/// schedules the next one a period later; running behind, it does not try to
/// catch up but starts again from `now`.
pub open spec fn spec_frame_pacing(now: u64, next_frame: u64) -> (u64, u64) {
    if now < next_frame {
        ((next_frame - now) as u64, (next_frame + FRAME_INTERVAL_NANOS) as u64)
    } else {
        (0, now)
    }
}

/// The frame-rate governor (see `spec_frame_pacing`).
pub fn frame_pacing(now: u64, next_frame: u64) -> (r: (u64, u64))
    requires
        now < next_frame ==> next_frame + FRAME_INTERVAL_NANOS <= u64::MAX,
    ensures
        r == spec_frame_pacing(now, next_frame),
{
    if now < next_frame {
        (next_frame - now, next_frame + FRAME_INTERVAL_NANOS)
    } else {
        (0, now)
    }
}

/// Pressing F11 (or F12) twice in a row, neither press a typematic repeat,
/// from the main window leaves the frontend as it was, and the two presses
/// show then hide the window or hide then show it.
pub proof fn lemma_toggle_twice_restores(f: Frontend, ids: WindowIds, key: HotKey, zoom: DisplayMode)
    requires
        key == HotKey::F11 || key == HotKey::F12,
    ensures
        ({
            let e = WindowEvent::HotKeyDown { key, repeat: false, window_id: ids.main };
            let (f1, a1) = frontend_step(f, ids, e, zoom);
            let (f2, a2) = frontend_step(f1, ids, e, zoom);
            &&& f2 == f
            &&& f1 != f
            &&& (a1 == FrontendAction::ShowConsole <==> a2 == FrontendAction::HideConsole)
            &&& (a1 == FrontendAction::ShowStatus <==> a2 == FrontendAction::HideStatus)
        }),
{
}

/// A typematic repeat of a function key never does anything: the toggles are
/// one-shot.
pub proof fn lemma_repeat_does_nothing(f: Frontend, ids: WindowIds, key: HotKey, window_id: u32, zoom: DisplayMode)
    ensures
        frontend_step(f, ids, WindowEvent::HotKeyDown { key, repeat: true, window_id }, zoom)
            == (f, FrontendAction::Nothing),
{
}

/// The function keys other than F11 and F12 act from the main window only:
/// pressed in the console or status window (or any other), they do nothing.
pub proof fn lemma_main_window_keys_only_from_main(
    f: Frontend,
    ids: WindowIds,
    key: HotKey,
    repeat: bool,
    window_id: u32,
    zoom: DisplayMode,
)
    requires
        key != HotKey::F11,
        key != HotKey::F12,
        window_id != ids.main,
    ensures
        frontend_step(f, ids, WindowEvent::HotKeyDown { key, repeat, window_id }, zoom)
            == (f, FrontendAction::Nothing),
{
}

/// F4 toggles fullscreen: pressed twice, the zoom level it sets is back to
/// normal if the first press entered fullscreen.
pub proof fn lemma_f4_toggles_fullscreen(f: Frontend, ids: WindowIds, zoom: DisplayMode)
    ensures
        ({
            let e = WindowEvent::HotKeyDown { key: HotKey::F4, repeat: false, window_id: ids.main };
            let (f1, a1) = frontend_step(f, ids, e, zoom);
            &&& f1 == f
            &&& a1 == FrontendAction::SetZoom(
                if zoom == DisplayMode::Fullscreen { DisplayMode::Normal } else { DisplayMode::Fullscreen })
            &&& frontend_step(f1, ids, e, DisplayMode::Fullscreen).1
                == FrontendAction::SetZoom(DisplayMode::Normal)
        }),
{
}

/// The governor never schedules a frame in the past: the next frame is due
/// at `now` or later, and the sleep ends exactly when the current frame is due.
pub proof fn lemma_pacing_never_falls_behind(now: u64, next_frame: u64)
    requires
        now < next_frame ==> next_frame + FRAME_INTERVAL_NANOS <= u64::MAX,
    ensures
        ({
            let (sleep, next) = spec_frame_pacing(now, next_frame);
            &&& next >= now
            &&& (now < next_frame ==> now + sleep == next_frame && next == next_frame + FRAME_INTERVAL_NANOS)
            &&& (now >= next_frame ==> sleep == 0)
        }),
{
}

} // verus!
