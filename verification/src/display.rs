//! The display's zoom levels and the visibility of its two overlay panels
//! (the "Display" settings panel, F6, and the virtual keyboard, F7).

use vstd::prelude::*;
use crate::text::str_chars;
use crate::video::{SCREEN_HEIGHT, SCREEN_WIDTH};

verus! {

/// Display zoom level (F1-F4, or `default_zoom` in config.toml): half the
/// native size, native, twice native, or fullscreen.
#[derive(Clone, Copy, PartialEq, Eq, Debug, Structural)]
pub enum DisplayMode {
    Half,
    Normal,
    X2,
    Fullscreen,
}

/// Whether the characters `v` spell `t`.
fn chars_are(v: &Vec<char>, t: &str) -> (r: bool)
    ensures
        r == (v@ == t@),
{
    let w = str_chars(t);
    if v.len() != w.len() {
        return false;
    }
    let mut i: usize = 0;
    while i < v.len()
        invariant
            i <= v@.len(),
            v@.len() == w@.len(),
            w@ == t@,
            forall|j: int| 0 <= j < i ==> v@[j] == w@[j],
        decreases v@.len() - i,
    {
        if v[i] != w[i] {
            return false;
        }
        i += 1;
    }
    assert(v@ =~= w@);
    true
}

impl DisplayMode {
    /// The zoom level that a `default_zoom` value names.
    pub open spec fn spec_from_config(value: Option<Seq<char>>) -> DisplayMode {
        match value {
            Some(v) => if v == "half"@ {
                DisplayMode::Half
            } else if v == "x2"@ {
                DisplayMode::X2
            } else if v == "fullscreen"@ {
                DisplayMode::Fullscreen
            } else {
                DisplayMode::Normal
            },
            None => DisplayMode::Normal,
        }
    }

    /// The `default_zoom` value that names a zoom level.
    pub open spec fn spec_config_str(self) -> Seq<char> {
        match self {
            DisplayMode::Half => "half"@,
            DisplayMode::Normal => "normal"@,
            DisplayMode::X2 => "x2"@,
            DisplayMode::Fullscreen => "fullscreen"@,
        }
    }

    /// Reads `default_zoom`: an absent or unrecognized value silently
    /// falls back to `Normal`.
    pub fn from_config(value: Option<&str>) -> (m: DisplayMode)
        ensures
            m == Self::spec_from_config(match value { Some(v) => Some(v@), None => None }),
    {
        match value {
            Some(v) => {
                let cs = str_chars(v);
                if chars_are(&cs, "half") {
                    DisplayMode::Half
                } else if chars_are(&cs, "x2") {
                    DisplayMode::X2
                } else if chars_are(&cs, "fullscreen") {
                    DisplayMode::Fullscreen
                } else {
                    DisplayMode::Normal
                }
            },
            None => DisplayMode::Normal,
        }
    }

    /// The `default_zoom` value for this zoom level.
    pub fn as_config_str(self) -> (s: &'static str)
        ensures
            s@ == self.spec_config_str(),
    {
        match self {
            DisplayMode::Half => "half",
            DisplayMode::Normal => "normal",
            DisplayMode::X2 => "x2",
            DisplayMode::Fullscreen => "fullscreen",
        }
    }

    /// The zoom level F4 switches to: out of fullscreen back to normal,
    /// from anything else into fullscreen.
    pub fn toggled_fullscreen(self) -> (m: DisplayMode)
        ensures
            m == (if self == DisplayMode::Fullscreen { DisplayMode::Normal } else { DisplayMode::Fullscreen }),
    {
        if self == DisplayMode::Fullscreen { DisplayMode::Normal } else { DisplayMode::Fullscreen }
    }

    /// The main window's size at this zoom level: half, once or twice the
    /// emulated screen's, centered on the desktop; `None` in fullscreen,
    /// where the window takes the desktop's size.
    pub fn window_size(self) -> (r: Option<(u32, u32)>)
        ensures
            r == (match self {
                DisplayMode::Half => Some(((SCREEN_WIDTH / 2) as u32, (SCREEN_HEIGHT / 2) as u32)),
                DisplayMode::Normal => Some((SCREEN_WIDTH as u32, SCREEN_HEIGHT as u32)),
                DisplayMode::X2 => Some(((SCREEN_WIDTH * 2) as u32, (SCREEN_HEIGHT * 2) as u32)),
                DisplayMode::Fullscreen => None,
            }),
    {
        let w = SCREEN_WIDTH as u32;
        let h = SCREEN_HEIGHT as u32;
        match self {
            DisplayMode::Half => Some((w / 2, h / 2)),
            DisplayMode::Normal => Some((w, h)),
            DisplayMode::X2 => Some((w * 2, h * 2)),
            DisplayMode::Fullscreen => None,
        }
    }
}

/// Reading back the value written for a zoom level gives that zoom level.
pub proof fn lemma_zoom_config_round_trip(m: DisplayMode)
    ensures
        DisplayMode::spec_from_config(Some(m.spec_config_str())) == m,
{
    broadcast use vstd::string::group_string_axioms;
    reveal_strlit("half");
    reveal_strlit("normal");
    reveal_strlit("x2");
    reveal_strlit("fullscreen");
    assert("normal"@.len() == 6 && "half"@.len() == 4 && "x2"@.len() == 2 && "fullscreen"@.len() == 10);
}

/// Which overlay panels are shown, and the generation of each: it changes
/// whenever a panel opens or the window is resized while it is open, so the
/// panel's window is laid out afresh.
pub struct Panels {
    pub crt_panel_visible: bool,
    pub crt_panel_generation: u64,
    pub keyboard_panel_visible: bool,
    pub keyboard_panel_generation: u64,
}

/// The panels after F6.
pub open spec fn crt_toggled(p: Panels) -> Panels {
    Panels {
        crt_panel_visible: !p.crt_panel_visible,
        crt_panel_generation: if !p.crt_panel_visible { (p.crt_panel_generation + 1) as u64 } else {
            p.crt_panel_generation },
        ..p
    }
}

/// The panels after F7.
pub open spec fn keyboard_toggled(p: Panels) -> Panels {
    Panels {
        keyboard_panel_visible: !p.keyboard_panel_visible,
        keyboard_panel_generation: if !p.keyboard_panel_visible { (p.keyboard_panel_generation + 1) as u64 }
            else { p.keyboard_panel_generation },
        ..p
    }
}

/// The panels after the window was resized.
pub open spec fn resized(p: Panels) -> Panels {
    Panels {
        crt_panel_generation: if p.crt_panel_visible { (p.crt_panel_generation + 1) as u64 } else {
            p.crt_panel_generation },
        keyboard_panel_generation: if p.keyboard_panel_visible { (p.keyboard_panel_generation + 1) as u64 }
            else { p.keyboard_panel_generation },
        ..p
    }
}

impl Panels {
    /// Both panels hidden, generations at 0.
    pub fn new() -> (p: Panels)
        ensures
            !p.crt_panel_visible,
            !p.keyboard_panel_visible,
            p.crt_panel_generation == 0,
            p.keyboard_panel_generation == 0,
    {
        Panels {
            crt_panel_visible: false,
            crt_panel_generation: 0,
            keyboard_panel_visible: false,
            keyboard_panel_generation: 0,
        }
    }

    /// F6: shows or hides the display panel; opening it starts a new
    /// generation.
    pub fn toggle_crt_panel(&mut self)
        requires
            old(self).crt_panel_generation < u64::MAX,
        ensures
            *final(self) == crt_toggled(*old(self)),
    {
        self.crt_panel_visible = !self.crt_panel_visible;
        if self.crt_panel_visible {
            self.crt_panel_generation += 1;
        }
    }

    /// F7: shows or hides the virtual keyboard; opening it starts a new
    /// generation.
    pub fn toggle_keyboard_panel(&mut self)
        requires
            old(self).keyboard_panel_generation < u64::MAX,
        ensures
            *final(self) == keyboard_toggled(*old(self)),
    {
        self.keyboard_panel_visible = !self.keyboard_panel_visible;
        if self.keyboard_panel_visible {
            self.keyboard_panel_generation += 1;
        }
    }

    /// The window was resized: every open panel starts a new generation.
    pub fn resize(&mut self)
        requires
            old(self).crt_panel_generation < u64::MAX,
            old(self).keyboard_panel_generation < u64::MAX,
        ensures
            *final(self) == resized(*old(self)),
    {
        if self.crt_panel_visible {
            self.crt_panel_generation += 1;
        }
        if self.keyboard_panel_visible {
            self.keyboard_panel_generation += 1;
        }
    }
}

/// Pressing F6 (or F7) twice shows the panels as they were, and the toggled
/// panel has started exactly one new generation (the time it opened).
pub proof fn lemma_toggle_twice(p: Panels)
    requires
        p.crt_panel_generation < u64::MAX,
        p.keyboard_panel_generation < u64::MAX,
    ensures
        crt_toggled(crt_toggled(p)).crt_panel_visible == p.crt_panel_visible,
        crt_toggled(crt_toggled(p)).keyboard_panel_visible == p.keyboard_panel_visible,
        crt_toggled(crt_toggled(p)).crt_panel_generation == p.crt_panel_generation + 1,
        keyboard_toggled(keyboard_toggled(p)).keyboard_panel_visible == p.keyboard_panel_visible,
        keyboard_toggled(keyboard_toggled(p)).crt_panel_visible == p.crt_panel_visible,
        keyboard_toggled(keyboard_toggled(p)).keyboard_panel_generation == p.keyboard_panel_generation + 1,
{
}

/// A resize changes no panel's visibility, and moves only the open panels
/// to a new generation.
pub proof fn lemma_resize_keeps_visibility(p: Panels)
    requires
        p.crt_panel_generation < u64::MAX,
        p.keyboard_panel_generation < u64::MAX,
    ensures
        resized(p).crt_panel_visible == p.crt_panel_visible,
        resized(p).keyboard_panel_visible == p.keyboard_panel_visible,
        (resized(p).crt_panel_generation != p.crt_panel_generation) == p.crt_panel_visible,
        (resized(p).keyboard_panel_generation != p.keyboard_panel_generation) == p.keyboard_panel_visible,
{
}

} // verus!
