//! The virtual keyboard (F7): a clickable zone per key on the picture of
//! the TRS-80 keyboard, each sending a `Keycode` to the emulated keyboard.
//!
//! SHIFT here is a one-shot latch: clicking it makes the next click on a
//! two-legend key send its shifted character, and any click on another key
//! releases it (one mouse cannot hold SHIFT and click a key at once).

use vstd::prelude::*;
use crate::keys::Keycode;

verus! {

/// The width of the keyboard picture, in pixels.
pub const IMAGE_WIDTH: u16 = 2046;
/// The height of the keyboard picture, in pixels.
pub const IMAGE_HEIGHT: u16 = 768;
/// How many clickable keys the picture has.
pub const KEY_COUNT: usize = 65;

/// What a virtual key does when clicked.
#[derive(Clone, Copy, Debug, PartialEq, Eq, Structural)]
pub enum Target {
    /// One legend: always the same key.
    Fixed(Keycode),
    /// Two legends on one keycap: the first unshifted, the second with
    /// SHIFT latched.
    Shiftable(Keycode, Keycode),
    /// SHIFT itself: flips the latch, sends nothing.
    Shift,
}

/// A key's zone on the picture, in picture pixels (both edges included).
#[derive(Clone, Copy, Debug, PartialEq, Eq, Structural)]
pub struct KeyRect {
    pub min_x: u16,
    pub min_y: u16,
    pub max_x: u16,
    pub max_y: u16,
}

impl KeyRect {
    /// Whether two zones share a point, edges included (what
    /// `emath::Rect::intersects` computes).
    pub open spec fn spec_intersects(self, other: KeyRect) -> bool {
        self.min_x <= other.max_x && other.min_x <= self.max_x
            && self.min_y <= other.max_y && other.min_y <= self.max_y
    }

    /// Whether two zones share a point, edges included.
    pub fn intersects(&self, other: &KeyRect) -> (r: bool)
        ensures
            r == self.spec_intersects(*other),
    {
        self.min_x <= other.max_x && other.min_x <= self.max_x
            && self.min_y <= other.max_y && other.min_y <= self.max_y
    }
}

/// A clickable key of the picture.
#[derive(Clone, Copy, Debug, PartialEq, Eq, Structural)]
pub struct VirtualKey {
    pub rect: KeyRect,
    pub target: Target,
}

/// The `i`-th key of the picture, as measured on it.
#[verifier::opaque]
pub open spec fn key_spec(i: int) -> VirtualKey {
    if i == 0 {
        VirtualKey { rect: KeyRect { min_x: 173, min_y: 160, max_x: 255, max_y: 245 }, target: Target::Shiftable(Keycode::Num1, Keycode::Exclaim) }
    } else if i == 1 {
        VirtualKey { rect: KeyRect { min_x: 272, min_y: 160, max_x: 354, max_y: 245 }, target: Target::Shiftable(Keycode::Num2, Keycode::Quotedbl) }
    } else if i == 2 {
        VirtualKey { rect: KeyRect { min_x: 371, min_y: 160, max_x: 453, max_y: 245 }, target: Target::Shiftable(Keycode::Num3, Keycode::Hash) }
    } else if i == 3 {
        VirtualKey { rect: KeyRect { min_x: 470, min_y: 160, max_x: 552, max_y: 245 }, target: Target::Shiftable(Keycode::Num4, Keycode::Dollar) }
    } else if i == 4 {
        VirtualKey { rect: KeyRect { min_x: 569, min_y: 160, max_x: 651, max_y: 245 }, target: Target::Shiftable(Keycode::Num5, Keycode::Percent) }
    } else if i == 5 {
        VirtualKey { rect: KeyRect { min_x: 668, min_y: 160, max_x: 750, max_y: 245 }, target: Target::Shiftable(Keycode::Num6, Keycode::Ampersand) }
    } else if i == 6 {
        VirtualKey { rect: KeyRect { min_x: 767, min_y: 160, max_x: 849, max_y: 245 }, target: Target::Shiftable(Keycode::Num7, Keycode::Quote) }
    } else if i == 7 {
        VirtualKey { rect: KeyRect { min_x: 866, min_y: 160, max_x: 948, max_y: 245 }, target: Target::Shiftable(Keycode::Num8, Keycode::LeftParen) }
    } else if i == 8 {
        VirtualKey { rect: KeyRect { min_x: 965, min_y: 160, max_x: 1047, max_y: 245 }, target: Target::Shiftable(Keycode::Num9, Keycode::RightParen) }
    } else if i == 9 {
        VirtualKey { rect: KeyRect { min_x: 1064, min_y: 160, max_x: 1146, max_y: 245 }, target: Target::Fixed(Keycode::Num0) }
    } else if i == 10 {
        VirtualKey { rect: KeyRect { min_x: 1163, min_y: 160, max_x: 1245, max_y: 245 }, target: Target::Shiftable(Keycode::Colon, Keycode::Asterisk) }
    } else if i == 11 {
        VirtualKey { rect: KeyRect { min_x: 1262, min_y: 160, max_x: 1344, max_y: 245 }, target: Target::Shiftable(Keycode::Minus, Keycode::Equals) }
    } else if i == 12 {
        VirtualKey { rect: KeyRect { min_x: 1360, min_y: 160, max_x: 1450, max_y: 245 }, target: Target::Fixed(Keycode::Break) }
    } else if i == 13 {
        VirtualKey { rect: KeyRect { min_x: 138, min_y: 250, max_x: 211, max_y: 345 }, target: Target::Fixed(Keycode::Up) }
    } else if i == 14 {
        VirtualKey { rect: KeyRect { min_x: 236, min_y: 250, max_x: 309, max_y: 345 }, target: Target::Fixed(Keycode::Q) }
    } else if i == 15 {
        VirtualKey { rect: KeyRect { min_x: 333, min_y: 250, max_x: 405, max_y: 345 }, target: Target::Fixed(Keycode::W) }
    } else if i == 16 {
        VirtualKey { rect: KeyRect { min_x: 431, min_y: 250, max_x: 502, max_y: 345 }, target: Target::Fixed(Keycode::E) }
    } else if i == 17 {
        VirtualKey { rect: KeyRect { min_x: 529, min_y: 250, max_x: 601, max_y: 345 }, target: Target::Fixed(Keycode::R) }
    } else if i == 18 {
        VirtualKey { rect: KeyRect { min_x: 628, min_y: 250, max_x: 698, max_y: 345 }, target: Target::Fixed(Keycode::T) }
    } else if i == 19 {
        VirtualKey { rect: KeyRect { min_x: 725, min_y: 250, max_x: 797, max_y: 345 }, target: Target::Fixed(Keycode::Y) }
    } else if i == 20 {
        VirtualKey { rect: KeyRect { min_x: 823, min_y: 250, max_x: 894, max_y: 345 }, target: Target::Fixed(Keycode::U) }
    } else if i == 21 {
        VirtualKey { rect: KeyRect { min_x: 922, min_y: 250, max_x: 993, max_y: 345 }, target: Target::Fixed(Keycode::I) }
    } else if i == 22 {
        VirtualKey { rect: KeyRect { min_x: 1021, min_y: 250, max_x: 1092, max_y: 345 }, target: Target::Fixed(Keycode::O) }
    } else if i == 23 {
        VirtualKey { rect: KeyRect { min_x: 1120, min_y: 250, max_x: 1191, max_y: 345 }, target: Target::Fixed(Keycode::P) }
    } else if i == 24 {
        VirtualKey { rect: KeyRect { min_x: 1220, min_y: 250, max_x: 1290, max_y: 345 }, target: Target::Fixed(Keycode::At) }
    } else if i == 25 {
        VirtualKey { rect: KeyRect { min_x: 1319, min_y: 250, max_x: 1389, max_y: 345 }, target: Target::Fixed(Keycode::Backspace) }
    } else if i == 26 {
        VirtualKey { rect: KeyRect { min_x: 1420, min_y: 250, max_x: 1498, max_y: 345 }, target: Target::Fixed(Keycode::Right) }
    } else if i == 27 {
        VirtualKey { rect: KeyRect { min_x: 162, min_y: 352, max_x: 240, max_y: 452 }, target: Target::Fixed(Keycode::Down) }
    } else if i == 28 {
        VirtualKey { rect: KeyRect { min_x: 263, min_y: 352, max_x: 337, max_y: 452 }, target: Target::Fixed(Keycode::A) }
    } else if i == 29 {
        VirtualKey { rect: KeyRect { min_x: 364, min_y: 352, max_x: 436, max_y: 452 }, target: Target::Fixed(Keycode::S) }
    } else if i == 30 {
        VirtualKey { rect: KeyRect { min_x: 461, min_y: 352, max_x: 533, max_y: 452 }, target: Target::Fixed(Keycode::D) }
    } else if i == 31 {
        VirtualKey { rect: KeyRect { min_x: 559, min_y: 352, max_x: 632, max_y: 452 }, target: Target::Fixed(Keycode::F) }
    } else if i == 32 {
        VirtualKey { rect: KeyRect { min_x: 658, min_y: 352, max_x: 731, max_y: 452 }, target: Target::Fixed(Keycode::G) }
    } else if i == 33 {
        VirtualKey { rect: KeyRect { min_x: 759, min_y: 352, max_x: 829, max_y: 452 }, target: Target::Fixed(Keycode::H) }
    } else if i == 34 {
        VirtualKey { rect: KeyRect { min_x: 856, min_y: 352, max_x: 927, max_y: 452 }, target: Target::Fixed(Keycode::J) }
    } else if i == 35 {
        VirtualKey { rect: KeyRect { min_x: 954, min_y: 352, max_x: 1026, max_y: 452 }, target: Target::Fixed(Keycode::K) }
    } else if i == 36 {
        VirtualKey { rect: KeyRect { min_x: 1054, min_y: 352, max_x: 1125, max_y: 452 }, target: Target::Fixed(Keycode::L) }
    } else if i == 37 {
        VirtualKey { rect: KeyRect { min_x: 1154, min_y: 352, max_x: 1225, max_y: 452 }, target: Target::Shiftable(Keycode::Semicolon, Keycode::Plus) }
    } else if i == 38 {
        VirtualKey { rect: KeyRect { min_x: 1245, min_y: 352, max_x: 1431, max_y: 452 }, target: Target::Fixed(Keycode::Return) }
    } else if i == 39 {
        VirtualKey { rect: KeyRect { min_x: 1450, min_y: 352, max_x: 1540, max_y: 452 }, target: Target::Fixed(Keycode::Clear) }
    } else if i == 40 {
        VirtualKey { rect: KeyRect { min_x: 162, min_y: 460, max_x: 290, max_y: 548 }, target: Target::Shift }
    } else if i == 41 {
        VirtualKey { rect: KeyRect { min_x: 320, min_y: 460, max_x: 390, max_y: 548 }, target: Target::Fixed(Keycode::Z) }
    } else if i == 42 {
        VirtualKey { rect: KeyRect { min_x: 421, min_y: 460, max_x: 489, max_y: 548 }, target: Target::Fixed(Keycode::X) }
    } else if i == 43 {
        VirtualKey { rect: KeyRect { min_x: 515, min_y: 460, max_x: 587, max_y: 548 }, target: Target::Fixed(Keycode::C) }
    } else if i == 44 {
        VirtualKey { rect: KeyRect { min_x: 612, min_y: 460, max_x: 685, max_y: 548 }, target: Target::Fixed(Keycode::V) }
    } else if i == 45 {
        VirtualKey { rect: KeyRect { min_x: 711, min_y: 460, max_x: 780, max_y: 548 }, target: Target::Fixed(Keycode::B) }
    } else if i == 46 {
        VirtualKey { rect: KeyRect { min_x: 810, min_y: 460, max_x: 881, max_y: 548 }, target: Target::Fixed(Keycode::N) }
    } else if i == 47 {
        VirtualKey { rect: KeyRect { min_x: 908, min_y: 460, max_x: 979, max_y: 548 }, target: Target::Fixed(Keycode::M) }
    } else if i == 48 {
        VirtualKey { rect: KeyRect { min_x: 1006, min_y: 460, max_x: 1078, max_y: 548 }, target: Target::Shiftable(Keycode::Comma, Keycode::Less) }
    } else if i == 49 {
        VirtualKey { rect: KeyRect { min_x: 1104, min_y: 460, max_x: 1177, max_y: 548 }, target: Target::Shiftable(Keycode::Period, Keycode::Greater) }
    } else if i == 50 {
        VirtualKey { rect: KeyRect { min_x: 1203, min_y: 460, max_x: 1276, max_y: 548 }, target: Target::Shiftable(Keycode::Slash, Keycode::Question) }
    } else if i == 51 {
        VirtualKey { rect: KeyRect { min_x: 1307, min_y: 460, max_x: 1426, max_y: 548 }, target: Target::Shift }
    } else if i == 52 {
        VirtualKey { rect: KeyRect { min_x: 420, min_y: 550, max_x: 1160, max_y: 628 }, target: Target::Fixed(Keycode::Space) }
    } else if i == 53 {
        VirtualKey { rect: KeyRect { min_x: 1625, min_y: 193, max_x: 1705, max_y: 293 }, target: Target::Fixed(Keycode::Kp7) }
    } else if i == 54 {
        VirtualKey { rect: KeyRect { min_x: 1725, min_y: 193, max_x: 1805, max_y: 293 }, target: Target::Fixed(Keycode::Kp8) }
    } else if i == 55 {
        VirtualKey { rect: KeyRect { min_x: 1825, min_y: 193, max_x: 1905, max_y: 293 }, target: Target::Fixed(Keycode::Kp9) }
    } else if i == 56 {
        VirtualKey { rect: KeyRect { min_x: 1625, min_y: 303, max_x: 1705, max_y: 393 }, target: Target::Fixed(Keycode::Kp4) }
    } else if i == 57 {
        VirtualKey { rect: KeyRect { min_x: 1725, min_y: 303, max_x: 1805, max_y: 393 }, target: Target::Fixed(Keycode::Kp5) }
    } else if i == 58 {
        VirtualKey { rect: KeyRect { min_x: 1825, min_y: 303, max_x: 1905, max_y: 393 }, target: Target::Fixed(Keycode::Kp6) }
    } else if i == 59 {
        VirtualKey { rect: KeyRect { min_x: 1625, min_y: 403, max_x: 1705, max_y: 493 }, target: Target::Fixed(Keycode::Kp1) }
    } else if i == 60 {
        VirtualKey { rect: KeyRect { min_x: 1725, min_y: 403, max_x: 1805, max_y: 493 }, target: Target::Fixed(Keycode::Kp2) }
    } else if i == 61 {
        VirtualKey { rect: KeyRect { min_x: 1825, min_y: 403, max_x: 1905, max_y: 493 }, target: Target::Fixed(Keycode::Kp3) }
    } else if i == 62 {
        VirtualKey { rect: KeyRect { min_x: 1625, min_y: 503, max_x: 1705, max_y: 593 }, target: Target::Fixed(Keycode::Kp0) }
    } else if i == 63 {
        VirtualKey { rect: KeyRect { min_x: 1725, min_y: 503, max_x: 1805, max_y: 593 }, target: Target::Fixed(Keycode::KpPeriod) }
    } else if i == 64 {
        VirtualKey { rect: KeyRect { min_x: 1830, min_y: 503, max_x: 1910, max_y: 590 }, target: Target::Fixed(Keycode::KpEnter) }
    } else {
        VirtualKey { rect: KeyRect { min_x: 0, min_y: 0, max_x: 0, max_y: 0 }, target: Target::Shift }
    }
}

/// The `i`-th key of the picture.
pub fn key(i: usize) -> (k: VirtualKey)
    requires
        i < KEY_COUNT,
    ensures
        k == key_spec(i as int),
{
    reveal(key_spec);
    match i {
        0 => VirtualKey { rect: KeyRect { min_x: 173, min_y: 160, max_x: 255, max_y: 245 }, target: Target::Shiftable(Keycode::Num1, Keycode::Exclaim) },
        1 => VirtualKey { rect: KeyRect { min_x: 272, min_y: 160, max_x: 354, max_y: 245 }, target: Target::Shiftable(Keycode::Num2, Keycode::Quotedbl) },
        2 => VirtualKey { rect: KeyRect { min_x: 371, min_y: 160, max_x: 453, max_y: 245 }, target: Target::Shiftable(Keycode::Num3, Keycode::Hash) },
        3 => VirtualKey { rect: KeyRect { min_x: 470, min_y: 160, max_x: 552, max_y: 245 }, target: Target::Shiftable(Keycode::Num4, Keycode::Dollar) },
        4 => VirtualKey { rect: KeyRect { min_x: 569, min_y: 160, max_x: 651, max_y: 245 }, target: Target::Shiftable(Keycode::Num5, Keycode::Percent) },
        5 => VirtualKey { rect: KeyRect { min_x: 668, min_y: 160, max_x: 750, max_y: 245 }, target: Target::Shiftable(Keycode::Num6, Keycode::Ampersand) },
        6 => VirtualKey { rect: KeyRect { min_x: 767, min_y: 160, max_x: 849, max_y: 245 }, target: Target::Shiftable(Keycode::Num7, Keycode::Quote) },
        7 => VirtualKey { rect: KeyRect { min_x: 866, min_y: 160, max_x: 948, max_y: 245 }, target: Target::Shiftable(Keycode::Num8, Keycode::LeftParen) },
        8 => VirtualKey { rect: KeyRect { min_x: 965, min_y: 160, max_x: 1047, max_y: 245 }, target: Target::Shiftable(Keycode::Num9, Keycode::RightParen) },
        9 => VirtualKey { rect: KeyRect { min_x: 1064, min_y: 160, max_x: 1146, max_y: 245 }, target: Target::Fixed(Keycode::Num0) },
        10 => VirtualKey { rect: KeyRect { min_x: 1163, min_y: 160, max_x: 1245, max_y: 245 }, target: Target::Shiftable(Keycode::Colon, Keycode::Asterisk) },
        11 => VirtualKey { rect: KeyRect { min_x: 1262, min_y: 160, max_x: 1344, max_y: 245 }, target: Target::Shiftable(Keycode::Minus, Keycode::Equals) },
        12 => VirtualKey { rect: KeyRect { min_x: 1360, min_y: 160, max_x: 1450, max_y: 245 }, target: Target::Fixed(Keycode::Break) },
        13 => VirtualKey { rect: KeyRect { min_x: 138, min_y: 250, max_x: 211, max_y: 345 }, target: Target::Fixed(Keycode::Up) },
        14 => VirtualKey { rect: KeyRect { min_x: 236, min_y: 250, max_x: 309, max_y: 345 }, target: Target::Fixed(Keycode::Q) },
        15 => VirtualKey { rect: KeyRect { min_x: 333, min_y: 250, max_x: 405, max_y: 345 }, target: Target::Fixed(Keycode::W) },
        16 => VirtualKey { rect: KeyRect { min_x: 431, min_y: 250, max_x: 502, max_y: 345 }, target: Target::Fixed(Keycode::E) },
        17 => VirtualKey { rect: KeyRect { min_x: 529, min_y: 250, max_x: 601, max_y: 345 }, target: Target::Fixed(Keycode::R) },
        18 => VirtualKey { rect: KeyRect { min_x: 628, min_y: 250, max_x: 698, max_y: 345 }, target: Target::Fixed(Keycode::T) },
        19 => VirtualKey { rect: KeyRect { min_x: 725, min_y: 250, max_x: 797, max_y: 345 }, target: Target::Fixed(Keycode::Y) },
        20 => VirtualKey { rect: KeyRect { min_x: 823, min_y: 250, max_x: 894, max_y: 345 }, target: Target::Fixed(Keycode::U) },
        21 => VirtualKey { rect: KeyRect { min_x: 922, min_y: 250, max_x: 993, max_y: 345 }, target: Target::Fixed(Keycode::I) },
        22 => VirtualKey { rect: KeyRect { min_x: 1021, min_y: 250, max_x: 1092, max_y: 345 }, target: Target::Fixed(Keycode::O) },
        23 => VirtualKey { rect: KeyRect { min_x: 1120, min_y: 250, max_x: 1191, max_y: 345 }, target: Target::Fixed(Keycode::P) },
        24 => VirtualKey { rect: KeyRect { min_x: 1220, min_y: 250, max_x: 1290, max_y: 345 }, target: Target::Fixed(Keycode::At) },
        25 => VirtualKey { rect: KeyRect { min_x: 1319, min_y: 250, max_x: 1389, max_y: 345 }, target: Target::Fixed(Keycode::Backspace) },
        26 => VirtualKey { rect: KeyRect { min_x: 1420, min_y: 250, max_x: 1498, max_y: 345 }, target: Target::Fixed(Keycode::Right) },
        27 => VirtualKey { rect: KeyRect { min_x: 162, min_y: 352, max_x: 240, max_y: 452 }, target: Target::Fixed(Keycode::Down) },
        28 => VirtualKey { rect: KeyRect { min_x: 263, min_y: 352, max_x: 337, max_y: 452 }, target: Target::Fixed(Keycode::A) },
        29 => VirtualKey { rect: KeyRect { min_x: 364, min_y: 352, max_x: 436, max_y: 452 }, target: Target::Fixed(Keycode::S) },
        30 => VirtualKey { rect: KeyRect { min_x: 461, min_y: 352, max_x: 533, max_y: 452 }, target: Target::Fixed(Keycode::D) },
        31 => VirtualKey { rect: KeyRect { min_x: 559, min_y: 352, max_x: 632, max_y: 452 }, target: Target::Fixed(Keycode::F) },
        32 => VirtualKey { rect: KeyRect { min_x: 658, min_y: 352, max_x: 731, max_y: 452 }, target: Target::Fixed(Keycode::G) },
        33 => VirtualKey { rect: KeyRect { min_x: 759, min_y: 352, max_x: 829, max_y: 452 }, target: Target::Fixed(Keycode::H) },
        34 => VirtualKey { rect: KeyRect { min_x: 856, min_y: 352, max_x: 927, max_y: 452 }, target: Target::Fixed(Keycode::J) },
        35 => VirtualKey { rect: KeyRect { min_x: 954, min_y: 352, max_x: 1026, max_y: 452 }, target: Target::Fixed(Keycode::K) },
        36 => VirtualKey { rect: KeyRect { min_x: 1054, min_y: 352, max_x: 1125, max_y: 452 }, target: Target::Fixed(Keycode::L) },
        37 => VirtualKey { rect: KeyRect { min_x: 1154, min_y: 352, max_x: 1225, max_y: 452 }, target: Target::Shiftable(Keycode::Semicolon, Keycode::Plus) },
        38 => VirtualKey { rect: KeyRect { min_x: 1245, min_y: 352, max_x: 1431, max_y: 452 }, target: Target::Fixed(Keycode::Return) },
        39 => VirtualKey { rect: KeyRect { min_x: 1450, min_y: 352, max_x: 1540, max_y: 452 }, target: Target::Fixed(Keycode::Clear) },
        40 => VirtualKey { rect: KeyRect { min_x: 162, min_y: 460, max_x: 290, max_y: 548 }, target: Target::Shift },
        41 => VirtualKey { rect: KeyRect { min_x: 320, min_y: 460, max_x: 390, max_y: 548 }, target: Target::Fixed(Keycode::Z) },
        42 => VirtualKey { rect: KeyRect { min_x: 421, min_y: 460, max_x: 489, max_y: 548 }, target: Target::Fixed(Keycode::X) },
        43 => VirtualKey { rect: KeyRect { min_x: 515, min_y: 460, max_x: 587, max_y: 548 }, target: Target::Fixed(Keycode::C) },
        44 => VirtualKey { rect: KeyRect { min_x: 612, min_y: 460, max_x: 685, max_y: 548 }, target: Target::Fixed(Keycode::V) },
        45 => VirtualKey { rect: KeyRect { min_x: 711, min_y: 460, max_x: 780, max_y: 548 }, target: Target::Fixed(Keycode::B) },
        46 => VirtualKey { rect: KeyRect { min_x: 810, min_y: 460, max_x: 881, max_y: 548 }, target: Target::Fixed(Keycode::N) },
        47 => VirtualKey { rect: KeyRect { min_x: 908, min_y: 460, max_x: 979, max_y: 548 }, target: Target::Fixed(Keycode::M) },
        48 => VirtualKey { rect: KeyRect { min_x: 1006, min_y: 460, max_x: 1078, max_y: 548 }, target: Target::Shiftable(Keycode::Comma, Keycode::Less) },
        49 => VirtualKey { rect: KeyRect { min_x: 1104, min_y: 460, max_x: 1177, max_y: 548 }, target: Target::Shiftable(Keycode::Period, Keycode::Greater) },
        50 => VirtualKey { rect: KeyRect { min_x: 1203, min_y: 460, max_x: 1276, max_y: 548 }, target: Target::Shiftable(Keycode::Slash, Keycode::Question) },
        51 => VirtualKey { rect: KeyRect { min_x: 1307, min_y: 460, max_x: 1426, max_y: 548 }, target: Target::Shift },
        52 => VirtualKey { rect: KeyRect { min_x: 420, min_y: 550, max_x: 1160, max_y: 628 }, target: Target::Fixed(Keycode::Space) },
        53 => VirtualKey { rect: KeyRect { min_x: 1625, min_y: 193, max_x: 1705, max_y: 293 }, target: Target::Fixed(Keycode::Kp7) },
        54 => VirtualKey { rect: KeyRect { min_x: 1725, min_y: 193, max_x: 1805, max_y: 293 }, target: Target::Fixed(Keycode::Kp8) },
        55 => VirtualKey { rect: KeyRect { min_x: 1825, min_y: 193, max_x: 1905, max_y: 293 }, target: Target::Fixed(Keycode::Kp9) },
        56 => VirtualKey { rect: KeyRect { min_x: 1625, min_y: 303, max_x: 1705, max_y: 393 }, target: Target::Fixed(Keycode::Kp4) },
        57 => VirtualKey { rect: KeyRect { min_x: 1725, min_y: 303, max_x: 1805, max_y: 393 }, target: Target::Fixed(Keycode::Kp5) },
        58 => VirtualKey { rect: KeyRect { min_x: 1825, min_y: 303, max_x: 1905, max_y: 393 }, target: Target::Fixed(Keycode::Kp6) },
        59 => VirtualKey { rect: KeyRect { min_x: 1625, min_y: 403, max_x: 1705, max_y: 493 }, target: Target::Fixed(Keycode::Kp1) },
        60 => VirtualKey { rect: KeyRect { min_x: 1725, min_y: 403, max_x: 1805, max_y: 493 }, target: Target::Fixed(Keycode::Kp2) },
        61 => VirtualKey { rect: KeyRect { min_x: 1825, min_y: 403, max_x: 1905, max_y: 493 }, target: Target::Fixed(Keycode::Kp3) },
        62 => VirtualKey { rect: KeyRect { min_x: 1625, min_y: 503, max_x: 1705, max_y: 593 }, target: Target::Fixed(Keycode::Kp0) },
        63 => VirtualKey { rect: KeyRect { min_x: 1725, min_y: 503, max_x: 1805, max_y: 593 }, target: Target::Fixed(Keycode::KpPeriod) },
        64 => VirtualKey { rect: KeyRect { min_x: 1830, min_y: 503, max_x: 1910, max_y: 590 }, target: Target::Fixed(Keycode::KpEnter) },
        _ => VirtualKey { rect: KeyRect { min_x: 0, min_y: 0, max_x: 0, max_y: 0 }, target: Target::Shift },
    }
}

/// Every key of the picture, in table order.
pub fn keys() -> (v: Vec<VirtualKey>)
    ensures
        v@.len() == KEY_COUNT,
        forall|i: int| 0 <= i < KEY_COUNT ==> v@[i] == key_spec(i),
{
    let mut v: Vec<VirtualKey> = Vec::new();
    let mut i: usize = 0;
    while i < KEY_COUNT
        invariant
            i <= KEY_COUNT,
            v@.len() == i,
            forall|j: int| 0 <= j < i ==> v@[j] == key_spec(j),
        decreases KEY_COUNT - i,
    {
        v.push(key(i));
        i += 1;
    }
    v
}

/// No key's zone reaches past the picture, and every zone has a positive
/// area.
pub proof fn lemma_keys_within_picture()
    ensures
        forall|i: int| #![trigger key_spec(i)] 0 <= i < KEY_COUNT ==> {
            let r = key_spec(i).rect;
            &&& r.max_x <= IMAGE_WIDTH
            &&& r.max_y <= IMAGE_HEIGHT
            &&& r.min_x < r.max_x
            &&& r.min_y < r.max_y
        },
{
    reveal(key_spec);
}

proof fn lemma_disjoint_from_0()
    ensures
        forall|i: int, j: int| #![trigger key_spec(i), key_spec(j)] 0 <= i <= 7 && i < j < KEY_COUNT ==>
            !key_spec(i).rect.spec_intersects(key_spec(j).rect),
{
    reveal(key_spec);
    assert forall|j: int| 0 < j < KEY_COUNT implies !key_spec(0).rect.spec_intersects(#[trigger] key_spec(j).rect) by {}
    assert forall|j: int| 1 < j < KEY_COUNT implies !key_spec(1).rect.spec_intersects(#[trigger] key_spec(j).rect) by {}
    assert forall|j: int| 2 < j < KEY_COUNT implies !key_spec(2).rect.spec_intersects(#[trigger] key_spec(j).rect) by {}
    assert forall|j: int| 3 < j < KEY_COUNT implies !key_spec(3).rect.spec_intersects(#[trigger] key_spec(j).rect) by {}
    assert forall|j: int| 4 < j < KEY_COUNT implies !key_spec(4).rect.spec_intersects(#[trigger] key_spec(j).rect) by {}
    assert forall|j: int| 5 < j < KEY_COUNT implies !key_spec(5).rect.spec_intersects(#[trigger] key_spec(j).rect) by {}
    assert forall|j: int| 6 < j < KEY_COUNT implies !key_spec(6).rect.spec_intersects(#[trigger] key_spec(j).rect) by {}
    assert forall|j: int| 7 < j < KEY_COUNT implies !key_spec(7).rect.spec_intersects(#[trigger] key_spec(j).rect) by {}
    assert forall|i: int, j: int| #![trigger key_spec(i), key_spec(j)] 0 <= i <= 7 && i < j < KEY_COUNT implies
        !key_spec(i).rect.spec_intersects(key_spec(j).rect) by {
        if i == 0 { assert(!key_spec(0).rect.spec_intersects(key_spec(j).rect)); }
        if i == 1 { assert(!key_spec(1).rect.spec_intersects(key_spec(j).rect)); }
        if i == 2 { assert(!key_spec(2).rect.spec_intersects(key_spec(j).rect)); }
        if i == 3 { assert(!key_spec(3).rect.spec_intersects(key_spec(j).rect)); }
        if i == 4 { assert(!key_spec(4).rect.spec_intersects(key_spec(j).rect)); }
        if i == 5 { assert(!key_spec(5).rect.spec_intersects(key_spec(j).rect)); }
        if i == 6 { assert(!key_spec(6).rect.spec_intersects(key_spec(j).rect)); }
        if i == 7 { assert(!key_spec(7).rect.spec_intersects(key_spec(j).rect)); }
    }
}

proof fn lemma_disjoint_from_1()
    ensures
        forall|i: int, j: int| #![trigger key_spec(i), key_spec(j)] 8 <= i <= 15 && i < j < KEY_COUNT ==>
            !key_spec(i).rect.spec_intersects(key_spec(j).rect),
{
    reveal(key_spec);
    assert forall|j: int| 8 < j < KEY_COUNT implies !key_spec(8).rect.spec_intersects(#[trigger] key_spec(j).rect) by {}
    assert forall|j: int| 9 < j < KEY_COUNT implies !key_spec(9).rect.spec_intersects(#[trigger] key_spec(j).rect) by {}
    assert forall|j: int| 10 < j < KEY_COUNT implies !key_spec(10).rect.spec_intersects(#[trigger] key_spec(j).rect) by {}
    assert forall|j: int| 11 < j < KEY_COUNT implies !key_spec(11).rect.spec_intersects(#[trigger] key_spec(j).rect) by {}
    assert forall|j: int| 12 < j < KEY_COUNT implies !key_spec(12).rect.spec_intersects(#[trigger] key_spec(j).rect) by {}
    assert forall|j: int| 13 < j < KEY_COUNT implies !key_spec(13).rect.spec_intersects(#[trigger] key_spec(j).rect) by {}
    assert forall|j: int| 14 < j < KEY_COUNT implies !key_spec(14).rect.spec_intersects(#[trigger] key_spec(j).rect) by {}
    assert forall|j: int| 15 < j < KEY_COUNT implies !key_spec(15).rect.spec_intersects(#[trigger] key_spec(j).rect) by {}
    assert forall|i: int, j: int| #![trigger key_spec(i), key_spec(j)] 8 <= i <= 15 && i < j < KEY_COUNT implies
        !key_spec(i).rect.spec_intersects(key_spec(j).rect) by {
        if i == 8 { assert(!key_spec(8).rect.spec_intersects(key_spec(j).rect)); }
        if i == 9 { assert(!key_spec(9).rect.spec_intersects(key_spec(j).rect)); }
        if i == 10 { assert(!key_spec(10).rect.spec_intersects(key_spec(j).rect)); }
        if i == 11 { assert(!key_spec(11).rect.spec_intersects(key_spec(j).rect)); }
        if i == 12 { assert(!key_spec(12).rect.spec_intersects(key_spec(j).rect)); }
        if i == 13 { assert(!key_spec(13).rect.spec_intersects(key_spec(j).rect)); }
        if i == 14 { assert(!key_spec(14).rect.spec_intersects(key_spec(j).rect)); }
        if i == 15 { assert(!key_spec(15).rect.spec_intersects(key_spec(j).rect)); }
    }
}

proof fn lemma_disjoint_from_2()
    ensures
        forall|i: int, j: int| #![trigger key_spec(i), key_spec(j)] 16 <= i <= 23 && i < j < KEY_COUNT ==>
            !key_spec(i).rect.spec_intersects(key_spec(j).rect),
{
    reveal(key_spec);
    assert forall|j: int| 16 < j < KEY_COUNT implies !key_spec(16).rect.spec_intersects(#[trigger] key_spec(j).rect) by {}
    assert forall|j: int| 17 < j < KEY_COUNT implies !key_spec(17).rect.spec_intersects(#[trigger] key_spec(j).rect) by {}
    assert forall|j: int| 18 < j < KEY_COUNT implies !key_spec(18).rect.spec_intersects(#[trigger] key_spec(j).rect) by {}
    assert forall|j: int| 19 < j < KEY_COUNT implies !key_spec(19).rect.spec_intersects(#[trigger] key_spec(j).rect) by {}
    assert forall|j: int| 20 < j < KEY_COUNT implies !key_spec(20).rect.spec_intersects(#[trigger] key_spec(j).rect) by {}
    assert forall|j: int| 21 < j < KEY_COUNT implies !key_spec(21).rect.spec_intersects(#[trigger] key_spec(j).rect) by {}
    assert forall|j: int| 22 < j < KEY_COUNT implies !key_spec(22).rect.spec_intersects(#[trigger] key_spec(j).rect) by {}
    assert forall|j: int| 23 < j < KEY_COUNT implies !key_spec(23).rect.spec_intersects(#[trigger] key_spec(j).rect) by {}
    assert forall|i: int, j: int| #![trigger key_spec(i), key_spec(j)] 16 <= i <= 23 && i < j < KEY_COUNT implies
        !key_spec(i).rect.spec_intersects(key_spec(j).rect) by {
        if i == 16 { assert(!key_spec(16).rect.spec_intersects(key_spec(j).rect)); }
        if i == 17 { assert(!key_spec(17).rect.spec_intersects(key_spec(j).rect)); }
        if i == 18 { assert(!key_spec(18).rect.spec_intersects(key_spec(j).rect)); }
        if i == 19 { assert(!key_spec(19).rect.spec_intersects(key_spec(j).rect)); }
        if i == 20 { assert(!key_spec(20).rect.spec_intersects(key_spec(j).rect)); }
        if i == 21 { assert(!key_spec(21).rect.spec_intersects(key_spec(j).rect)); }
        if i == 22 { assert(!key_spec(22).rect.spec_intersects(key_spec(j).rect)); }
        if i == 23 { assert(!key_spec(23).rect.spec_intersects(key_spec(j).rect)); }
    }
}

proof fn lemma_disjoint_from_3()
    ensures
        forall|i: int, j: int| #![trigger key_spec(i), key_spec(j)] 24 <= i <= 31 && i < j < KEY_COUNT ==>
            !key_spec(i).rect.spec_intersects(key_spec(j).rect),
{
    reveal(key_spec);
    assert forall|j: int| 24 < j < KEY_COUNT implies !key_spec(24).rect.spec_intersects(#[trigger] key_spec(j).rect) by {}
    assert forall|j: int| 25 < j < KEY_COUNT implies !key_spec(25).rect.spec_intersects(#[trigger] key_spec(j).rect) by {}
    assert forall|j: int| 26 < j < KEY_COUNT implies !key_spec(26).rect.spec_intersects(#[trigger] key_spec(j).rect) by {}
    assert forall|j: int| 27 < j < KEY_COUNT implies !key_spec(27).rect.spec_intersects(#[trigger] key_spec(j).rect) by {}
    assert forall|j: int| 28 < j < KEY_COUNT implies !key_spec(28).rect.spec_intersects(#[trigger] key_spec(j).rect) by {}
    assert forall|j: int| 29 < j < KEY_COUNT implies !key_spec(29).rect.spec_intersects(#[trigger] key_spec(j).rect) by {}
    assert forall|j: int| 30 < j < KEY_COUNT implies !key_spec(30).rect.spec_intersects(#[trigger] key_spec(j).rect) by {}
    assert forall|j: int| 31 < j < KEY_COUNT implies !key_spec(31).rect.spec_intersects(#[trigger] key_spec(j).rect) by {}
    assert forall|i: int, j: int| #![trigger key_spec(i), key_spec(j)] 24 <= i <= 31 && i < j < KEY_COUNT implies
        !key_spec(i).rect.spec_intersects(key_spec(j).rect) by {
        if i == 24 { assert(!key_spec(24).rect.spec_intersects(key_spec(j).rect)); }
        if i == 25 { assert(!key_spec(25).rect.spec_intersects(key_spec(j).rect)); }
        if i == 26 { assert(!key_spec(26).rect.spec_intersects(key_spec(j).rect)); }
        if i == 27 { assert(!key_spec(27).rect.spec_intersects(key_spec(j).rect)); }
        if i == 28 { assert(!key_spec(28).rect.spec_intersects(key_spec(j).rect)); }
        if i == 29 { assert(!key_spec(29).rect.spec_intersects(key_spec(j).rect)); }
        if i == 30 { assert(!key_spec(30).rect.spec_intersects(key_spec(j).rect)); }
        if i == 31 { assert(!key_spec(31).rect.spec_intersects(key_spec(j).rect)); }
    }
}

proof fn lemma_disjoint_from_4()
    ensures
        forall|i: int, j: int| #![trigger key_spec(i), key_spec(j)] 32 <= i <= 39 && i < j < KEY_COUNT ==>
            !key_spec(i).rect.spec_intersects(key_spec(j).rect),
{
    reveal(key_spec);
    assert forall|j: int| 32 < j < KEY_COUNT implies !key_spec(32).rect.spec_intersects(#[trigger] key_spec(j).rect) by {}
    assert forall|j: int| 33 < j < KEY_COUNT implies !key_spec(33).rect.spec_intersects(#[trigger] key_spec(j).rect) by {}
    assert forall|j: int| 34 < j < KEY_COUNT implies !key_spec(34).rect.spec_intersects(#[trigger] key_spec(j).rect) by {}
    assert forall|j: int| 35 < j < KEY_COUNT implies !key_spec(35).rect.spec_intersects(#[trigger] key_spec(j).rect) by {}
    assert forall|j: int| 36 < j < KEY_COUNT implies !key_spec(36).rect.spec_intersects(#[trigger] key_spec(j).rect) by {}
    assert forall|j: int| 37 < j < KEY_COUNT implies !key_spec(37).rect.spec_intersects(#[trigger] key_spec(j).rect) by {}
    assert forall|j: int| 38 < j < KEY_COUNT implies !key_spec(38).rect.spec_intersects(#[trigger] key_spec(j).rect) by {}
    assert forall|j: int| 39 < j < KEY_COUNT implies !key_spec(39).rect.spec_intersects(#[trigger] key_spec(j).rect) by {}
    assert forall|i: int, j: int| #![trigger key_spec(i), key_spec(j)] 32 <= i <= 39 && i < j < KEY_COUNT implies
        !key_spec(i).rect.spec_intersects(key_spec(j).rect) by {
        if i == 32 { assert(!key_spec(32).rect.spec_intersects(key_spec(j).rect)); }
        if i == 33 { assert(!key_spec(33).rect.spec_intersects(key_spec(j).rect)); }
        if i == 34 { assert(!key_spec(34).rect.spec_intersects(key_spec(j).rect)); }
        if i == 35 { assert(!key_spec(35).rect.spec_intersects(key_spec(j).rect)); }
        if i == 36 { assert(!key_spec(36).rect.spec_intersects(key_spec(j).rect)); }
        if i == 37 { assert(!key_spec(37).rect.spec_intersects(key_spec(j).rect)); }
        if i == 38 { assert(!key_spec(38).rect.spec_intersects(key_spec(j).rect)); }
        if i == 39 { assert(!key_spec(39).rect.spec_intersects(key_spec(j).rect)); }
    }
}

proof fn lemma_disjoint_from_5()
    ensures
        forall|i: int, j: int| #![trigger key_spec(i), key_spec(j)] 40 <= i <= 47 && i < j < KEY_COUNT ==>
            !key_spec(i).rect.spec_intersects(key_spec(j).rect),
{
    reveal(key_spec);
    assert forall|j: int| 40 < j < KEY_COUNT implies !key_spec(40).rect.spec_intersects(#[trigger] key_spec(j).rect) by {}
    assert forall|j: int| 41 < j < KEY_COUNT implies !key_spec(41).rect.spec_intersects(#[trigger] key_spec(j).rect) by {}
    assert forall|j: int| 42 < j < KEY_COUNT implies !key_spec(42).rect.spec_intersects(#[trigger] key_spec(j).rect) by {}
    assert forall|j: int| 43 < j < KEY_COUNT implies !key_spec(43).rect.spec_intersects(#[trigger] key_spec(j).rect) by {}
    assert forall|j: int| 44 < j < KEY_COUNT implies !key_spec(44).rect.spec_intersects(#[trigger] key_spec(j).rect) by {}
    assert forall|j: int| 45 < j < KEY_COUNT implies !key_spec(45).rect.spec_intersects(#[trigger] key_spec(j).rect) by {}
    assert forall|j: int| 46 < j < KEY_COUNT implies !key_spec(46).rect.spec_intersects(#[trigger] key_spec(j).rect) by {}
    assert forall|j: int| 47 < j < KEY_COUNT implies !key_spec(47).rect.spec_intersects(#[trigger] key_spec(j).rect) by {}
    assert forall|i: int, j: int| #![trigger key_spec(i), key_spec(j)] 40 <= i <= 47 && i < j < KEY_COUNT implies
        !key_spec(i).rect.spec_intersects(key_spec(j).rect) by {
        if i == 40 { assert(!key_spec(40).rect.spec_intersects(key_spec(j).rect)); }
        if i == 41 { assert(!key_spec(41).rect.spec_intersects(key_spec(j).rect)); }
        if i == 42 { assert(!key_spec(42).rect.spec_intersects(key_spec(j).rect)); }
        if i == 43 { assert(!key_spec(43).rect.spec_intersects(key_spec(j).rect)); }
        if i == 44 { assert(!key_spec(44).rect.spec_intersects(key_spec(j).rect)); }
        if i == 45 { assert(!key_spec(45).rect.spec_intersects(key_spec(j).rect)); }
        if i == 46 { assert(!key_spec(46).rect.spec_intersects(key_spec(j).rect)); }
        if i == 47 { assert(!key_spec(47).rect.spec_intersects(key_spec(j).rect)); }
    }
}

proof fn lemma_disjoint_from_6()
    ensures
        forall|i: int, j: int| #![trigger key_spec(i), key_spec(j)] 48 <= i <= 55 && i < j < KEY_COUNT ==>
            !key_spec(i).rect.spec_intersects(key_spec(j).rect),
{
    reveal(key_spec);
    assert forall|j: int| 48 < j < KEY_COUNT implies !key_spec(48).rect.spec_intersects(#[trigger] key_spec(j).rect) by {}
    assert forall|j: int| 49 < j < KEY_COUNT implies !key_spec(49).rect.spec_intersects(#[trigger] key_spec(j).rect) by {}
    assert forall|j: int| 50 < j < KEY_COUNT implies !key_spec(50).rect.spec_intersects(#[trigger] key_spec(j).rect) by {}
    assert forall|j: int| 51 < j < KEY_COUNT implies !key_spec(51).rect.spec_intersects(#[trigger] key_spec(j).rect) by {}
    assert forall|j: int| 52 < j < KEY_COUNT implies !key_spec(52).rect.spec_intersects(#[trigger] key_spec(j).rect) by {}
    assert forall|j: int| 53 < j < KEY_COUNT implies !key_spec(53).rect.spec_intersects(#[trigger] key_spec(j).rect) by {}
    assert forall|j: int| 54 < j < KEY_COUNT implies !key_spec(54).rect.spec_intersects(#[trigger] key_spec(j).rect) by {}
    assert forall|j: int| 55 < j < KEY_COUNT implies !key_spec(55).rect.spec_intersects(#[trigger] key_spec(j).rect) by {}
    assert forall|i: int, j: int| #![trigger key_spec(i), key_spec(j)] 48 <= i <= 55 && i < j < KEY_COUNT implies
        !key_spec(i).rect.spec_intersects(key_spec(j).rect) by {
        if i == 48 { assert(!key_spec(48).rect.spec_intersects(key_spec(j).rect)); }
        if i == 49 { assert(!key_spec(49).rect.spec_intersects(key_spec(j).rect)); }
        if i == 50 { assert(!key_spec(50).rect.spec_intersects(key_spec(j).rect)); }
        if i == 51 { assert(!key_spec(51).rect.spec_intersects(key_spec(j).rect)); }
        if i == 52 { assert(!key_spec(52).rect.spec_intersects(key_spec(j).rect)); }
        if i == 53 { assert(!key_spec(53).rect.spec_intersects(key_spec(j).rect)); }
        if i == 54 { assert(!key_spec(54).rect.spec_intersects(key_spec(j).rect)); }
        if i == 55 { assert(!key_spec(55).rect.spec_intersects(key_spec(j).rect)); }
    }
}

proof fn lemma_disjoint_from_7()
    ensures
        forall|i: int, j: int| #![trigger key_spec(i), key_spec(j)] 56 <= i <= 63 && i < j < KEY_COUNT ==>
            !key_spec(i).rect.spec_intersects(key_spec(j).rect),
{
    reveal(key_spec);
    assert forall|j: int| 56 < j < KEY_COUNT implies !key_spec(56).rect.spec_intersects(#[trigger] key_spec(j).rect) by {}
    assert forall|j: int| 57 < j < KEY_COUNT implies !key_spec(57).rect.spec_intersects(#[trigger] key_spec(j).rect) by {}
    assert forall|j: int| 58 < j < KEY_COUNT implies !key_spec(58).rect.spec_intersects(#[trigger] key_spec(j).rect) by {}
    assert forall|j: int| 59 < j < KEY_COUNT implies !key_spec(59).rect.spec_intersects(#[trigger] key_spec(j).rect) by {}
    assert forall|j: int| 60 < j < KEY_COUNT implies !key_spec(60).rect.spec_intersects(#[trigger] key_spec(j).rect) by {}
    assert forall|j: int| 61 < j < KEY_COUNT implies !key_spec(61).rect.spec_intersects(#[trigger] key_spec(j).rect) by {}
    assert forall|j: int| 62 < j < KEY_COUNT implies !key_spec(62).rect.spec_intersects(#[trigger] key_spec(j).rect) by {}
    assert forall|j: int| 63 < j < KEY_COUNT implies !key_spec(63).rect.spec_intersects(#[trigger] key_spec(j).rect) by {}
    assert forall|i: int, j: int| #![trigger key_spec(i), key_spec(j)] 56 <= i <= 63 && i < j < KEY_COUNT implies
        !key_spec(i).rect.spec_intersects(key_spec(j).rect) by {
        if i == 56 { assert(!key_spec(56).rect.spec_intersects(key_spec(j).rect)); }
        if i == 57 { assert(!key_spec(57).rect.spec_intersects(key_spec(j).rect)); }
        if i == 58 { assert(!key_spec(58).rect.spec_intersects(key_spec(j).rect)); }
        if i == 59 { assert(!key_spec(59).rect.spec_intersects(key_spec(j).rect)); }
        if i == 60 { assert(!key_spec(60).rect.spec_intersects(key_spec(j).rect)); }
        if i == 61 { assert(!key_spec(61).rect.spec_intersects(key_spec(j).rect)); }
        if i == 62 { assert(!key_spec(62).rect.spec_intersects(key_spec(j).rect)); }
        if i == 63 { assert(!key_spec(63).rect.spec_intersects(key_spec(j).rect)); }
    }
}

/// No two keys' zones share a point, so a click always lands on one key
/// at most.
pub proof fn lemma_keys_never_overlap()
    ensures
        forall|i: int, j: int| #![trigger key_spec(i), key_spec(j)] 0 <= i < j < KEY_COUNT ==>
            !key_spec(i).rect.spec_intersects(key_spec(j).rect),
{
    lemma_disjoint_from_0();
    lemma_disjoint_from_1();
    lemma_disjoint_from_2();
    lemma_disjoint_from_3();
    lemma_disjoint_from_4();
    lemma_disjoint_from_5();
    lemma_disjoint_from_6();
    lemma_disjoint_from_7();
}

/// The key a click on a zone sends, SHIFT being latched or not.
pub open spec fn resolve(target: Target, shift_latched: bool) -> Option<Keycode> {
    match target {
        Target::Fixed(k) => Some(k),
        Target::Shiftable(unshifted, shifted) => Some(if shift_latched { shifted } else { unshifted }),
        Target::Shift => None,
    }
}

/// How the pointer was on a key's zone this frame.
#[derive(Clone, Copy, Debug, PartialEq, Eq, Structural)]
pub struct KeyInput {
    /// The pointer button is down on the zone.
    pub held: bool,
    /// The zone was clicked (pressed and released on it).
    pub clicked: bool,
}

/// The latch after the SHIFT zones among the first `n` inputs were
/// clicked: each click flips it.
pub open spec fn latch_after_shift_clicks(inputs: Seq<KeyInput>, latched: bool, n: nat) -> bool
    decreases n,
{
    if n == 0 {
        latched
    } else {
        let k = (n - 1) as nat;
        let before = latch_after_shift_clicks(inputs, latched, k);
        if key_spec(k as int).target == Target::Shift && inputs[k as int].clicked { !before } else { before }
    }
}

/// Whether a key other than SHIFT was clicked among the first `n` inputs.
pub open spec fn other_key_clicked(inputs: Seq<KeyInput>, n: nat) -> bool {
    exists|i: int| 0 <= i < n && key_spec(i).target != Target::Shift && #[trigger] inputs[i].clicked
}

/// The SHIFT latch of the virtual keyboard.
pub struct KeyboardPanel {
    shift_latched: bool,
}

impl KeyboardPanel {
    /// Whether SHIFT is latched.
    pub closed spec fn latched(self) -> bool {
        self.shift_latched
    }

    /// SHIFT not latched.
    pub fn new() -> (p: Self)
        ensures
            !p.latched(),
    {
        KeyboardPanel { shift_latched: false }
    }

    /// Whether SHIFT is latched.
    pub fn shift_latched(&self) -> (r: bool)
        ensures
            r == self.latched(),
    {
        self.shift_latched
    }

    /// One frame of the panel, given how the pointer was on each key's zone
    /// (in table order). Returns the keys held this frame, each once: a held
    /// two-legend key sends its shifted character when SHIFT was latched at
    /// the start of the frame. Each click on SHIFT flips the latch; a click
    /// on any other key releases it.
    pub fn frame(&mut self, inputs: &[KeyInput]) -> (active: Vec<Keycode>)
        requires
            inputs@.len() == KEY_COUNT,
        ensures
            active@.no_duplicates(),
            forall|k: Keycode| active@.contains(k) <==> exists|i: int|
                0 <= i < KEY_COUNT && #[trigger] inputs@[i].held
                    && resolve(key_spec(i).target, old(self).latched()) == Some(k),
            final(self).latched() == if other_key_clicked(inputs@, KEY_COUNT as nat) { false } else {
                latch_after_shift_clicks(inputs@, old(self).latched(), KEY_COUNT as nat) },
    {
        let shift_latched = self.shift_latched;
        let mut release_shift = false;
        let mut active: Vec<Keycode> = Vec::new();
        let mut i: usize = 0;
        while i < KEY_COUNT
            invariant
                i <= KEY_COUNT,
                inputs@.len() == KEY_COUNT,
                shift_latched == old(self).latched(),
                active@.no_duplicates(),
                forall|k: Keycode| active@.contains(k) <==> exists|j: int|
                    0 <= j < i && #[trigger] inputs@[j].held
                        && resolve(key_spec(j).target, shift_latched) == Some(k),
                self.shift_latched == latch_after_shift_clicks(inputs@, shift_latched, i as nat),
                release_shift == other_key_clicked(inputs@, i as nat),
            decreases KEY_COUNT - i,
        {
            let vk = key(i);
            let input = inputs[i];
            let ghost before = active@;
            let sent: Option<Keycode> = match vk.target {
                Target::Shift => {
                    if input.clicked {
                        self.shift_latched = !self.shift_latched;
                    }
                    None
                },
                Target::Fixed(kc) => {
                    if input.clicked {
                        release_shift = true;
                    }
                    Some(kc)
                },
                Target::Shiftable(unshifted, shifted) => {
                    if input.clicked {
                        release_shift = true;
                    }
                    Some(if shift_latched { shifted } else { unshifted })
                },
            };
            assert(sent == resolve(key_spec(i as int).target, shift_latched));
            if input.held {
                match sent {
                    Some(kc) => {
                        if !contains_key(&active, kc) {
                            active.push(kc);
                        }
                    },
                    None => {},
                }
            }
            proof {
                assert forall|k: Keycode| active@.contains(k) <==> exists|j: int|
                    0 <= j < i + 1 && #[trigger] inputs@[j].held
                        && resolve(key_spec(j).target, shift_latched) == Some(k) by {
                    if active@.contains(k) && !before.contains(k) {
                        assert(active@.last() == k);
                        assert(inputs@[i as int].held);
                    }
                    if active@.contains(k) && before.contains(k) {
                        let j = choose|j: int| 0 <= j < i && #[trigger] inputs@[j].held
                            && resolve(key_spec(j).target, shift_latched) == Some(k);
                    }
                    if exists|j: int| 0 <= j < i + 1 && #[trigger] inputs@[j].held
                        && resolve(key_spec(j).target, shift_latched) == Some(k) {
                        let j = choose|j: int| 0 <= j < i + 1 && #[trigger] inputs@[j].held
                            && resolve(key_spec(j).target, shift_latched) == Some(k);
                        if j < i {
                            assert(before.contains(k));
                            let m = choose|m: int| 0 <= m < before.len() && before[m] == k;
                            assert(active@[m] == k);
                        } else {
                            assert(sent == Some(k));
                            if before.contains(k) {
                                let m = choose|m: int| 0 <= m < before.len() && before[m] == k;
                                assert(active@[m] == k);
                            } else {
                                assert(active@[active@.len() - 1] == k);
                            }
                        }
                    }
                }
                if other_key_clicked(inputs@, (i + 1) as nat) && !other_key_clicked(inputs@, i as nat) {
                    let j = choose|j: int| 0 <= j < i + 1 && key_spec(j).target != Target::Shift
                        && #[trigger] inputs@[j].clicked;
                    assert(j == i);
                }
                if other_key_clicked(inputs@, i as nat) {
                    let j = choose|j: int| 0 <= j < i && key_spec(j).target != Target::Shift
                        && #[trigger] inputs@[j].clicked;
                    assert(other_key_clicked(inputs@, (i + 1) as nat));
                }
                if key_spec(i as int).target != Target::Shift && inputs@[i as int].clicked {
                    assert(other_key_clicked(inputs@, (i + 1) as nat));
                }
            }
            i += 1;
        }
        if release_shift {
            self.shift_latched = false;
        }
        active
    }
}

fn contains_key(v: &Vec<Keycode>, k: Keycode) -> (r: bool)
    ensures
        r == v@.contains(k),
{
    let mut i: usize = 0;
    while i < v.len()
        invariant
            i <= v@.len(),
            forall|j: int| 0 <= j < i ==> v@[j] != k,
        decreases v@.len() - i,
    {
        if v[i] == k {
            return true;
        }
        i += 1;
    }
    false
}

/// The zone that sends `k`, for a key some zone sends (-1 otherwise).
spec fn zone_sending(k: Keycode) -> int {
    match k {
        Keycode::Num1 => 0,
        Keycode::Exclaim => 0,
        Keycode::Num2 => 1,
        Keycode::Quotedbl => 1,
        Keycode::Num3 => 2,
        Keycode::Hash => 2,
        Keycode::Num4 => 3,
        Keycode::Dollar => 3,
        Keycode::Num5 => 4,
        Keycode::Percent => 4,
        Keycode::Num6 => 5,
        Keycode::Ampersand => 5,
        Keycode::Num7 => 6,
        Keycode::Quote => 6,
        Keycode::Num8 => 7,
        Keycode::LeftParen => 7,
        Keycode::Num9 => 8,
        Keycode::RightParen => 8,
        Keycode::Num0 => 9,
        Keycode::Colon => 10,
        Keycode::Asterisk => 10,
        Keycode::Minus => 11,
        Keycode::Equals => 11,
        Keycode::Break => 12,
        Keycode::Up => 13,
        Keycode::Q => 14,
        Keycode::W => 15,
        Keycode::E => 16,
        Keycode::R => 17,
        Keycode::T => 18,
        Keycode::Y => 19,
        Keycode::U => 20,
        Keycode::I => 21,
        Keycode::O => 22,
        Keycode::P => 23,
        Keycode::At => 24,
        Keycode::Backspace => 25,
        Keycode::Right => 26,
        Keycode::Down => 27,
        Keycode::A => 28,
        Keycode::S => 29,
        Keycode::D => 30,
        Keycode::F => 31,
        Keycode::G => 32,
        Keycode::H => 33,
        Keycode::J => 34,
        Keycode::K => 35,
        Keycode::L => 36,
        Keycode::Semicolon => 37,
        Keycode::Plus => 37,
        Keycode::Return => 38,
        Keycode::Clear => 39,
        Keycode::Z => 41,
        Keycode::X => 42,
        Keycode::C => 43,
        Keycode::V => 44,
        Keycode::B => 45,
        Keycode::N => 46,
        Keycode::M => 47,
        Keycode::Comma => 48,
        Keycode::Less => 48,
        Keycode::Period => 49,
        Keycode::Greater => 49,
        Keycode::Slash => 50,
        Keycode::Question => 50,
        Keycode::Space => 52,
        Keycode::Kp7 => 53,
        Keycode::Kp8 => 54,
        Keycode::Kp9 => 55,
        Keycode::Kp4 => 56,
        Keycode::Kp5 => 57,
        Keycode::Kp6 => 58,
        Keycode::Kp1 => 59,
        Keycode::Kp2 => 60,
        Keycode::Kp3 => 61,
        Keycode::Kp0 => 62,
        Keycode::KpPeriod => 63,
        Keycode::KpEnter => 64,
        _ => -1,
    }
}

proof fn lemma_zone_sending(i: int, shift_latched: bool)
    requires
        0 <= i < KEY_COUNT,
    ensures
        resolve(key_spec(i).target, shift_latched) matches Some(k) ==> zone_sending(k) == i,
{
    reveal(key_spec);
}

/// No key is sent by two zones: whatever the SHIFT latch, two zones that send
/// the same key are the same zone. So no keycap stands in for another.
pub proof fn lemma_each_key_sent_by_one_zone(i: int, j: int, latch_i: bool, latch_j: bool)
    requires
        0 <= i < KEY_COUNT,
        0 <= j < KEY_COUNT,
        resolve(key_spec(i).target, latch_i) is Some,
        resolve(key_spec(i).target, latch_i) == resolve(key_spec(j).target, latch_j),
    ensures
        i == j,
{
    lemma_zone_sending(i, latch_i);
    lemma_zone_sending(j, latch_j);
}

/// Every letter has a keycap of its own, which always sends it.
pub proof fn lemma_every_letter_has_a_key(c: char)
    requires
        'A' <= c <= 'Z',
    ensures
        exists|i: int| 0 <= i < KEY_COUNT
            && #[trigger] key_spec(i).target == Target::Fixed(crate::host_keyboard::char_key(c).unwrap()),
{
    reveal(key_spec);
    let k = crate::host_keyboard::char_key(c).unwrap();
    let i = zone_sending(k);
    assert(0 <= i < KEY_COUNT && key_spec(i).target == Target::Fixed(k));
}

} // verus!
