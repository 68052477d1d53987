//! The TRS-80 Model I keyboard matrix, as the ROM scans it: 8 memory-mapped
//! rows (0x3801, 0x3802, 0x3804, ... 0x3880), one bit per key in each.

use vstd::prelude::*;
use crate::bus::{TrsBus, written};
use crate::keys::Keycode;

verus! {

/// The row that holds SHIFT (its only meaningful bit on the Model I).
pub const SHIFT_ADDR: u16 = 0x3880;
/// SHIFT's bit in its row.
pub const SHIFT_BIT: u8 = 0x01;
/// Some ROM routines poll this address to check all the columns at once.
pub const ALL_COLUMNS_ADDR: u16 = 0x387f;
/// How long Backspace is held before it starts repeating, in milliseconds.
pub const BACKSPACE_REPEAT_DELAY_MS: u64 = 500;
/// The period of Backspace's repeat, in milliseconds: asserted for the first
/// half of each period, released for the second.
pub const BACKSPACE_REPEAT_INTERVAL_MS: u64 = 80;

/// The matrix position that types the same character as `k`: the row's
/// address, the key's bit in it, and whether the TRS-80's own SHIFT must be
/// held for that character. `None` for keys the matrix has no use for,
/// among them the host's SHIFT keys: two characters often share a matrix
/// cell, and which of them is typed is told by the resolved key alone (its
/// own SHIFT flag), never by a SHIFT bit asserted beside it.
pub open spec fn spec_key_target(k: Keycode) -> Option<(u16, u8, bool)> {
    match k {
        Keycode::At | Keycode::KpAt => Some((0x3801, 0x01, false)),
        Keycode::A => Some((0x3801, 0x02, false)),
        Keycode::B => Some((0x3801, 0x04, false)),
        Keycode::C => Some((0x3801, 0x08, false)),
        Keycode::D => Some((0x3801, 0x10, false)),
        Keycode::E => Some((0x3801, 0x20, false)),
        Keycode::F => Some((0x3801, 0x40, false)),
        Keycode::G => Some((0x3801, 0x80, false)),
        Keycode::H => Some((0x3802, 0x01, false)),
        Keycode::I => Some((0x3802, 0x02, false)),
        Keycode::J => Some((0x3802, 0x04, false)),
        Keycode::K => Some((0x3802, 0x08, false)),
        Keycode::L => Some((0x3802, 0x10, false)),
        Keycode::M => Some((0x3802, 0x20, false)),
        Keycode::N => Some((0x3802, 0x40, false)),
        Keycode::O => Some((0x3802, 0x80, false)),
        Keycode::P => Some((0x3804, 0x01, false)),
        Keycode::Q => Some((0x3804, 0x02, false)),
        Keycode::R => Some((0x3804, 0x04, false)),
        Keycode::S => Some((0x3804, 0x08, false)),
        Keycode::T => Some((0x3804, 0x10, false)),
        Keycode::U => Some((0x3804, 0x20, false)),
        Keycode::V => Some((0x3804, 0x40, false)),
        Keycode::W => Some((0x3804, 0x80, false)),
        Keycode::X => Some((0x3808, 0x01, false)),
        Keycode::Y => Some((0x3808, 0x02, false)),
        Keycode::Z => Some((0x3808, 0x04, false)),
        Keycode::Num0 | Keycode::Kp0 => Some((0x3810, 0x01, false)),
        Keycode::Num1 | Keycode::Kp1 => Some((0x3810, 0x02, false)),
        Keycode::Exclaim => Some((0x3810, 0x02, true)),
        Keycode::Num2 | Keycode::Kp2 => Some((0x3810, 0x04, false)),
        Keycode::Quotedbl => Some((0x3810, 0x04, true)),
        Keycode::Num3 | Keycode::Kp3 => Some((0x3810, 0x08, false)),
        Keycode::Hash => Some((0x3810, 0x08, true)),
        Keycode::Num4 | Keycode::Kp4 => Some((0x3810, 0x10, false)),
        Keycode::Dollar => Some((0x3810, 0x10, true)),
        Keycode::Num5 | Keycode::Kp5 => Some((0x3810, 0x20, false)),
        Keycode::Percent | Keycode::KpPercent => Some((0x3810, 0x20, true)),
        Keycode::Num6 | Keycode::Kp6 => Some((0x3810, 0x40, false)),
        Keycode::Ampersand | Keycode::KpAmpersand => Some((0x3810, 0x40, true)),
        Keycode::Num7 | Keycode::Kp7 => Some((0x3810, 0x80, false)),
        Keycode::Quote => Some((0x3810, 0x80, true)),
        Keycode::Num8 | Keycode::Kp8 => Some((0x3820, 0x01, false)),
        Keycode::LeftParen | Keycode::KpLeftParen => Some((0x3820, 0x01, true)),
        Keycode::Num9 | Keycode::Kp9 => Some((0x3820, 0x02, false)),
        Keycode::RightParen | Keycode::KpRightParen => Some((0x3820, 0x02, true)),
        Keycode::Colon | Keycode::KpColon => Some((0x3820, 0x04, false)),
        Keycode::Asterisk | Keycode::KpMultiply => Some((0x3820, 0x04, true)),
        Keycode::Semicolon => Some((0x3820, 0x08, false)),
        Keycode::Plus | Keycode::KpPlus => Some((0x3820, 0x08, true)),
        Keycode::Comma | Keycode::KpComma => Some((0x3820, 0x10, false)),
        Keycode::Less | Keycode::KpLess => Some((0x3820, 0x10, true)),
        Keycode::Minus | Keycode::KpMinus => Some((0x3820, 0x20, false)),
        Keycode::Equals | Keycode::KpEquals => Some((0x3820, 0x20, true)),
        Keycode::Period | Keycode::KpPeriod => Some((0x3820, 0x40, false)),
        Keycode::Greater | Keycode::KpGreater => Some((0x3820, 0x40, true)),
        Keycode::Slash | Keycode::KpDivide => Some((0x3820, 0x80, false)),
        Keycode::Question => Some((0x3820, 0x80, true)),
        Keycode::Return | Keycode::KpEnter => Some((0x3840, 0x01, false)),
        // On the Model I, bit 0x02 of this row is CLEAR and bit 0x04 BREAK; a
        // host keyboard has neither key, and Home and End stand for them.
        Keycode::Home | Keycode::Clear => Some((0x3840, 0x02, false)),
        Keycode::End | Keycode::Break => Some((0x3840, 0x04, false)),
        Keycode::Up => Some((0x3840, 0x08, false)),
        Keycode::Down => Some((0x3840, 0x10, false)),
        Keycode::Left | Keycode::Backspace => Some((0x3840, 0x20, false)),
        Keycode::Right => Some((0x3840, 0x40, false)),
        Keycode::Space => Some((0x3840, 0x80, false)),
        _ => None,
    }
}

/// The matrix position of `k` (see `spec_key_target`).
pub fn key_target(k: Keycode) -> (r: Option<(u16, u8, bool)>)
    ensures
        r == spec_key_target(k),
{
    match k {
        Keycode::At | Keycode::KpAt => Some((0x3801, 0x01, false)),
        Keycode::A => Some((0x3801, 0x02, false)),
        Keycode::B => Some((0x3801, 0x04, false)),
        Keycode::C => Some((0x3801, 0x08, false)),
        Keycode::D => Some((0x3801, 0x10, false)),
        Keycode::E => Some((0x3801, 0x20, false)),
        Keycode::F => Some((0x3801, 0x40, false)),
        Keycode::G => Some((0x3801, 0x80, false)),
        Keycode::H => Some((0x3802, 0x01, false)),
        Keycode::I => Some((0x3802, 0x02, false)),
        Keycode::J => Some((0x3802, 0x04, false)),
        Keycode::K => Some((0x3802, 0x08, false)),
        Keycode::L => Some((0x3802, 0x10, false)),
        Keycode::M => Some((0x3802, 0x20, false)),
        Keycode::N => Some((0x3802, 0x40, false)),
        Keycode::O => Some((0x3802, 0x80, false)),
        Keycode::P => Some((0x3804, 0x01, false)),
        Keycode::Q => Some((0x3804, 0x02, false)),
        Keycode::R => Some((0x3804, 0x04, false)),
        Keycode::S => Some((0x3804, 0x08, false)),
        Keycode::T => Some((0x3804, 0x10, false)),
        Keycode::U => Some((0x3804, 0x20, false)),
        Keycode::V => Some((0x3804, 0x40, false)),
        Keycode::W => Some((0x3804, 0x80, false)),
        Keycode::X => Some((0x3808, 0x01, false)),
        Keycode::Y => Some((0x3808, 0x02, false)),
        Keycode::Z => Some((0x3808, 0x04, false)),
        Keycode::Num0 | Keycode::Kp0 => Some((0x3810, 0x01, false)),
        Keycode::Num1 | Keycode::Kp1 => Some((0x3810, 0x02, false)),
        Keycode::Exclaim => Some((0x3810, 0x02, true)),
        Keycode::Num2 | Keycode::Kp2 => Some((0x3810, 0x04, false)),
        Keycode::Quotedbl => Some((0x3810, 0x04, true)),
        Keycode::Num3 | Keycode::Kp3 => Some((0x3810, 0x08, false)),
        Keycode::Hash => Some((0x3810, 0x08, true)),
        Keycode::Num4 | Keycode::Kp4 => Some((0x3810, 0x10, false)),
        Keycode::Dollar => Some((0x3810, 0x10, true)),
        Keycode::Num5 | Keycode::Kp5 => Some((0x3810, 0x20, false)),
        Keycode::Percent | Keycode::KpPercent => Some((0x3810, 0x20, true)),
        Keycode::Num6 | Keycode::Kp6 => Some((0x3810, 0x40, false)),
        Keycode::Ampersand | Keycode::KpAmpersand => Some((0x3810, 0x40, true)),
        Keycode::Num7 | Keycode::Kp7 => Some((0x3810, 0x80, false)),
        Keycode::Quote => Some((0x3810, 0x80, true)),
        Keycode::Num8 | Keycode::Kp8 => Some((0x3820, 0x01, false)),
        Keycode::LeftParen | Keycode::KpLeftParen => Some((0x3820, 0x01, true)),
        Keycode::Num9 | Keycode::Kp9 => Some((0x3820, 0x02, false)),
        Keycode::RightParen | Keycode::KpRightParen => Some((0x3820, 0x02, true)),
        Keycode::Colon | Keycode::KpColon => Some((0x3820, 0x04, false)),
        Keycode::Asterisk | Keycode::KpMultiply => Some((0x3820, 0x04, true)),
        Keycode::Semicolon => Some((0x3820, 0x08, false)),
        Keycode::Plus | Keycode::KpPlus => Some((0x3820, 0x08, true)),
        Keycode::Comma | Keycode::KpComma => Some((0x3820, 0x10, false)),
        Keycode::Less | Keycode::KpLess => Some((0x3820, 0x10, true)),
        Keycode::Minus | Keycode::KpMinus => Some((0x3820, 0x20, false)),
        Keycode::Equals | Keycode::KpEquals => Some((0x3820, 0x20, true)),
        Keycode::Period | Keycode::KpPeriod => Some((0x3820, 0x40, false)),
        Keycode::Greater | Keycode::KpGreater => Some((0x3820, 0x40, true)),
        Keycode::Slash | Keycode::KpDivide => Some((0x3820, 0x80, false)),
        Keycode::Question => Some((0x3820, 0x80, true)),
        Keycode::Return | Keycode::KpEnter => Some((0x3840, 0x01, false)),
        Keycode::Home | Keycode::Clear => Some((0x3840, 0x02, false)),
        Keycode::End | Keycode::Break => Some((0x3840, 0x04, false)),
        Keycode::Up => Some((0x3840, 0x08, false)),
        Keycode::Down => Some((0x3840, 0x10, false)),
        Keycode::Left | Keycode::Backspace => Some((0x3840, 0x20, false)),
        Keycode::Right => Some((0x3840, 0x40, false)),
        Keycode::Space => Some((0x3840, 0x80, false)),
        _ => None,
    }
}

/// The matrix row addresses, in row order: one address bit per row.
pub open spec fn row_address(r: int) -> u16 {
    seq![0x3801u16, 0x3802, 0x3804, 0x3808, 0x3810, 0x3820, 0x3840, 0x3880][r]
}

/// The bit `c` (0 = least significant) of a row byte.
pub open spec fn bit_of(c: int) -> u8 {
    (1u8 << (c as u8))
}

/// Whether held key `k` asserts the bits `mask` of row `addr`: its own
/// position, or SHIFT where its character needs it. Backspace is left to the
/// repeat timer.
pub open spec fn contributes(k: Keycode, addr: u16, mask: u8) -> bool {
    &&& k != Keycode::Backspace
    &&& match spec_key_target(k) {
        Some((a, m, shift)) =>
            (a == addr && m & mask != 0) || (shift && addr == SHIFT_ADDR && SHIFT_BIT & mask != 0),
        None => false,
    }
}

/// Whether Backspace, held since `pressed_at` (if it is held), reads as
/// pressed at time `now` (milliseconds): throughout the first
/// `BACKSPACE_REPEAT_DELAY_MS`, then for the first half of each
/// `BACKSPACE_REPEAT_INTERVAL_MS` period after that.
pub open spec fn backspace_asserted(pressed_at: Option<u64>, now: u64) -> bool {
    match pressed_at {
        None => false,
        Some(t) => {
            let held = if now >= t { now - t } else { 0 };
            held < BACKSPACE_REPEAT_DELAY_MS
                || (held - BACKSPACE_REPEAT_DELAY_MS) % (BACKSPACE_REPEAT_INTERVAL_MS as int)
                    < BACKSPACE_REPEAT_INTERVAL_MS / 2
        },
    }
}

/// Whether the bits `mask` of row `addr` are asserted while the keys `held`
/// are down and Backspace does or does not currently read as pressed.
pub open spec fn row_bits_asserted(held: Set<Keycode>, backspace: bool, addr: u16, mask: u8) -> bool {
    ||| exists|k: Keycode| held.contains(k) && #[trigger] contributes(k, addr, mask)
    ||| backspace && addr == 0x3840 && 0x20u8 & mask != 0
    ||| addr == 0x3801 && 0x01u8 & mask != 0 && held.contains(Keycode::LCtrl)
            && held.contains(Keycode::RAlt) && held.contains(Keycode::Num0)
}

/// The memory after writing `rows` to the first `n` matrix rows in order.
pub open spec fn rows_written(memory: Seq<u8>, rom: Option<(u16, u16)>, rows: Seq<u8>, n: nat) -> Seq<u8>
    decreases n,
{
    if n == 0 {
        memory
    } else {
        let k = (n - 1) as nat;
        written(rows_written(memory, rom, rows, k), rom, row_address(k as int), rows[k as int])
    }
}

/// The memory after a whole matrix update: every row, then the all-columns
/// address set to 1.
pub open spec fn matrix_written(memory: Seq<u8>, rom: Option<(u16, u16)>, rows: Seq<u8>) -> Seq<u8> {
    written(rows_written(memory, rom, rows, 8), rom, ALL_COLUMNS_ADDR, 1)
}

proof fn lemma_or_bit(x: u8, m: u8, c: u8)
    requires
        c < 8,
    ensures
        ((x | m) & (1u8 << c) != 0) == ((x & (1u8 << c) != 0) || (m & (1u8 << c) != 0)),
{
    assert(((x | m) & (1u8 << c) != 0) == ((x & (1u8 << c) != 0) || (m & (1u8 << c) != 0)))
        by (bit_vector)
        requires c < 8;
}

proof fn lemma_zero_bits(c: u8)
    requires
        c < 8,
    ensures
        (0u8 & (1u8 << c)) == 0,
        (0x01u8 & (1u8 << c) != 0) == (c == 0),
        (0x20u8 & (1u8 << c) != 0) == (c == 5),
{
    assert((0u8 & (1u8 << c)) == 0) by (bit_vector);
    assert((0x01u8 & (1u8 << c) != 0) == (c == 0)) by (bit_vector) requires c < 8;
    assert((0x20u8 & (1u8 << c) != 0) == (c == 5)) by (bit_vector) requires c < 8;
}

/// The row index of a matrix row address.
fn row_index(addr: u16) -> (r: Option<usize>)
    ensures
        r matches Some(i) ==> i < 8 && row_address(i as int) == addr,
        r is None ==> forall|i: int| 0 <= i < 8 ==> row_address(i) != addr,
{
    if addr == 0x3801 { Some(0) }
    else if addr == 0x3802 { Some(1) }
    else if addr == 0x3804 { Some(2) }
    else if addr == 0x3808 { Some(3) }
    else if addr == 0x3810 { Some(4) }
    else if addr == 0x3820 { Some(5) }
    else if addr == 0x3840 { Some(6) }
    else if addr == 0x3880 { Some(7) }
    else { None }
}

/// The held keys and Backspace's press time after `k` goes down at `now`:
/// Backspace's auto-repeat counts from its first press.
pub open spec fn after_key_down(held: Set<Keycode>, since: Option<u64>, k: Keycode, now: u64) -> (
    Set<Keycode>,
    Option<u64>,
) {
    (held.insert(k), if k == Keycode::Backspace && since is None { Some(now) } else { since })
}

/// The held keys and Backspace's press time after `k` goes up.
pub open spec fn after_key_up(held: Set<Keycode>, since: Option<u64>, k: Keycode) -> (Set<Keycode>, Option<u64>) {
    (held.remove(k), if k == Keycode::Backspace { None } else { since })
}

/// Backspace has a press time exactly while it is held.
pub open spec fn timer_matches(held: Set<Keycode>, since: Option<u64>) -> bool {
    since is Some <==> held.contains(Keycode::Backspace)
}

/// Where `k` is in `v`, if it is there.
fn position_of(v: &Vec<Keycode>, k: Keycode) -> (r: Option<usize>)
    ensures
        r matches Some(i) ==> i < v@.len() && v@[i as int] == k,
        r is None ==> !v@.contains(k),
{
    let mut i: usize = 0;
    while i < v.len()
        invariant
            i <= v@.len(),
            forall|j: int| 0 <= j < i ==> v@[j] != k,
        decreases v@.len() - i,
    {
        if v[i] == k {
            return Some(i);
        }
        i += 1;
    }
    None
}

/// Whether `v` holds `k`.
fn contains_key(v: &Vec<Keycode>, k: Keycode) -> (r: bool)
    ensures
        r == v@.contains(k),
{
    match position_of(v, k) {
        Some(i) => {
            assert(v@[i as int] == k);
            true
        },
        None => false,
    }
}

/// The state of the keyboard: which keys are held, and since when Backspace
/// has been (for its auto-repeat).
pub struct Keyboard {
    pressed: Vec<Keycode>,
    backspace_pressed_at: Option<u64>,
}

impl Keyboard {
    /// The keyboard's invariant: no key is listed twice, and Backspace has a
    /// press time exactly while it is held.
    pub closed spec fn wf(self) -> bool {
        &&& self.pressed@.no_duplicates()
        &&& self.backspace_pressed_at is Some <==> self.pressed@.contains(Keycode::Backspace)
    }

    /// The keys currently held.
    pub closed spec fn held(self) -> Set<Keycode> {
        Set::new(|k: Keycode| self.pressed@.contains(k))
    }

    /// When Backspace was pressed, in the caller's milliseconds, while it
    /// is held.
    pub closed spec fn backspace_since(self) -> Option<u64> {
        self.backspace_pressed_at
    }

    /// No key held.
    pub fn new() -> (r: Keyboard)
        ensures
            r.wf(),
            r.held() == Set::<Keycode>::empty(),
            r.backspace_since() is None,
            timer_matches(r.held(), r.backspace_since()),
    {
        let r = Keyboard { pressed: Vec::new(), backspace_pressed_at: None };
        assert(r.held() =~= Set::<Keycode>::empty());
        r
    }

    /// Registers `k` as held, at time `now_ms`, until a matching `key_up`.
    /// A repeated press is harmless: the set of held keys is unchanged, and
    /// Backspace's start time is only ever set when it was not held.
    pub fn key_down(&mut self, k: Keycode, now_ms: u64)
        requires
            old(self).wf(),
        ensures
            final(self).wf(),
            (final(self).held(), final(self).backspace_since())
                == after_key_down(old(self).held(), old(self).backspace_since(), k, now_ms),
            timer_matches(final(self).held(), final(self).backspace_since()),
    {
        let ghost before = self.pressed@;
        let mut me = Keyboard { pressed: Vec::new(), backspace_pressed_at: None };
        std::mem::swap(&mut me, self);
        let Keyboard { mut pressed, mut backspace_pressed_at } = me;
        if k == Keycode::Backspace && backspace_pressed_at.is_none() {
            backspace_pressed_at = Some(now_ms);
        }
        if !contains_key(&pressed, k) {
            pressed.push(k);
            assert forall|x: Keycode| pressed@.contains(x) == (before.contains(x) || x == k) by {
                if before.contains(x) {
                    let i = choose|i: int| 0 <= i < before.len() && before[i] == x;
                    assert(pressed@[i] == x);
                }
                if x == k {
                    assert(pressed@[before.len() as int] == k);
                }
            }
        }
        *self = Keyboard { pressed, backspace_pressed_at };
        assert(self.held() =~= old(self).held().insert(k));
    }

    /// Releases `k`.
    pub fn key_up(&mut self, k: Keycode)
        requires
            old(self).wf(),
        ensures
            final(self).wf(),
            (final(self).held(), final(self).backspace_since())
                == after_key_up(old(self).held(), old(self).backspace_since(), k),
            timer_matches(final(self).held(), final(self).backspace_since()),
    {
        let ghost before = self.pressed@;
        let mut me = Keyboard { pressed: Vec::new(), backspace_pressed_at: None };
        std::mem::swap(&mut me, self);
        let Keyboard { mut pressed, mut backspace_pressed_at } = me;
        if k == Keycode::Backspace {
            backspace_pressed_at = None;
        }
        match position_of(&pressed, k) {
            Some(i) => {
                pressed.remove(i);
                assert(pressed@ =~= before.remove(i as int));
                assert forall|a: int, b: int| 0 <= a < b < pressed@.len() implies
                    pressed@[a] != pressed@[b] by {
                    let a0 = if a < i { a } else { a + 1 };
                    let b0 = if b < i { b } else { b + 1 };
                    assert(pressed@[a] == before[a0] && pressed@[b] == before[b0]);
                }
                assert forall|x: Keycode| pressed@.contains(x) == (before.contains(x) && x != k) by {
                    if pressed@.contains(x) {
                        let j = choose|j: int| 0 <= j < pressed@.len() && pressed@[j] == x;
                        let j0 = if j < i { j } else { j + 1 };
                        assert(before[j0] == x);
                        assert(j0 != i);
                    }
                    if before.contains(x) && x != k {
                        let j = choose|j: int| 0 <= j < before.len() && before[j] == x;
                        assert(j != i);
                        let j1 = if j < i { j } else { j - 1 };
                        assert(pressed@[j1] == x);
                    }
                }
            },
            None => {},
        }
        *self = Keyboard { pressed, backspace_pressed_at };
        assert(self.held() =~= old(self).held().remove(k));
    }

    /// Releases every held key, as when the window loses focus and no
    /// release will ever arrive for what was held.
    pub fn clear(&mut self)
        ensures
            final(self).wf(),
            final(self).held() == Set::<Keycode>::empty(),
            final(self).backspace_since() is None,
            timer_matches(final(self).held(), final(self).backspace_since()),
    {
        *self = Keyboard { pressed: Vec::new(), backspace_pressed_at: None };
        assert(self.held() =~= Set::<Keycode>::empty());
    }

    /// The eight row bytes of the matrix at time `now_ms`: bit `c` of row
    /// `r` is set exactly when `row_bits_asserted` says so.
    pub fn matrix_rows(&self, now_ms: u64) -> (rows: Vec<u8>)
        ensures
            rows@.len() == 8,
            forall|r: int, c: int| #![trigger rows@[r], bit_of(c)] 0 <= r < 8 && 0 <= c < 8 ==>
                (rows@[r] & bit_of(c) != 0) == row_bits_asserted(
                    self.held(),
                    backspace_asserted(self.backspace_since(), now_ms),
                    row_address(r),
                    bit_of(c),
                ),
    {
        let mut rows: Vec<u8> = vec![0u8, 0, 0, 0, 0, 0, 0, 0];
        proof {
            assert forall|r: int, c: int| #![trigger rows@[r], bit_of(c)] 0 <= r < 8 && 0 <= c < 8 implies
                (rows@[r] & bit_of(c) != 0) == false by {
                lemma_zero_bits(c as u8);
            }
        }
        let mut j: usize = 0;
        while j < self.pressed.len()
            invariant
                j <= self.pressed@.len(),
                rows@.len() == 8,
                forall|r: int, c: int| #![trigger rows@[r], bit_of(c)] 0 <= r < 8 && 0 <= c < 8 ==>
                    (rows@[r] & bit_of(c) != 0) == (exists|i: int|
                        0 <= i < j && #[trigger] contributes(self.pressed@[i], row_address(r), bit_of(c))),
            decreases self.pressed@.len() - j,
        {
            let k = self.pressed[j];
            let ghost old_rows = rows@;
            if k != Keycode::Backspace {
                match key_target(k) {
                    Some((addr, bit, needs_shift)) => {
                        match row_index(addr) {
                            Some(ri) => {
                                let v = rows[ri] | bit;
                                rows.set(ri, v);
                            },
                            None => {},
                        }
                        if needs_shift {
                            let v = rows[7] | SHIFT_BIT;
                            rows.set(7, v);
                        }
                    },
                    None => {},
                }
            }
            proof {
                assert forall|r: int, c: int| #![trigger rows@[r], bit_of(c)] 0 <= r < 8 && 0 <= c < 8 implies
                    (rows@[r] & bit_of(c) != 0) == (exists|i: int|
                        0 <= i < j + 1 && #[trigger] contributes(self.pressed@[i], row_address(r), bit_of(c))) by {
                    lemma_or_bit(old_rows[r], 0, c as u8);
                    assert(old_rows[r] | 0 == old_rows[r]) by (bit_vector);
                    match spec_key_target(k) {
                        Some((addr, bit, needs_shift)) => {
                            lemma_or_bit(old_rows[r], bit, c as u8);
                            lemma_or_bit(old_rows[r], SHIFT_BIT, c as u8);
                            lemma_or_bit(old_rows[r] | bit, SHIFT_BIT, c as u8);
                        },
                        None => {},
                    }
                    if contributes(self.pressed@[j as int], row_address(r), bit_of(c)) {
                        assert(exists|i: int| 0 <= i < j + 1 && #[trigger] contributes(self.pressed@[i], row_address(r), bit_of(c)));
                    }
                    if exists|i: int| 0 <= i < j + 1 && #[trigger] contributes(self.pressed@[i], row_address(r), bit_of(c)) {
                        let i = choose|i: int| 0 <= i < j + 1 && #[trigger] contributes(self.pressed@[i], row_address(r), bit_of(c));
                        if i < j {
                            assert(exists|i: int| 0 <= i < j && #[trigger] contributes(self.pressed@[i], row_address(r), bit_of(c)));
                        }
                    }
                }
            }
            j += 1;
        }
        let ghost before_extra = rows@;
        if backspace_active(self.backspace_pressed_at, now_ms) {
            let v = rows[6] | 0x20;
            rows.set(6, v);
        }
        let ghost after_bs = rows@;
        if contains_key(&self.pressed, Keycode::LCtrl) && contains_key(&self.pressed, Keycode::RAlt)
            && contains_key(&self.pressed, Keycode::Num0) {
            let v = rows[0] | 0x01;
            rows.set(0, v);
        }
        proof {
            assert forall|r: int, c: int| #![trigger rows@[r], bit_of(c)] 0 <= r < 8 && 0 <= c < 8 implies
                (rows@[r] & bit_of(c) != 0) == row_bits_asserted(
                    self.held(),
                    backspace_asserted(self.backspace_since(), now_ms),
                    row_address(r),
                    bit_of(c),
                ) by {
                lemma_or_bit(before_extra[r], 0x20, c as u8);
                lemma_or_bit(after_bs[r], 0x01, c as u8);
                lemma_zero_bits(c as u8);
                if exists|k: Keycode| self.held().contains(k) && #[trigger] contributes(k, row_address(r), bit_of(c)) {
                    let k = choose|k: Keycode| self.held().contains(k) && #[trigger] contributes(k, row_address(r), bit_of(c));
                    let i = choose|i: int| 0 <= i < self.pressed@.len() && self.pressed@[i] == k;
                    assert(contributes(self.pressed@[i], row_address(r), bit_of(c)));
                }
                if exists|i: int| 0 <= i < self.pressed@.len() && #[trigger] contributes(self.pressed@[i], row_address(r), bit_of(c)) {
                    let i = choose|i: int| 0 <= i < self.pressed@.len() && #[trigger] contributes(self.pressed@[i], row_address(r), bit_of(c));
                    assert(self.held().contains(self.pressed@[i]));
                }
            }
        }
        rows
    }

    /// Writes the matrix rows for time `now_ms` to the bus, then sets the
    /// all-columns address to 1. Writing every row each time is what lets
    /// keys held in different rows all read as held at once.
    pub fn update(&mut self, bus: &mut TrsBus, now_ms: u64)
        requires
            old(self).wf(),
        ensures
            final(self).wf(),
            final(self).held() == old(self).held(),
            final(self).backspace_since() == old(self).backspace_since(),
            timer_matches(final(self).held(), final(self).backspace_since()),
            final(bus).rom() == old(bus).rom(),
            final(bus).tape == old(bus).tape,
            final(bus).debug_io == old(bus).debug_io,
            exists|rows: Seq<u8>| {
                &&& rows.len() == 8
                &&& (forall|r: int, c: int| #![trigger rows[r], bit_of(c)] 0 <= r < 8 && 0 <= c < 8 ==>
                    (rows[r] & bit_of(c) != 0) == row_bits_asserted(
                        old(self).held(),
                        backspace_asserted(old(self).backspace_since(), now_ms),
                        row_address(r),
                        bit_of(c),
                    ))
                &&& final(bus).memory() == matrix_written(old(bus).memory(), old(bus).rom(), rows)
            },
    {
        let rows = self.matrix_rows(now_ms);
        let ghost mem0 = bus.memory();
        let mut r: usize = 0;
        while r < 8
            invariant
                r <= 8,
                rows@.len() == 8,
                bus.rom() == old(bus).rom(),
                bus.tape == old(bus).tape,
                bus.debug_io == old(bus).debug_io,
                bus.memory() == rows_written(mem0, old(bus).rom(), rows@, r as nat),
            decreases 8 - r,
        {
            let addr: u16 = 0x3800 | (1u16 << (r as u16));
            assert(addr == row_address(r as int)) by {
                assert(0x3800u16 | (1u16 << 0u16) == 0x3801) by (bit_vector);
                assert(0x3800u16 | (1u16 << 1u16) == 0x3802) by (bit_vector);
                assert(0x3800u16 | (1u16 << 2u16) == 0x3804) by (bit_vector);
                assert(0x3800u16 | (1u16 << 3u16) == 0x3808) by (bit_vector);
                assert(0x3800u16 | (1u16 << 4u16) == 0x3810) by (bit_vector);
                assert(0x3800u16 | (1u16 << 5u16) == 0x3820) by (bit_vector);
                assert(0x3800u16 | (1u16 << 6u16) == 0x3840) by (bit_vector);
                assert(0x3800u16 | (1u16 << 7u16) == 0x3880) by (bit_vector);
            }
            bus.write_byte(addr, rows[r]);
            r += 1;
        }
        bus.write_byte(ALL_COLUMNS_ADDR, 1);
    }
}

/// Whether Backspace reads as pressed (see `backspace_asserted`).
fn backspace_active(pressed_at: Option<u64>, now_ms: u64) -> (r: bool)
    ensures
        r == backspace_asserted(pressed_at, now_ms),
{
    match pressed_at {
        None => false,
        Some(t) => {
            let held = if now_ms >= t { now_ms - t } else { 0 };
            if held < BACKSPACE_REPEAT_DELAY_MS {
                true
            } else {
                (held - BACKSPACE_REPEAT_DELAY_MS) % BACKSPACE_REPEAT_INTERVAL_MS
                    < BACKSPACE_REPEAT_INTERVAL_MS / 2
            }
        },
    }
}

/// Backspace has a press time exactly while it is held, on every keyboard
/// that the operations above produce.
pub proof fn lemma_timer_in_step(kb: Keyboard)
    requires
        kb.wf(),
    ensures
        timer_matches(kb.held(), kb.backspace_since()),
{
}

/// Pressing a key that was not held and releasing it leaves the keyboard as
/// it was: the same keys held, and Backspace's auto-repeat timer as it was.
pub proof fn lemma_press_release_restores(kb: Keyboard, k: Keycode, now: u64)
    requires
        kb.wf(),
        !kb.held().contains(k),
    ensures
        ({
            let (held1, since1) = after_key_down(kb.held(), kb.backspace_since(), k, now);
            after_key_up(held1, since1, k) == (kb.held(), kb.backspace_since())
        }),
{
    assert(kb.held().insert(k).remove(k) =~= kb.held());
}

} // verus!
