//! Host keyboard events, as a windowing layer reports them, turned into
//! presses and releases of `Keycode`s on the emulated keyboard.
//!
//! Letters, digits and symbols do not trust the host's key code for the
//! character a key types (on some layouts it names the key's position, not
//! its character): their press is held back until the text the host
//! composed for it arrives, and falls back to the key code only if no such
//! text comes before the next event.

use vstd::prelude::*;
use crate::bus::TrsBus;
use crate::keyboard::Keyboard as CoreKeyboard;
use crate::keys::Keycode;
use crate::text::str_chars;

verus! {

/// The key matching a single typed character (letters in either case).
pub open spec fn char_key(c: char) -> Option<Keycode> {
    let u = if 'a' <= c && c <= 'z' { ((c as u32) - 32) as char } else { c };
    match u {
        'A' => Some(Keycode::A),
        'B' => Some(Keycode::B),
        'C' => Some(Keycode::C),
        'D' => Some(Keycode::D),
        'E' => Some(Keycode::E),
        'F' => Some(Keycode::F),
        'G' => Some(Keycode::G),
        'H' => Some(Keycode::H),
        'I' => Some(Keycode::I),
        'J' => Some(Keycode::J),
        'K' => Some(Keycode::K),
        'L' => Some(Keycode::L),
        'M' => Some(Keycode::M),
        'N' => Some(Keycode::N),
        'O' => Some(Keycode::O),
        'P' => Some(Keycode::P),
        'Q' => Some(Keycode::Q),
        'R' => Some(Keycode::R),
        'S' => Some(Keycode::S),
        'T' => Some(Keycode::T),
        'U' => Some(Keycode::U),
        'V' => Some(Keycode::V),
        'W' => Some(Keycode::W),
        'X' => Some(Keycode::X),
        'Y' => Some(Keycode::Y),
        'Z' => Some(Keycode::Z),
        '0' => Some(Keycode::Num0),
        '1' => Some(Keycode::Num1),
        '2' => Some(Keycode::Num2),
        '3' => Some(Keycode::Num3),
        '4' => Some(Keycode::Num4),
        '5' => Some(Keycode::Num5),
        '6' => Some(Keycode::Num6),
        '7' => Some(Keycode::Num7),
        '8' => Some(Keycode::Num8),
        '9' => Some(Keycode::Num9),
        '@' => Some(Keycode::At),
        '!' => Some(Keycode::Exclaim),
        '"' => Some(Keycode::Quotedbl),
        '#' => Some(Keycode::Hash),
        '$' => Some(Keycode::Dollar),
        '%' => Some(Keycode::Percent),
        '&' => Some(Keycode::Ampersand),
        '\'' => Some(Keycode::Quote),
        '(' => Some(Keycode::LeftParen),
        ')' => Some(Keycode::RightParen),
        ':' => Some(Keycode::Colon),
        '*' => Some(Keycode::Asterisk),
        ';' => Some(Keycode::Semicolon),
        '+' => Some(Keycode::Plus),
        ',' => Some(Keycode::Comma),
        '<' => Some(Keycode::Less),
        '-' => Some(Keycode::Minus),
        '=' => Some(Keycode::Equals),
        '.' => Some(Keycode::Period),
        '>' => Some(Keycode::Greater),
        '/' => Some(Keycode::Slash),
        '?' => Some(Keycode::Question),
        _ => None,
    }
}

/// The key for the text the host composed for a key press: `None` unless
/// it is a single character of the TRS-80's ASCII keyboard.
pub open spec fn spec_from_text(text: Seq<char>) -> Option<Keycode> {
    if text.len() == 1 { char_key(text[0]) } else { None }
}

/// Whether the host's key code for `k` cannot be trusted alone to tell the
/// character typed: letters, main-row digits and symbols (not the keypad).
pub open spec fn spec_is_text_key(k: Keycode) -> bool {
    matches!(k, Keycode::A | Keycode::B | Keycode::C | Keycode::D | Keycode::E | Keycode::F | Keycode::G | Keycode::H | Keycode::I | Keycode::J | Keycode::K | Keycode::L | Keycode::M | Keycode::N | Keycode::O | Keycode::P | Keycode::Q | Keycode::R | Keycode::S | Keycode::T | Keycode::U | Keycode::V | Keycode::W | Keycode::X | Keycode::Y | Keycode::Z | Keycode::Num0 | Keycode::Num1 | Keycode::Num2 | Keycode::Num3 | Keycode::Num4 | Keycode::Num5 | Keycode::Num6 | Keycode::Num7 | Keycode::Num8 | Keycode::Num9 | Keycode::At | Keycode::Exclaim | Keycode::Quotedbl | Keycode::Hash | Keycode::Dollar | Keycode::Percent | Keycode::Ampersand | Keycode::Quote | Keycode::LeftParen | Keycode::RightParen | Keycode::Colon | Keycode::Asterisk | Keycode::Semicolon | Keycode::Plus | Keycode::Comma | Keycode::Less | Keycode::Minus | Keycode::Equals | Keycode::Period | Keycode::Greater | Keycode::Slash | Keycode::Question)
}

fn char_key_exec(c: char) -> (r: Option<Keycode>)
    ensures
        r == char_key(c),
{
    let u = if 'a' <= c && c <= 'z' { ((c as u32) - 32) as u8 as char } else { c };
    assert(u == (if 'a' <= c && c <= 'z' { ((c as u32) - 32) as char } else { c }));
    match u {
        'A' => Some(Keycode::A),
        'B' => Some(Keycode::B),
        'C' => Some(Keycode::C),
        'D' => Some(Keycode::D),
        'E' => Some(Keycode::E),
        'F' => Some(Keycode::F),
        'G' => Some(Keycode::G),
        'H' => Some(Keycode::H),
        'I' => Some(Keycode::I),
        'J' => Some(Keycode::J),
        'K' => Some(Keycode::K),
        'L' => Some(Keycode::L),
        'M' => Some(Keycode::M),
        'N' => Some(Keycode::N),
        'O' => Some(Keycode::O),
        'P' => Some(Keycode::P),
        'Q' => Some(Keycode::Q),
        'R' => Some(Keycode::R),
        'S' => Some(Keycode::S),
        'T' => Some(Keycode::T),
        'U' => Some(Keycode::U),
        'V' => Some(Keycode::V),
        'W' => Some(Keycode::W),
        'X' => Some(Keycode::X),
        'Y' => Some(Keycode::Y),
        'Z' => Some(Keycode::Z),
        '0' => Some(Keycode::Num0),
        '1' => Some(Keycode::Num1),
        '2' => Some(Keycode::Num2),
        '3' => Some(Keycode::Num3),
        '4' => Some(Keycode::Num4),
        '5' => Some(Keycode::Num5),
        '6' => Some(Keycode::Num6),
        '7' => Some(Keycode::Num7),
        '8' => Some(Keycode::Num8),
        '9' => Some(Keycode::Num9),
        '@' => Some(Keycode::At),
        '!' => Some(Keycode::Exclaim),
        '"' => Some(Keycode::Quotedbl),
        '#' => Some(Keycode::Hash),
        '$' => Some(Keycode::Dollar),
        '%' => Some(Keycode::Percent),
        '&' => Some(Keycode::Ampersand),
        '\'' => Some(Keycode::Quote),
        '(' => Some(Keycode::LeftParen),
        ')' => Some(Keycode::RightParen),
        ':' => Some(Keycode::Colon),
        '*' => Some(Keycode::Asterisk),
        ';' => Some(Keycode::Semicolon),
        '+' => Some(Keycode::Plus),
        ',' => Some(Keycode::Comma),
        '<' => Some(Keycode::Less),
        '-' => Some(Keycode::Minus),
        '=' => Some(Keycode::Equals),
        '.' => Some(Keycode::Period),
        '>' => Some(Keycode::Greater),
        '/' => Some(Keycode::Slash),
        '?' => Some(Keycode::Question),
        _ => None,
    }
}

/// The key for composed text (see `spec_from_text`).
pub fn from_text(text: &str) -> (r: Option<Keycode>)
    ensures
        r == spec_from_text(text@),
{
    let cs = str_chars(text);
    if cs.len() != 1 {
        return None;
    }
    char_key_exec(cs[0])
}

/// Whether `k` is one of the keys whose press waits for composed text.
pub fn is_text_key(k: Keycode) -> (r: bool)
    ensures
        r == spec_is_text_key(k),
{
    matches!(k, Keycode::A | Keycode::B | Keycode::C | Keycode::D | Keycode::E | Keycode::F | Keycode::G | Keycode::H | Keycode::I | Keycode::J | Keycode::K | Keycode::L | Keycode::M | Keycode::N | Keycode::O | Keycode::P | Keycode::Q | Keycode::R | Keycode::S | Keycode::T | Keycode::U | Keycode::V | Keycode::W | Keycode::X | Keycode::Y | Keycode::Z | Keycode::Num0 | Keycode::Num1 | Keycode::Num2 | Keycode::Num3 | Keycode::Num4 | Keycode::Num5 | Keycode::Num6 | Keycode::Num7 | Keycode::Num8 | Keycode::Num9 | Keycode::At | Keycode::Exclaim | Keycode::Quotedbl | Keycode::Hash | Keycode::Dollar | Keycode::Percent | Keycode::Ampersand | Keycode::Quote | Keycode::LeftParen | Keycode::RightParen | Keycode::Colon | Keycode::Asterisk | Keycode::Semicolon | Keycode::Plus | Keycode::Comma | Keycode::Less | Keycode::Minus | Keycode::Equals | Keycode::Period | Keycode::Greater | Keycode::Slash | Keycode::Question)
}

/// A host keyboard event, reduced to what the keyboard reads of it.
pub enum KeyEvent {
    /// A key went down: its physical scan code, and the key its host key
    /// code stands for (`None` when the matrix has no use for it).
    KeyDown { scancode: u32, key: Option<Keycode> },
    /// The text the host composed for the last key press.
    TextInput { text: String },
    /// The key with this physical scan code went up.
    KeyUp { scancode: u32 },
    /// The window lost the keyboard focus.
    FocusLost,
    /// Anything else.
    Other,
}

/// The state of the keyboard adapter, as the contracts speak of it.
#[verifier::ext_equal]
pub struct KeysModel {
    /// Physical key (scan code) -> the key asserted for it.
    pub held: Map<u32, Keycode>,
    /// A press waiting for its composed text: scan code and fallback key.
    pub pending: Option<(u32, Keycode)>,
    /// Whether a SHIFT key is held.
    pub shift: bool,
    /// The keys held on the emulated keyboard.
    pub down: Set<Keycode>,
    /// Since when Backspace has been held on the emulated keyboard.
    pub backspace_since: Option<u64>,
}

pub open spec fn is_shift_key(k: Keycode) -> bool {
    k == Keycode::LShift || k == Keycode::RShift
}

/// A press resolved to `k`: recorded for the release to find, and asserted.
pub open spec fn model_commit(m: KeysModel, scancode: u32, k: Keycode, now: u64) -> KeysModel {
    KeysModel {
        held: m.held.insert(scancode, k),
        pending: m.pending,
        shift: if is_shift_key(k) { true } else { m.shift },
        down: m.down.insert(k),
        backspace_since: if k == Keycode::Backspace && m.backspace_since is None { Some(now) } else {
            m.backspace_since },
    }
}

/// The "< >" key of some layouts reports `Less` even with SHIFT held.
pub open spec fn fixup_less_greater(shift: bool, k: Keycode) -> Keycode {
    if k == Keycode::Less && shift { Keycode::Greater } else { k }
}

/// A press still waiting for its text when another event arrives is
/// committed with its fallback key.
pub open spec fn model_flush(m: KeysModel, now: u64) -> KeysModel {
    match m.pending {
        None => m,
        Some((sc, fallback)) => model_commit(
            KeysModel { pending: None, ..m },
            sc,
            fixup_less_greater(m.shift, fallback),
            now,
        ),
    }
}

/// What one event does to the adapter at time `now`.
pub open spec fn model_step(m: KeysModel, e: KeyEvent, now: u64) -> KeysModel {
    match e {
        KeyEvent::KeyDown { scancode, key } => {
            let f = model_flush(m, now);
            match key {
                None => f,
                Some(k) => if spec_is_text_key(k) {
                    KeysModel { pending: Some((scancode, k)), ..f }
                } else {
                    model_commit(f, scancode, k, now)
                },
            }
        },
        KeyEvent::TextInput { text } => match m.pending {
            None => m,
            Some((sc, fallback)) => {
                let k = match spec_from_text(text@) { Some(k) => k, None => fallback };
                model_commit(KeysModel { pending: None, ..m }, sc, k, now)
            },
        },
        KeyEvent::KeyUp { scancode } => {
            let f = model_flush(m, now);
            if f.held.contains_key(scancode) {
                let k = f.held[scancode];
                KeysModel {
                    held: f.held.remove(scancode),
                    shift: if is_shift_key(k) { false } else { f.shift },
                    down: f.down.remove(k),
                    backspace_since: if k == Keycode::Backspace { None } else { f.backspace_since },
                    ..f
                }
            } else {
                f
            }
        },
        KeyEvent::FocusLost => KeysModel {
            held: Map::empty(),
            pending: None,
            shift: false,
            down: Set::empty(),
            backspace_since: None,
        },
        KeyEvent::Other => m,
    }
}

/// The keys held in the last frame of the virtual keyboard and not in this one.
pub open spec fn released_keys(before: Seq<Keycode>, now: Seq<Keycode>) -> Set<Keycode> {
    Set::new(|k: Keycode| before.contains(k) && !now.contains(k))
}

/// The keys held in this frame of the virtual keyboard and not in the last.
pub open spec fn pressed_keys(before: Seq<Keycode>, now: Seq<Keycode>) -> Set<Keycode> {
    Set::new(|k: Keycode| now.contains(k) && !before.contains(k))
}

/// The adapter once the virtual keyboard went from holding `before` to
/// holding `now` at time `t`: the released keys are up, the pressed keys down.
pub open spec fn virtual_keys_synced(m: KeysModel, before: Seq<Keycode>, now: Seq<Keycode>, t: u64) -> KeysModel {
    KeysModel {
        down: m.down.difference(released_keys(before, now)).union(pressed_keys(before, now)),
        backspace_since: if released_keys(before, now).contains(Keycode::Backspace) {
            None
        } else if pressed_keys(before, now).contains(Keycode::Backspace) && m.backspace_since is None {
            Some(t)
        } else {
            m.backspace_since
        },
        ..m
    }
}

/// The first `i + 1` keys hold what the first `i` hold, and the key at `i`.
proof fn lemma_prefix_contains(s: Seq<Keycode>, i: int)
    requires
        0 <= i < s.len(),
    ensures
        forall|x: Keycode| #[trigger] s.subrange(0, i + 1).contains(x)
            == (s.subrange(0, i).contains(x) || x == s[i]),
{
    let short = s.subrange(0, i);
    let long = s.subrange(0, i + 1);
    assert forall|x: Keycode| #[trigger] long.contains(x) == (short.contains(x) || x == s[i]) by {
        if short.contains(x) {
            let j = choose|j: int| 0 <= j < short.len() && short[j] == x;
            assert(long[j] == x);
        }
        if x == s[i] {
            assert(long[i] == x);
        }
        if long.contains(x) && x != s[i] {
            let j = choose|j: int| 0 <= j < long.len() && long[j] == x;
            assert(short[j] == x);
        }
    }
}

/// Whether `keys` holds `k`.
fn holds_key(keys: &[Keycode], k: Keycode) -> (r: bool)
    ensures
        r == keys@.contains(k),
{
    let mut i: usize = 0;
    while i < keys.len()
        invariant
            i <= keys@.len(),
            forall|j: int| 0 <= j < i ==> keys@[j] != k,
        decreases keys@.len() - i,
    {
        if keys[i] == k {
            return true;
        }
        i += 1;
    }
    false
}

/// The map that an association list with distinct keys stands for.
pub open spec fn assoc(s: Seq<(u32, Keycode)>) -> Map<u32, Keycode>
    decreases s.len(),
{
    if s.len() == 0 {
        Map::empty()
    } else {
        assoc(s.drop_last()).insert(s.last().0, s.last().1)
    }
}

pub open spec fn distinct_keys(s: Seq<(u32, Keycode)>) -> bool {
    forall|i: int, j: int| 0 <= i < j < s.len() ==> s[i].0 != s[j].0
}

proof fn lemma_assoc_lookup(s: Seq<(u32, Keycode)>)
    requires
        distinct_keys(s),
    ensures
        forall|x: u32| assoc(s).contains_key(x) <==> exists|i: int| 0 <= i < s.len() && s[i].0 == x,
        forall|i: int| 0 <= i < s.len() ==> assoc(s)[#[trigger] s[i].0] == s[i].1,
    decreases s.len(),
{
    if s.len() > 0 {
        let t = s.drop_last();
        lemma_assoc_lookup(t);
        assert forall|x: u32| assoc(s).contains_key(x) <==> exists|i: int| 0 <= i < s.len() && s[i].0 == x by {
            if assoc(s).contains_key(x) {
                if x == s.last().0 {
                    assert(s[s.len() - 1].0 == x);
                } else {
                    assert(assoc(t).contains_key(x));
                    let i = choose|i: int| 0 <= i < t.len() && t[i].0 == x;
                    assert(t[i] == s[i]);
                    assert(s[i].0 == x);
                }
            }
            if exists|i: int| 0 <= i < s.len() && s[i].0 == x {
                let i = choose|i: int| 0 <= i < s.len() && s[i].0 == x;
                if i < t.len() {
                    assert(t[i].0 == x);
                }
            }
        }
        assert forall|i: int| 0 <= i < s.len() implies assoc(s)[#[trigger] s[i].0] == s[i].1 by {
            if i < t.len() {
                assert(t[i] == s[i]);
                assert(s[i].0 != s.last().0);
            }
        }
    }
}

proof fn lemma_assoc_remove(s: Seq<(u32, Keycode)>, i: int)
    requires
        distinct_keys(s),
        0 <= i < s.len(),
    ensures
        assoc(s.remove(i)) == assoc(s).remove(s[i].0),
    decreases s.len(),
{
    let t = s.drop_last();
    lemma_assoc_lookup(t);
    if i == s.len() - 1 {
        assert(s.remove(i) =~= t);
        assert(!assoc(t).contains_key(s.last().0)) by {
            if assoc(t).contains_key(s.last().0) {
                let j = choose|j: int| 0 <= j < t.len() && t[j].0 == s.last().0;
                assert(s[j].0 == s[s.len() - 1].0);
            }
        }
        assert(assoc(s).remove(s[i].0) =~= assoc(t));
    } else {
        lemma_assoc_remove(t, i);
        assert(s.remove(i) =~= t.remove(i).push(s.last()));
        assert(s.remove(i).drop_last() =~= t.remove(i));
        assert(s[i].0 != s.last().0);
        assert(assoc(s.remove(i)) =~= assoc(s).remove(s[i].0));
    }
}

/// Drives the emulated keyboard from host keyboard events.
pub struct Keyboard {
    inner: CoreKeyboard,
    shift_held: bool,
    held: Vec<(u32, Keycode)>,
    pending: Option<(u32, Keycode)>,
}

impl Keyboard {
    /// The adapter's internal invariant: one entry per physical key, and the
    /// emulated keyboard's own invariant.
    pub closed spec fn wf(self) -> bool {
        &&& distinct_keys(self.held@)
        &&& self.inner.wf()
    }

    /// The adapter's state.
    pub closed spec fn model(self) -> KeysModel {
        KeysModel {
            held: assoc(self.held@),
            pending: self.pending,
            shift: self.shift_held,
            down: self.inner.held(),
            backspace_since: self.inner.backspace_since(),
        }
    }

    /// Nothing held, nothing pending.
    pub fn new() -> (r: Keyboard)
        ensures
            r.wf(),
            r.model() == (KeysModel {
                held: Map::empty(),
                pending: None,
                shift: false,
                down: Set::empty(),
                backspace_since: None,
            }),
    {
        let r = Keyboard { inner: CoreKeyboard::new(), shift_held: false, held: Vec::new(), pending: None };
        assert(r.model().held =~= Map::<u32, Keycode>::empty());
        r
    }

    fn find_held(&self, scancode: u32) -> (r: Option<usize>)
        ensures
            r matches Some(i) ==> i < self.held@.len() && self.held@[i as int].0 == scancode,
            r is None ==> forall|i: int| 0 <= i < self.held@.len() ==> self.held@[i].0 != scancode,
    {
        let mut i: usize = 0;
        while i < self.held.len()
            invariant
                i <= self.held@.len(),
                forall|j: int| 0 <= j < i ==> self.held@[j].0 != scancode,
            decreases self.held@.len() - i,
        {
            if self.held[i].0 == scancode {
                return Some(i);
            }
            i += 1;
        }
        None
    }

    /// Takes the entry for `scancode` out of `held`, if there is one.
    fn take_held(&mut self, scancode: u32) -> (r: Option<Keycode>)
        requires
            old(self).wf(),
        ensures
            final(self).wf(),
            final(self).inner == old(self).inner,
            final(self).shift_held == old(self).shift_held,
            final(self).pending == old(self).pending,
            assoc(old(self).held@).contains_key(scancode) ==>
                r == Some(assoc(old(self).held@)[scancode]),
            !assoc(old(self).held@).contains_key(scancode) ==> r is None,
            assoc(final(self).held@) == assoc(old(self).held@).remove(scancode),
    {
        proof {
            
            lemma_assoc_lookup(self.held@);
        }
        match self.find_held(scancode) {
            Some(i) => {
                let ghost before = self.held@;
                let mut held: Vec<(u32, Keycode)> = Vec::new();
                std::mem::swap(&mut held, &mut self.held);
                let (_, k) = held.remove(i);
                proof {
                    lemma_assoc_remove(before, i as int);
                    assert(held@ =~= before.remove(i as int));
                    assert forall|a: int, b: int| 0 <= a < b < held@.len() implies
                        held@[a].0 != held@[b].0 by {
                        let a0 = if a < i { a } else { a + 1 };
                        let b0 = if b < i { b } else { b + 1 };
                        assert(held@[a] == before[a0] && held@[b] == before[b0]);
                    }
                }
                self.held = held;
                Some(k)
            },
            None => {
                assert(assoc(self.held@).remove(scancode) =~= assoc(self.held@));
                None
            },
        }
    }

    /// Commits a resolved press: recorded in `held` for the release to
    /// find, and asserted on the emulated keyboard.
    fn commit(&mut self, scancode: u32, k: Keycode, now_ms: u64)
        requires
            old(self).wf(),
        ensures
            final(self).wf(),
            final(self).model() == model_commit(old(self).model(), scancode, k, now_ms),
    {
        if k == Keycode::LShift || k == Keycode::RShift {
            self.shift_held = true;
        }
        let _ = self.take_held(scancode);
        let ghost before = self.held@;
        proof {  lemma_assoc_lookup(before); }
        let mut held: Vec<(u32, Keycode)> = Vec::new();
        std::mem::swap(&mut held, &mut self.held);
        held.push((scancode, k));
        proof {
            assert(held@.drop_last() =~= before);
            assert forall|a: int, b: int| 0 <= a < b < held@.len() implies held@[a].0 != held@[b].0 by {
                if b == before.len() {
                    assert(!assoc(before).contains_key(scancode));
                    assert(held@[a] == before[a]);
                }
            }
        }
        self.held = held;
        self.inner.key_down(k, now_ms);
        assert(self.model().held =~= old(self).model().held.insert(scancode, k));
    }

    /// Commits a press still waiting for text, with its fallback key.
    fn flush_pending(&mut self, now_ms: u64)
        requires
            old(self).wf(),
        ensures
            final(self).wf(),
            final(self).model() == model_flush(old(self).model(), now_ms),
    {
        match self.pending.take() {
            Some((scancode, fallback)) => {
                let k = self.fixup_less_greater(fallback);
                self.commit(scancode, k, now_ms);
            },
            None => {},
        }
    }

    fn fixup_less_greater(&self, k: Keycode) -> (r: Keycode)
        ensures
            r == fixup_less_greater(self.shift_held, k),
    {
        if k == Keycode::Less && self.shift_held {
            Keycode::Greater
        } else {
            k
        }
    }

    /// Handles one host keyboard event arriving at time `now_ms`.
    pub fn handle_event(&mut self, event: &KeyEvent, now_ms: u64)
        requires
            old(self).wf(),
        ensures
            final(self).wf(),
            final(self).model() == model_step(old(self).model(), *event, now_ms),
    {
        match event {
            KeyEvent::KeyDown { scancode, key } => {
                self.flush_pending(now_ms);
                match key {
                    None => {},
                    Some(k) => {
                        if is_text_key(*k) {
                            self.pending = Some((*scancode, *k));
                            } else {
                            self.commit(*scancode, *k, now_ms);
                            }
                    },
                }
            },
            KeyEvent::TextInput { text } => {
                match self.pending.take() {
                    Some((scancode, fallback)) => {
                        let k = match from_text(text.as_str()) {
                            Some(k) => k,
                            None => fallback,
                        };
                        self.commit(scancode, k, now_ms);
                    },
                    None => {},
                }
            },
            KeyEvent::KeyUp { scancode } => {
                self.flush_pending(now_ms);
                match self.take_held(*scancode) {
                    Some(k) => {
                        if k == Keycode::LShift || k == Keycode::RShift {
                            self.shift_held = false;
                        }
                        self.inner.key_up(k);
                    },
                    None => {},
                }
            },
            KeyEvent::FocusLost => {
                self.pending = None;
                self.held = Vec::new();
                self.inner.clear();
                self.shift_held = false;
                assert(self.model().held =~= Map::<u32, Keycode>::empty());
            },
            KeyEvent::Other => {},
        }
        assert(self.model() =~= model_step(old(self).model(), *event, now_ms));
    }

    /// Presses `k` on the emulated keyboard directly, as the virtual
    /// keyboard does: no physical key is involved.
    pub fn virtual_key_down(&mut self, k: Keycode, now_ms: u64)
        requires
            old(self).wf(),
        ensures
            final(self).wf(),
            final(self).model() == (KeysModel {
                down: old(self).model().down.insert(k),
                backspace_since: if k == Keycode::Backspace && old(self).model().backspace_since is None {
                    Some(now_ms) } else { old(self).model().backspace_since },
                ..old(self).model()
            }),
    {
        self.inner.key_down(k, now_ms);
        assert(self.model().held =~= old(self).model().held);
    }

    /// Releases `k` on the emulated keyboard directly.
    pub fn virtual_key_up(&mut self, k: Keycode)
        requires
            old(self).wf(),
        ensures
            final(self).wf(),
            final(self).model() == (KeysModel {
                down: old(self).model().down.remove(k),
                backspace_since: if k == Keycode::Backspace { None } else { old(self).model().backspace_since },
                ..old(self).model()
            }),
    {
        self.inner.key_up(k);
        assert(self.model().held =~= old(self).model().held);
    }

    /// Brings the emulated keyboard from the virtual keys held in the last
    /// frame (`before`) to those held in this one (`now`), at time `now_ms`:
    /// releases the keys no longer held, then presses the keys newly held.
    /// Keys held in both frames, and the physical keys, are left alone.
    pub fn sync_virtual_keys(&mut self, before: &[Keycode], now: &[Keycode], now_ms: u64)
        requires
            old(self).wf(),
        ensures
            final(self).wf(),
            final(self).model() == virtual_keys_synced(old(self).model(), before@, now@, now_ms),
    {
        let ghost start = self.model();
        let mut i: usize = 0;
        while i < before.len()
            invariant
                i <= before@.len(),
                self.wf(),
                self.model() == (KeysModel {
                    down: start.down.difference(released_keys(before@.subrange(0, i as int), now@)),
                    backspace_since: if released_keys(before@.subrange(0, i as int), now@).contains(
                        Keycode::Backspace) { None } else { start.backspace_since },
                    ..start
                }),
            decreases before@.len() - i,
        {
            let k = before[i];
            if !holds_key(now, k) {
                self.virtual_key_up(k);
            }
            assert(released_keys(before@.subrange(0, i + 1), now@) =~= if now@.contains(k) {
                released_keys(before@.subrange(0, i as int), now@)
            } else {
                released_keys(before@.subrange(0, i as int), now@).insert(k)
            }) by {
                lemma_prefix_contains(before@, i as int);
            }
            assert(self.model().down =~= start.down.difference(released_keys(before@.subrange(0, i + 1), now@)));
            i += 1;
        }
        assert(before@.subrange(0, before@.len() as int) =~= before@);
        let ghost mid = self.model();
        let mut j: usize = 0;
        while j < now.len()
            invariant
                j <= now@.len(),
                self.wf(),
                self.model() == (KeysModel {
                    down: mid.down.union(pressed_keys(before@, now@.subrange(0, j as int))),
                    backspace_since: if pressed_keys(before@, now@.subrange(0, j as int)).contains(
                        Keycode::Backspace) && mid.backspace_since is None { Some(now_ms) } else {
                        mid.backspace_since },
                    ..mid
                }),
            decreases now@.len() - j,
        {
            let k = now[j];
            if !holds_key(before, k) {
                self.virtual_key_down(k, now_ms);
            }
            assert(pressed_keys(before@, now@.subrange(0, j + 1)) =~= if before@.contains(k) {
                pressed_keys(before@, now@.subrange(0, j as int))
            } else {
                pressed_keys(before@, now@.subrange(0, j as int)).insert(k)
            }) by {
                lemma_prefix_contains(now@, j as int);
            }
            assert(self.model().down =~= mid.down.union(pressed_keys(before@, now@.subrange(0, j + 1))));
            j += 1;
        }
        assert(now@.subrange(0, now@.len() as int) =~= now@);
        assert(!(released_keys(before@, now@).contains(Keycode::Backspace)
            && pressed_keys(before@, now@).contains(Keycode::Backspace)));
        assert(self.model() =~= virtual_keys_synced(start, before@, now@, now_ms));
    }

    /// Writes the emulated keyboard's matrix to the bus for time `now_ms`.
    pub fn update(&mut self, bus: &mut TrsBus, now_ms: u64)
        requires
            old(self).wf(),
        ensures
            final(self).model() == old(self).model(),
            final(self).wf(),
            final(bus).rom() == old(bus).rom(),
            final(bus).tape == old(bus).tape,
            final(bus).debug_io == old(bus).debug_io,
            exists|rows: Seq<u8>| {
                &&& rows.len() == 8
                &&& (forall|r: int, c: int| #![trigger rows[r], crate::keyboard::bit_of(c)]
                    0 <= r < 8 && 0 <= c < 8 ==>
                    (rows[r] & crate::keyboard::bit_of(c) != 0) == crate::keyboard::row_bits_asserted(
                        old(self).model().down,
                        crate::keyboard::backspace_asserted(old(self).model().backspace_since, now_ms),
                        crate::keyboard::row_address(r),
                        crate::keyboard::bit_of(c),
                    ))
                &&& final(bus).memory() == crate::keyboard::matrix_written(
                    old(bus).memory(), old(bus).rom(), rows)
            },
    {
        self.inner.update(bus, now_ms);
    }
}

/// A press of a key that types no text (arrows, Return, SHIFT...) on a
/// physical key not already down, followed by its release, with nothing
/// pending, leaves the held keys, the SHIFT state and the emulated keyboard's
/// held keys as they were.
pub proof fn lemma_press_release_restores(m: KeysModel, scancode: u32, k: Keycode, t0: u64, t1: u64)
    requires
        m.pending is None,
        !spec_is_text_key(k),
        !m.held.contains_key(scancode),
        !m.down.contains(k),
        !is_shift_key(k) || !m.shift,
    ensures
        ({
            let after = model_step(
                model_step(m, KeyEvent::KeyDown { scancode, key: Some(k) }, t0),
                KeyEvent::KeyUp { scancode },
                t1,
            );
            &&& after.held == m.held
            &&& after.down == m.down
            &&& after.shift == m.shift
            &&& after.pending is None
        }),
{
    let pressed = model_step(m, KeyEvent::KeyDown { scancode, key: Some(k) }, t0);
    assert(pressed == model_commit(m, scancode, k, t0));
    assert(pressed.held.contains_key(scancode) && pressed.held[scancode] == k);
    assert(pressed.held.remove(scancode) =~= m.held);
    assert(pressed.down.remove(k) =~= m.down);
}

/// The keyboard goes by the character typed, not by the key's position: a
/// press of a character key followed by the text the host composed for it,
/// a single character of the TRS-80's keyboard, holds that character's key
/// on the emulated keyboard, whatever key code the host reported, until the
/// physical key goes up.
pub proof fn lemma_typed_character_is_held(
    m: KeysModel,
    scancode: u32,
    reported: Keycode,
    text: String,
    t0: u64,
    t1: u64,
)
    requires
        m.pending is None,
        spec_is_text_key(reported),
        text@.len() == 1,
        char_key(text@[0]) is Some,
    ensures
        ({
            let k = char_key(text@[0]).unwrap();
            let pressed = model_step(m, KeyEvent::KeyDown { scancode, key: Some(reported) }, t0);
            let typed = model_step(pressed, KeyEvent::TextInput { text }, t1);
            &&& pressed.down == m.down
            &&& typed.down == m.down.insert(k)
            &&& typed.held == m.held.insert(scancode, k)
            &&& typed.pending is None
        }),
{
}

/// The character that types `k`, for a key that types one (its upper-case
/// form for a letter).
pub open spec fn key_char(k: Keycode) -> char {
    match k {
        Keycode::A => 'A',
        Keycode::B => 'B',
        Keycode::C => 'C',
        Keycode::D => 'D',
        Keycode::E => 'E',
        Keycode::F => 'F',
        Keycode::G => 'G',
        Keycode::H => 'H',
        Keycode::I => 'I',
        Keycode::J => 'J',
        Keycode::K => 'K',
        Keycode::L => 'L',
        Keycode::M => 'M',
        Keycode::N => 'N',
        Keycode::O => 'O',
        Keycode::P => 'P',
        Keycode::Q => 'Q',
        Keycode::R => 'R',
        Keycode::S => 'S',
        Keycode::T => 'T',
        Keycode::U => 'U',
        Keycode::V => 'V',
        Keycode::W => 'W',
        Keycode::X => 'X',
        Keycode::Y => 'Y',
        Keycode::Z => 'Z',
        Keycode::Num0 => '0',
        Keycode::Num1 => '1',
        Keycode::Num2 => '2',
        Keycode::Num3 => '3',
        Keycode::Num4 => '4',
        Keycode::Num5 => '5',
        Keycode::Num6 => '6',
        Keycode::Num7 => '7',
        Keycode::Num8 => '8',
        Keycode::Num9 => '9',
        Keycode::At => '@',
        Keycode::Exclaim => '!',
        Keycode::Quotedbl => '"',
        Keycode::Hash => '#',
        Keycode::Dollar => '$',
        Keycode::Percent => '%',
        Keycode::Ampersand => '&',
        Keycode::Quote => '\'',
        Keycode::LeftParen => '(',
        Keycode::RightParen => ')',
        Keycode::Colon => ':',
        Keycode::Asterisk => '*',
        Keycode::Semicolon => ';',
        Keycode::Plus => '+',
        Keycode::Comma => ',',
        Keycode::Less => '<',
        Keycode::Minus => '-',
        Keycode::Equals => '=',
        Keycode::Period => '.',
        Keycode::Greater => '>',
        Keycode::Slash => '/',
        Keycode::Question => '?',
        _ => ' ',
    }
}

/// The keys whose host key code is not trusted alone are exactly those that
/// some composed text resolves to: the keys typing one character.
pub proof fn lemma_text_keys_are_typed_characters(k: Keycode)
    ensures
        spec_is_text_key(k) <==> exists|text: Seq<char>| spec_from_text(text) == Some(k),
{
    if spec_is_text_key(k) {
        let t = seq![key_char(k)];
        assert(t.len() == 1 && t[0] == key_char(k));
        assert(spec_from_text(t) == Some(k));
    }
    assert forall|text: Seq<char>| spec_from_text(text) == Some(k) implies spec_is_text_key(k) by {
        assert(char_key(text[0]) == Some(k));
    }
}

/// Two to the power `e`, for a bit index `e` from 0 to 7.
pub open spec fn bit_value(e: int) -> int {
    if e == 0 { 1 } else if e == 1 { 2 } else if e == 2 { 4 } else if e == 3 { 8 } else if e == 4 { 16 }
    else if e == 5 { 32 } else if e == 6 { 64 } else { 128 }
}

/// The ASCII code of `c`, letters in upper case.
pub open spec fn upper_code(c: char) -> int {
    if 'a' <= c && c <= 'z' { c as int - 32 } else { c as int }
}

/// Where the Model I keyboard has the character of ASCII code `code` (from
/// `!` to `Z`): its matrix row address, its bit in the row, and whether
/// SHIFT goes with it. `@` and the letters fill rows 0 to 3 in code order;
/// the digits and `: ; , - . /` fill rows 4 and 5, `0` first; the other
/// punctuation is SHIFT with the key whose code differs in bit 4 (`!` on
/// `1`, `(` on `8`, `*` on `:`, `<` on `,`, `?` on `/`).
pub open spec fn ascii_position(code: int) -> (u16, u8, bool) {
    let index = if code >= 0x40 { code - 0x40 } else { 32 + (code - 0x20) % 16 };
    let shifted = (0x20 <= code <= 0x2B) || (0x3C <= code <= 0x3F);
    ((0x3800 + bit_value(index / 8)) as u16, bit_value(index % 8) as u8, shifted)
}

/// The TRS-80's characters are the ASCII codes from `!` to `Z` (letters in
/// either case): the composed text of exactly those resolves to a key, and
/// that key sits on the matrix where the Model I has that character.
pub proof fn lemma_typed_characters_sit_where_the_trs80_has_them(c: char)
    ensures
        char_key(c) is Some <==> (0x21 <= c as int <= 0x5A || 0x61 <= c as int <= 0x7A),
        char_key(c) matches Some(k) ==> crate::keyboard::spec_key_target(k) == Some(ascii_position(upper_code(c))),
{
}

proof fn lemma_ascii_position_injective(a: int, b: int)
    requires
        0x21 <= a <= 0x5A,
        0x21 <= b <= 0x5A,
        ascii_position(a) == ascii_position(b),
    ensures
        a == b,
{
}

/// No two keys that type different characters share a matrix position:
/// keys typing characters sit each on a position of its own.
pub proof fn lemma_text_keys_have_distinct_positions(k1: Keycode, k2: Keycode)
    requires
        spec_is_text_key(k1),
        spec_is_text_key(k2),
        crate::keyboard::spec_key_target(k1) == crate::keyboard::spec_key_target(k2),
    ensures
        k1 == k2,
{
    let c1 = key_char(k1);
    let c2 = key_char(k2);
    assert(char_key(c1) == Some(k1));
    assert(char_key(c2) == Some(k2));
    lemma_typed_characters_sit_where_the_trs80_has_them(c1);
    lemma_typed_characters_sit_where_the_trs80_has_them(c2);
    assert(upper_code(c1) == c1 as int && upper_code(c2) == c2 as int);
    lemma_ascii_position_injective(c1 as int, c2 as int);
}

} // verus!
