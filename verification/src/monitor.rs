//! The monitor's command language: a typed command line becomes a
//! `MonitorMessage`, a command and its two textual arguments.

use vstd::prelude::*;
use crate::text::{is_white_space, is_ws, str_chars, string_of};

verus! {

/// What a command line asks for.
#[derive(Debug, Clone, Copy, PartialEq, Eq, Structural)]
pub enum MonitorCmd {
    Help,
    Unknown,
    Reset,
    PowerCycle,
    Tape,
    Disassemble,
    ReadMem,
    WriteMem,
    Jump,
    ListBreakpoints,
    AddBreakpoint,
    RemoveBreakpoint,
    /// Halts execution immediately ("p"), independently of any breakpoint.
    Pause,
    Resume,
    /// Executes exactly one instruction while paused ("n").
    Step,
    Registers,
    /// Reports on peripherals outside the CPU and memory (the cassette).
    Hardware,
}

/// A command and its first two arguments (empty where absent).
pub type MonitorMessage = (MonitorCmd, String, String);

/// One step of splitting on white space: the words finished so far, and
/// the word being read.
pub open spec fn split_step(st: (Seq<Seq<char>>, Seq<char>), c: char) -> (Seq<Seq<char>>, Seq<char>) {
    if is_white_space(c) {
        if st.1.len() > 0 { (st.0.push(st.1), Seq::empty()) } else { st }
    } else {
        (st.0, st.1.push(c))
    }
}

/// The state after reading all of `s` from left to right.
pub open spec fn split_scan(s: Seq<char>) -> (Seq<Seq<char>>, Seq<char>)
    decreases s.len(),
{
    if s.len() == 0 {
        (Seq::empty(), Seq::empty())
    } else {
        split_step(split_scan(s.drop_last()), s.last())
    }
}

/// The words of `s`: its maximal runs of non-white-space characters, in
/// order (what `str::split_whitespace` yields).
pub open spec fn words(s: Seq<char>) -> Seq<Seq<char>> {
    let st = split_scan(s);
    if st.1.len() > 0 { st.0.push(st.1) } else { st.0 }
}

/// The `i`-th word of `s`, or the empty text if it has fewer words.
pub open spec fn word(s: Seq<char>, i: int) -> Seq<char> {
    if 0 <= i < words(s).len() { words(s)[i] } else { Seq::empty() }
}

proof fn lemma_scan_words_clean(s: Seq<char>)
    ensures
        forall|i: int| 0 <= i < split_scan(s).0.len() ==> {
            &&& (#[trigger] split_scan(s).0[i]).len() > 0
            &&& forall|j: int| 0 <= j < split_scan(s).0[i].len() ==> !is_white_space(split_scan(s).0[i][j])
        },
        forall|j: int| 0 <= j < split_scan(s).1.len() ==> !is_white_space(#[trigger] split_scan(s).1[j]),
    decreases s.len(),
{
    if s.len() > 0 {
        lemma_scan_words_clean(s.drop_last());
        let p = split_scan(s.drop_last());
        let q = split_scan(s);
        assert forall|i: int| 0 <= i < q.0.len() implies {
            &&& (#[trigger] q.0[i]).len() > 0
            &&& forall|j: int| 0 <= j < q.0[i].len() ==> !is_white_space(q.0[i][j])
        } by {
            if i < p.0.len() {
                assert(q.0[i] == p.0[i]);
            } else {
                assert(q.0[i] == p.1);
            }
        }
        assert forall|j: int| 0 <= j < q.1.len() implies !is_white_space(#[trigger] q.1[j]) by {
            if !is_white_space(s.last()) && j == q.1.len() - 1 {
                assert(q.1[j] == s.last());
            } else if !is_white_space(s.last()) {
                assert(q.1[j] == p.1[j]);
            }
        }
    }
}

/// The words of a line are what a command reads as its name and arguments:
/// none is empty, and none holds white space.
pub proof fn lemma_words_are_clean(s: Seq<char>)
    ensures
        forall|i: int| 0 <= i < words(s).len() ==> {
            &&& (#[trigger] words(s)[i]).len() > 0
            &&& forall|j: int| 0 <= j < words(s)[i].len() ==> !is_white_space(words(s)[i][j])
        },
{
    lemma_scan_words_clean(s);
    let st = split_scan(s);
    assert forall|i: int| 0 <= i < words(s).len() implies {
        &&& (#[trigger] words(s)[i]).len() > 0
        &&& forall|j: int| 0 <= j < words(s)[i].len() ==> !is_white_space(words(s)[i][j])
    } by {
        if i < st.0.len() {
            assert(words(s)[i] == st.0[i]);
        } else {
            assert(words(s)[i] == st.1);
        }
    }
}

/// The command that a command word names, given the two argument words.
pub open spec fn command_of(cmd: Seq<char>, arg: Seq<char>, arg2: Seq<char>) -> MonitorCmd {
    if cmd == "h"@ || cmd == "help"@ {
        MonitorCmd::Help
    } else if cmd == "reset"@ {
        MonitorCmd::Reset
    } else if cmd == "powercycle"@ || cmd == "pc"@ {
        MonitorCmd::PowerCycle
    } else if cmd == "tape"@ {
        MonitorCmd::Tape
    } else if cmd == "d"@ {
        MonitorCmd::Disassemble
    } else if cmd == "j"@ {
        MonitorCmd::Jump
    } else if cmd == "f"@ {
        MonitorCmd::RemoveBreakpoint
    } else if cmd == "b"@ {
        if arg.len() == 0 { MonitorCmd::ListBreakpoints } else { MonitorCmd::AddBreakpoint }
    } else if cmd == "m"@ {
        if arg2.len() == 0 { MonitorCmd::ReadMem } else { MonitorCmd::WriteMem }
    } else if cmd == "p"@ {
        MonitorCmd::Pause
    } else if cmd == "g"@ {
        MonitorCmd::Resume
    } else if cmd == "n"@ {
        MonitorCmd::Step
    } else if cmd == "r"@ {
        MonitorCmd::Registers
    } else if cmd == "hw"@ {
        MonitorCmd::Hardware
    } else {
        MonitorCmd::Unknown
    }
}

/// The words of `s`, computed as `split_scan` describes.
pub(crate) fn split_words_of(s: &[char]) -> (r: Vec<Vec<char>>)
    ensures
        r@.len() == words(s@).len(),
        forall|i: int| 0 <= i < r@.len() ==> #[trigger] r@[i]@ == words(s@)[i],
{
    let mut done: Vec<Vec<char>> = Vec::new();
    let mut cur: Vec<char> = Vec::new();
    let mut i: usize = 0;
    while i < s.len()
        invariant
            i <= s@.len(),
            done@.len() == split_scan(s@.subrange(0, i as int)).0.len(),
            forall|j: int| 0 <= j < done@.len() ==>
                #[trigger] done@[j]@ == split_scan(s@.subrange(0, i as int)).0[j],
            cur@ == split_scan(s@.subrange(0, i as int)).1,
        decreases s@.len() - i,
    {
        let c = s[i];
        assert(s@.subrange(0, i + 1).drop_last() =~= s@.subrange(0, i as int));
        if is_ws(c) {
            if cur.len() > 0 {
                let w = cur;
                done.push(w);
                cur = Vec::new();
            }
        } else {
            cur.push(c);
        }
        i += 1;
    }
    assert(s@.subrange(0, s@.len() as int) =~= s@);
    if cur.len() > 0 {
        done.push(cur);
    }
    done
}

/// Whether the characters `v` spell `t`.
pub(crate) fn chars_eq(v: &[char], t: &str) -> (r: bool)
    ensures
        r == (v@ == t@),
{
    let w = str_chars(t);
    if v.len() != w.len() {
        return false;
    }
    let mut i: usize = 0;
    while i < v.len()
        invariant
            i <= v@.len(),
            v@.len() == w@.len(),
            w@ == t@,
            forall|j: int| 0 <= j < i ==> v@[j] == w@[j],
        decreases v@.len() - i,
    {
        if v[i] != w[i] {
            return false;
        }
        i += 1;
    }
    assert(v@ =~= w@);
    true
}

/// Translates a typed command line into a `MonitorMessage`: its first word
/// names the command, the next two are its arguments.
pub fn parse_command(line: &str) -> (r: MonitorMessage)
    ensures
        r.1@ == word(line@, 1),
        r.2@ == word(line@, 2),
        r.0 == command_of(word(line@, 0), word(line@, 1), word(line@, 2)),
{
    let cs = str_chars(line);
    let ws = split_words_of(cs.as_slice());
    let empty: Vec<char> = Vec::new();
    let cmd: &Vec<char> = if ws.len() > 0 { &ws[0] } else { &empty };
    let arg_v: &Vec<char> = if ws.len() > 1 { &ws[1] } else { &empty };
    let arg2_v: &Vec<char> = if ws.len() > 2 { &ws[2] } else { &empty };
    assert(cmd@ == word(line@, 0));
    assert(arg_v@ == word(line@, 1));
    assert(arg2_v@ == word(line@, 2));
    let arg = string_of(arg_v.as_slice());
    let arg2 = string_of(arg2_v.as_slice());
    let c = cmd.as_slice();
    let command = if chars_eq(c, "h") || chars_eq(c, "help") {
        MonitorCmd::Help
    } else if chars_eq(c, "reset") {
        MonitorCmd::Reset
    } else if chars_eq(c, "powercycle") || chars_eq(c, "pc") {
        MonitorCmd::PowerCycle
    } else if chars_eq(c, "tape") {
        MonitorCmd::Tape
    } else if chars_eq(c, "d") {
        MonitorCmd::Disassemble
    } else if chars_eq(c, "j") {
        MonitorCmd::Jump
    } else if chars_eq(c, "f") {
        MonitorCmd::RemoveBreakpoint
    } else if chars_eq(c, "b") {
        if arg_v.len() == 0 { MonitorCmd::ListBreakpoints } else { MonitorCmd::AddBreakpoint }
    } else if chars_eq(c, "m") {
        if arg2_v.len() == 0 { MonitorCmd::ReadMem } else { MonitorCmd::WriteMem }
    } else if chars_eq(c, "p") {
        MonitorCmd::Pause
    } else if chars_eq(c, "g") {
        MonitorCmd::Resume
    } else if chars_eq(c, "n") {
        MonitorCmd::Step
    } else if chars_eq(c, "r") {
        MonitorCmd::Registers
    } else if chars_eq(c, "hw") {
        MonitorCmd::Hardware
    } else {
        MonitorCmd::Unknown
    };
    (command, arg, arg2)
}

/// Whether `s` is blank: white space only (`str::trim` leaves nothing).
pub open spec fn is_blank(s: Seq<char>) -> bool {
    forall|i: int| 0 <= i < s.len() ==> is_white_space(#[trigger] s[i])
}

/// What the console window sends for a line typed and submitted: nothing
/// for a blank line (it is neither logged nor run), else the parsed command.
pub fn submitted_command(line: &str) -> (r: Option<MonitorMessage>)
    ensures
        r is None <==> is_blank(line@),
        r matches Some(m) ==> {
            &&& m.1@ == word(line@, 1)
            &&& m.2@ == word(line@, 2)
            &&& m.0 == command_of(word(line@, 0), word(line@, 1), word(line@, 2))
        },
{
    let cs = str_chars(line);
    let mut i: usize = 0;
    while i < cs.len()
        invariant
            i <= cs@.len(),
            cs@ == line@,
            forall|j: int| 0 <= j < i ==> is_white_space(#[trigger] cs@[j]),
        decreases cs@.len() - i,
    {
        if !is_ws(cs[i]) {
            return Some(parse_command(line));
        }
        i += 1;
    }
    None
}

/// Words joined with one space between each two: a line in its plainest
/// spacing.
pub open spec fn join_words(ws: Seq<Seq<char>>) -> Seq<char>
    decreases ws.len(),
{
    if ws.len() == 0 {
        Seq::empty()
    } else if ws.len() == 1 {
        ws[0]
    } else {
        join_words(ws.drop_last()) + seq![' '] + ws.last()
    }
}

/// Whether every word of `ws` is a word: not empty, without white space.
pub open spec fn clean_words(ws: Seq<Seq<char>>) -> bool {
    forall|i: int| 0 <= i < ws.len() ==> {
        &&& (#[trigger] ws[i]).len() > 0
        &&& forall|j: int| 0 <= j < ws[i].len() ==> !is_white_space(ws[i][j])
    }
}

/// The splitting state after reading `s` from state `st`.
pub open spec fn split_from(st: (Seq<Seq<char>>, Seq<char>), s: Seq<char>) -> (Seq<Seq<char>>, Seq<char>)
    decreases s.len(),
{
    if s.len() == 0 { st } else { split_step(split_from(st, s.drop_last()), s.last()) }
}

proof fn lemma_split_scan_from_start(s: Seq<char>)
    ensures
        split_scan(s) == split_from((Seq::empty(), Seq::empty()), s),
    decreases s.len(),
{
    if s.len() > 0 {
        lemma_split_scan_from_start(s.drop_last());
    }
}

proof fn lemma_split_from_append(st: (Seq<Seq<char>>, Seq<char>), a: Seq<char>, b: Seq<char>)
    ensures
        split_from(st, a + b) == split_from(split_from(st, a), b),
    decreases b.len(),
{
    if b.len() == 0 {
        assert(a + b =~= a);
    } else {
        assert((a + b).drop_last() =~= a + b.drop_last());
        assert((a + b).last() == b.last());
        lemma_split_from_append(st, a, b.drop_last());
    }
}

proof fn lemma_split_scan_append(a: Seq<char>, b: Seq<char>)
    ensures
        split_scan(a + b) == split_from(split_scan(a), b),
{
    lemma_split_scan_from_start(a + b);
    lemma_split_scan_from_start(a);
    lemma_split_from_append((Seq::empty(), Seq::empty()), a, b);
}

/// A word extends the word being read.
proof fn lemma_split_from_word(d: Seq<Seq<char>>, cur: Seq<char>, w: Seq<char>)
    requires
        forall|j: int| 0 <= j < w.len() ==> !is_white_space(w[j]),
    ensures
        split_from((d, cur), w) == (d, cur + w),
    decreases w.len(),
{
    if w.len() == 0 {
        assert(cur + w =~= cur);
    } else {
        lemma_split_from_word(d, cur, w.drop_last());
        assert(!is_white_space(w[w.len() - 1]));
        assert((cur + w.drop_last()).push(w.last()) =~= cur + w);
    }
}

proof fn lemma_split_of_join(ws: Seq<Seq<char>>)
    requires
        ws.len() > 0,
        clean_words(ws),
    ensures
        split_scan(join_words(ws)) == (ws.drop_last(), ws.last()),
    decreases ws.len(),
{
    if ws.len() == 1 {
        lemma_split_scan_from_start(ws[0]);
        assert(ws[0].len() > 0);
        lemma_split_from_word(Seq::empty(), Seq::empty(), ws[0]);
        assert(Seq::<char>::empty() + ws[0] =~= ws[0]);
        assert(ws.drop_last() =~= Seq::<Seq<char>>::empty());
        assert(ws.last() == ws[0]);
    } else {
        let front = ws.drop_last();
        assert(clean_words(front)) by {
            assert forall|i: int| 0 <= i < front.len() implies {
                &&& (#[trigger] front[i]).len() > 0
                &&& forall|j: int| 0 <= j < front[i].len() ==> !is_white_space(front[i][j])
            } by {
                assert(front[i] == ws[i]);
            }
        }
        lemma_split_of_join(front);
        let j = join_words(front);
        assert(join_words(ws) == j + seq![' '] + ws.last());
        lemma_split_scan_append(j + seq![' '], ws.last());
        lemma_split_scan_append(j, seq![' ']);
        let sp = seq![' '];
        assert(sp.drop_last() =~= Seq::<char>::empty());
        assert(sp.last() == ' ');
        assert(is_white_space(' '));
        assert(split_from(split_scan(j), Seq::<char>::empty()) == split_scan(j));
        assert(split_from(split_scan(j), sp) == split_step(split_scan(j), ' '));
        assert(front.last() == ws[ws.len() - 2]);
        assert(front.last().len() > 0);
        assert(front.drop_last().push(front.last()) =~= front);
        assert(split_scan(j + sp) == (front, Seq::<char>::empty()));
        assert(ws[ws.len() - 1] == ws.last());
        lemma_split_from_word(front, Seq::empty(), ws.last());
        assert(Seq::<char>::empty() + ws.last() =~= ws.last());
    }
}

/// Joining clean words with single spaces and splitting the result gives
/// the words back.
pub proof fn lemma_words_of_join(ws: Seq<Seq<char>>)
    requires
        clean_words(ws),
    ensures
        words(join_words(ws)) == ws,
{
    if ws.len() == 0 {
        assert(join_words(ws) =~= Seq::<char>::empty());
        assert(words(join_words(ws)) =~= ws);
    } else {
        lemma_split_of_join(ws);
        assert(ws.last() == ws[ws.len() - 1]);
        assert(ws.drop_last().push(ws.last()) =~= ws);
    }
}

/// White space never changes what a command line means: a line and the same
/// words joined with single spaces (the line with its spacing, tabs and
/// leading and trailing white space normalised) have the same words, so
/// `parse_command` reads the same command and the same two arguments from
/// both.
pub proof fn lemma_spacing_does_not_matter(line: Seq<char>)
    ensures
        words(join_words(words(line))) == words(line),
        word(join_words(words(line)), 0) == word(line, 0),
        word(join_words(words(line)), 1) == word(line, 1),
        word(join_words(words(line)), 2) == word(line, 2),
{
    lemma_words_are_clean(line);
    lemma_words_of_join(words(line));
}

} // verus!
