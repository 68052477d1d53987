//! The configuration file (`~/.config/trust80/config.toml`): its sections,
//! and how one section is rewritten in place, leaving the rest of the file,
//! comments included, as it was.

use vstd::prelude::*;
use crate::text::{is_white_space, is_ws, push_char, str_chars};

verus! {

/// Why the configuration could not be read or written.
#[derive(Debug, Clone, Copy, PartialEq, Eq, Structural)]
pub enum ConfigError {
    ConfigFile,
    ConfigFileFmt,
    IOError,
}

impl ConfigError {
    /// The message that the error displays.
    pub open spec fn spec_message(self) -> Seq<char> {
        match self {
            ConfigError::ConfigFile => "Can't load config file"@,
            ConfigError::ConfigFileFmt => "Bad config file format"@,
            ConfigError::IOError => "I/O error"@,
        }
    }

    /// The message that the error displays.
    pub fn to_string(&self) -> (s: String)
        ensures
            s@ == self.spec_message(),
    {
        broadcast use vstd::string::group_string_axioms;
        match self {
            ConfigError::ConfigFile => "Can't load config file".to_string(),
            ConfigError::ConfigFileFmt => "Bad config file format".to_string(),
            ConfigError::IOError => "I/O error".to_string(),
        }
    }
}

/// The `[display]` section.
#[derive(Debug, Clone, PartialEq, Eq, Default)]
pub struct ScreenConfig {
    /// Zoom level applied at startup: "half", "normal", "x2" or
    /// "fullscreen"; absent or unrecognized means "normal".
    pub default_zoom: Option<String>,
}

/// The `[memory]` section.
#[derive(Debug, Clone, PartialEq, Eq)]
pub struct MemConfig {
    /// The ROM image's path.
    pub rom: String,
    /// The top of RAM.
    pub ram: u16,
}

/// The `[storage]` section.
#[derive(Debug, Clone, PartialEq, Eq)]
pub struct StorageConfig {
    /// The directory that `tape` commands load from.
    pub tape_path: String,
}

/// The `[debug]` section.
#[derive(Debug, Clone, PartialEq, Eq)]
pub struct Debug {
    /// Whether I/O port accesses are traced.
    pub iodevices: Option<bool>,
}

/// `s` without a trailing carriage return.
pub open spec fn strip_cr(s: Seq<char>) -> Seq<char> {
    if s.len() > 0 && s.last() == '\r' { s.drop_last() } else { s }
}

/// One step of cutting text into lines: the lines finished so far, and the
/// line being read.
pub open spec fn lines_step(st: (Seq<Seq<char>>, Seq<char>), c: char) -> (Seq<Seq<char>>, Seq<char>) {
    if c == '\n' { (st.0.push(strip_cr(st.1)), Seq::empty()) } else { (st.0, st.1.push(c)) }
}

pub open spec fn lines_scan(s: Seq<char>) -> (Seq<Seq<char>>, Seq<char>)
    decreases s.len(),
{
    if s.len() == 0 {
        (Seq::empty(), Seq::empty())
    } else {
        lines_step(lines_scan(s.drop_last()), s.last())
    }
}

/// The lines of `s`, as `str::lines` gives them: cut at each `\n` (a `\r`
/// just before it dropped), no empty line after a final `\n`.
pub open spec fn text_lines(s: Seq<char>) -> Seq<Seq<char>> {
    let st = lines_scan(s);
    if st.1.len() > 0 { st.0.push(st.1) } else { st.0 }
}

/// `s` without leading white space.
pub open spec fn trim_start(s: Seq<char>) -> Seq<char>
    decreases s.len(),
{
    if s.len() > 0 && is_white_space(s[0]) { trim_start(s.drop_first()) } else { s }
}

/// `s` without trailing white space.
pub open spec fn trim_end(s: Seq<char>) -> Seq<char>
    decreases s.len(),
{
    if s.len() > 0 && is_white_space(s.last()) { trim_end(s.drop_last()) } else { s }
}

/// `s` without white space at either end.
pub open spec fn trim(s: Seq<char>) -> Seq<char> {
    trim_end(trim_start(s))
}

/// One step of dropping a section: the lines kept so far, and whether the
/// lines read belong to the dropped section (from its header up to the next
/// line that opens another section).
pub open spec fn section_step(st: (Seq<Seq<char>>, bool), line: Seq<char>, header: Seq<char>) -> (Seq<Seq<char>>, bool) {
    let t = trim(line);
    if t == header {
        (st.0, true)
    } else if st.1 && !(t.len() > 0 && t[0] == '[') {
        (st.0, true)
    } else {
        (st.0.push(line), false)
    }
}

pub open spec fn section_scan(lines: Seq<Seq<char>>, header: Seq<char>) -> (Seq<Seq<char>>, bool)
    decreases lines.len(),
{
    if lines.len() == 0 {
        (Seq::empty(), false)
    } else {
        section_step(section_scan(lines.drop_last(), header), lines.last(), header)
    }
}

/// `lines` without the trailing lines that are blank.
pub open spec fn drop_blank_tail(lines: Seq<Seq<char>>) -> Seq<Seq<char>>
    decreases lines.len(),
{
    if lines.len() > 0 && trim(lines.last()).len() == 0 { drop_blank_tail(lines.drop_last()) } else { lines }
}

/// `lines` joined with `\n` between them.
pub open spec fn join_lines(lines: Seq<Seq<char>>) -> Seq<char>
    decreases lines.len(),
{
    if lines.len() == 0 {
        Seq::empty()
    } else if lines.len() == 1 {
        lines[0]
    } else {
        join_lines(lines.drop_last()) + seq!['\n'] + lines.last()
    }
}

/// The header line of section `section`.
pub open spec fn section_header(section: Seq<char>) -> Seq<char> {
    seq!['['] + section + seq![']']
}

/// The lines of `content` that `replace_section` keeps.
pub open spec fn kept_lines(content: Seq<char>, section: Seq<char>) -> Seq<Seq<char>> {
    drop_blank_tail(section_scan(text_lines(content), section_header(section)).0)
}

/// The text that `replace_section` gives: the kept lines, a blank line,
/// then the section's header and its new body.
pub open spec fn spec_replace_section(content: Seq<char>, section: Seq<char>, body: Seq<char>) -> Seq<char> {
    let joined = join_lines(kept_lines(content, section));
    (if joined.len() > 0 { joined + seq!['\n', '\n'] } else { Seq::empty() })
        + section_header(section) + seq!['\n'] + trim_end(body) + seq!['\n']
}

proof fn lemma_trim_start_skip(s: Seq<char>, i: int)
    requires
        0 <= i <= s.len(),
        forall|j: int| 0 <= j < i ==> is_white_space(s[j]),
    ensures
        trim_start(s) == trim_start(s.subrange(i, s.len() as int)),
    decreases i,
{
    if i > 0 {
        assert(s.drop_first().subrange(i - 1, s.drop_first().len() as int) =~= s.subrange(i, s.len() as int));
        lemma_trim_start_skip(s.drop_first(), i - 1);
    } else {
        assert(s.subrange(0, s.len() as int) =~= s);
    }
}

proof fn lemma_trim_end_cut(s: Seq<char>, k: int)
    requires
        0 <= k <= s.len(),
        forall|j: int| k <= j < s.len() ==> is_white_space(s[j]),
    ensures
        trim_end(s) == trim_end(s.subrange(0, k)),
    decreases s.len() - k,
{
    if k < s.len() {
        assert(s.drop_last().subrange(0, k) =~= s.subrange(0, k));
        lemma_trim_end_cut(s.drop_last(), k);
    } else {
        assert(s.subrange(0, k) =~= s);
    }
}

/// The characters of `v` with white space at the end taken off.
fn trim_end_chars(v: &[char]) -> (r: Vec<char>)
    ensures
        r@ == trim_end(v@),
{
    let mut k: usize = v.len();
    while k > 0 && is_ws(v[k - 1])
        invariant
            k <= v@.len(),
            forall|j: int| k <= j < v@.len() ==> is_white_space(v@[j]),
        decreases k,
    {
        k -= 1;
    }
    proof { lemma_trim_end_cut(v@, k as int); }
    let mut r: Vec<char> = Vec::new();
    let mut i: usize = 0;
    while i < k
        invariant
            i <= k <= v@.len(),
            r@ == v@.subrange(0, i as int),
        decreases k - i,
    {
        r.push(v[i]);
        i += 1;
        assert(r@ =~= v@.subrange(0, i as int));
    }
    r
}

/// The characters of `v` with white space at both ends taken off.
fn trim_chars(v: &[char]) -> (r: Vec<char>)
    ensures
        r@ == trim(v@),
{
    let mut i: usize = 0;
    while i < v.len() && is_ws(v[i])
        invariant
            i <= v@.len(),
            forall|j: int| 0 <= j < i ==> is_white_space(v@[j]),
        decreases v@.len() - i,
    {
        i += 1;
    }
    proof { lemma_trim_start_skip(v@, i as int); }
    let ghost rest = v@.subrange(i as int, v@.len() as int);
    assert(trim_start(rest) == rest);
    let mut tail: Vec<char> = Vec::new();
    let mut j: usize = i;
    while j < v.len()
        invariant
            i <= j <= v@.len(),
            tail@ == v@.subrange(i as int, j as int),
        decreases v@.len() - j,
    {
        tail.push(v[j]);
        j += 1;
        assert(tail@ =~= v@.subrange(i as int, j as int));
    }
    trim_end_chars(tail.as_slice())
}

fn chars_equal(a: &[char], b: &[char]) -> (r: bool)
    ensures
        r == (a@ == b@),
{
    if a.len() != b.len() {
        return false;
    }
    let mut i: usize = 0;
    while i < a.len()
        invariant
            i <= a@.len(),
            a@.len() == b@.len(),
            forall|j: int| 0 <= j < i ==> a@[j] == b@[j],
        decreases a@.len() - i,
    {
        if a[i] != b[i] {
            return false;
        }
        i += 1;
    }
    assert(a@ =~= b@);
    true
}

/// The lines of `s` (see `text_lines`).
fn split_lines(s: &[char]) -> (r: Vec<Vec<char>>)
    ensures
        r@.len() == text_lines(s@).len(),
        forall|i: int| 0 <= i < r@.len() ==> #[trigger] r@[i]@ == text_lines(s@)[i],
{
    let mut done: Vec<Vec<char>> = Vec::new();
    let mut cur: Vec<char> = Vec::new();
    let mut i: usize = 0;
    while i < s.len()
        invariant
            i <= s@.len(),
            done@.len() == lines_scan(s@.subrange(0, i as int)).0.len(),
            forall|j: int| 0 <= j < done@.len() ==>
                #[trigger] done@[j]@ == lines_scan(s@.subrange(0, i as int)).0[j],
            cur@ == lines_scan(s@.subrange(0, i as int)).1,
        decreases s@.len() - i,
    {
        let c = s[i];
        assert(s@.subrange(0, i + 1).drop_last() =~= s@.subrange(0, i as int));
        if c == '\n' {
            let mut line = cur;
            if line.len() > 0 && line[line.len() - 1] == '\r' {
                line.pop();
            }
            done.push(line);
            cur = Vec::new();
        } else {
            cur.push(c);
        }
        i += 1;
    }
    assert(s@.subrange(0, s@.len() as int) =~= s@);
    if cur.len() > 0 {
        done.push(cur);
    }
    done
}

/// Rewrites section `section` of the configuration text `content`: the
/// section's old header and body (up to the next section header) are
/// dropped, as are blank lines at the end; what is left is kept as it was,
/// and the section is written again at the end, with `body` as its body.
pub fn replace_section(content: &str, section: &str, body: &str) -> (r: String)
    ensures
        r@ == spec_replace_section(content@, section@, body@),
{
    let content_chars = str_chars(content);
    let section_chars = str_chars(section);
    let mut header: Vec<char> = Vec::new();
    header.push('[');
    let mut i: usize = 0;
    while i < section_chars.len()
        invariant
            i <= section_chars@.len(),
            header@ == seq!['['] + section_chars@.subrange(0, i as int),
        decreases section_chars@.len() - i,
    {
        header.push(section_chars[i]);
        i += 1;
        assert(header@ =~= seq!['['] + section_chars@.subrange(0, i as int));
    }
    header.push(']');
    assert(section_chars@.subrange(0, section_chars@.len() as int) =~= section@);
    assert(header@ =~= section_header(section@));

    let lines = split_lines(content_chars.as_slice());
    let ghost all = text_lines(content@);
    let mut kept: Vec<Vec<char>> = Vec::new();
    let mut skipping = false;
    let mut n: usize = 0;
    while n < lines.len()
        invariant
            n <= lines@.len(),
            lines@.len() == all.len(),
            forall|j: int| 0 <= j < lines@.len() ==> #[trigger] lines@[j]@ == all[j],
            header@ == section_header(section@),
            kept@.len() == section_scan(all.subrange(0, n as int), header@).0.len(),
            forall|j: int| 0 <= j < kept@.len() ==>
                #[trigger] kept@[j]@ == section_scan(all.subrange(0, n as int), header@).0[j],
            skipping == section_scan(all.subrange(0, n as int), header@).1,
        decreases lines@.len() - n,
    {
        assert(all.subrange(0, n + 1).drop_last() =~= all.subrange(0, n as int));
        assert(all.subrange(0, n + 1).last() == lines@[n as int]@);
        let trimmed = trim_chars(lines[n].as_slice());
        if chars_equal(trimmed.as_slice(), header.as_slice()) {
            skipping = true;
        } else if skipping && !(trimmed.len() > 0 && trimmed[0] == '[') {
        } else {
            skipping = false;
            let line = copy_chars(lines[n].as_slice());
            kept.push(line);
        }
        n += 1;
    }
    assert(all.subrange(0, all.len() as int) =~= all);

    let ghost scanned = section_scan(all, header@).0;
    assert(scanned.subrange(0, kept@.len() as int) =~= scanned);
    while kept.len() > 0 && is_blank(kept[kept.len() - 1].as_slice())
        invariant
            kept@.len() <= scanned.len(),
            forall|j: int| 0 <= j < kept@.len() ==> #[trigger] kept@[j]@ == scanned[j],
            drop_blank_tail(scanned) == drop_blank_tail(scanned.subrange(0, kept@.len() as int)),
        decreases kept@.len(),
    {
        let ghost len = kept@.len();
        assert(scanned.subrange(0, len as int).drop_last() =~= scanned.subrange(0, len - 1));
        kept.pop();
    }
    assert(drop_blank_tail(scanned.subrange(0, kept@.len() as int)) == scanned.subrange(0, kept@.len() as int));
    let ghost final_lines = scanned.subrange(0, kept@.len() as int);
    assert(final_lines == kept_lines(content@, section@));

    let mut out = String::new();
    let mut k: usize = 0;
    while k < kept.len()
        invariant
            k <= kept@.len(),
            kept@.len() == final_lines.len(),
            forall|j: int| 0 <= j < kept@.len() ==> #[trigger] kept@[j]@ == final_lines[j],
            out@ == join_lines(final_lines.subrange(0, k as int)),
        decreases kept@.len() - k,
    {
        assert(final_lines.subrange(0, k + 1).drop_last() =~= final_lines.subrange(0, k as int));
        if k > 0 {
            push_char(&mut out, '\n');
        }
        push_all(&mut out, kept[k].as_slice());
        if k == 0 {
            assert(final_lines.subrange(0, 1) =~= seq![final_lines[0]]);
        }
        k += 1;
    }
    assert(final_lines.subrange(0, final_lines.len() as int) =~= final_lines);
    proof {
        if final_lines.len() > 0 {
            lemma_drop_blank_tail_last(scanned);
            lemma_trim_len(final_lines.last());
            lemma_join_len(final_lines);
        }
    }
    if kept.len() > 0 {
        push_char(&mut out, '\n');
        push_char(&mut out, '\n');
    }
    let ghost before_header = out@;
    push_all(&mut out, header.as_slice());
    push_char(&mut out, '\n');
    let body_chars = str_chars(body);
    let trimmed_body = trim_end_chars(body_chars.as_slice());
    push_all(&mut out, trimmed_body.as_slice());
    push_char(&mut out, '\n');
    assert(out@ =~= spec_replace_section(content@, section@, body@));
    out
}

proof fn lemma_trim_start_len(s: Seq<char>)
    ensures
        trim_start(s).len() <= s.len(),
    decreases s.len(),
{
    if s.len() > 0 {
        lemma_trim_start_len(s.drop_first());
    }
}

proof fn lemma_trim_end_len(s: Seq<char>)
    ensures
        trim_end(s).len() <= s.len(),
    decreases s.len(),
{
    if s.len() > 0 {
        lemma_trim_end_len(s.drop_last());
    }
}

proof fn lemma_trim_len(s: Seq<char>)
    ensures
        trim(s).len() <= s.len(),
{
    lemma_trim_start_len(s);
    lemma_trim_end_len(trim_start(s));
}

proof fn lemma_drop_blank_tail_last(ls: Seq<Seq<char>>)
    ensures
        drop_blank_tail(ls).len() <= ls.len(),
        drop_blank_tail(ls) == ls.subrange(0, drop_blank_tail(ls).len() as int),
        drop_blank_tail(ls).len() > 0 ==> trim(drop_blank_tail(ls).last()).len() > 0,
    decreases ls.len(),
{
    if ls.len() > 0 && trim(ls.last()).len() == 0 {
        lemma_drop_blank_tail_last(ls.drop_last());
        assert(ls.drop_last().subrange(0, drop_blank_tail(ls).len() as int)
            =~= ls.subrange(0, drop_blank_tail(ls).len() as int));
    } else {
        assert(ls.subrange(0, ls.len() as int) =~= ls);
    }
}

proof fn lemma_join_len(ls: Seq<Seq<char>>)
    requires
        ls.len() > 0,
    ensures
        join_lines(ls).len() >= ls.last().len(),
{
}

proof fn lemma_scan_drops_header(lines: Seq<Seq<char>>, header: Seq<char>)
    ensures
        forall|i: int| 0 <= i < section_scan(lines, header).0.len() ==>
            trim(#[trigger] section_scan(lines, header).0[i]) != header,
    decreases lines.len(),
{
    if lines.len() > 0 {
        lemma_scan_drops_header(lines.drop_last(), header);
        let prev = section_scan(lines.drop_last(), header);
        let cur = section_scan(lines, header);
        assert forall|i: int| 0 <= i < cur.0.len() implies trim(#[trigger] cur.0[i]) != header by {
            if i < prev.0.len() {
                assert(cur.0[i] == prev.0[i]);
            } else {
                assert(cur.0[i] == lines.last());
            }
        }
    }
}

/// The section's header appears once in the rewritten text: none of the
/// lines kept from the old text is that header, so the old section is never
/// left behind beside the new one.
pub proof fn lemma_section_written_once(content: Seq<char>, section: Seq<char>)
    ensures
        forall|i: int| 0 <= i < kept_lines(content, section).len() ==>
            trim(#[trigger] kept_lines(content, section)[i]) != section_header(section),
{
    let scanned = section_scan(text_lines(content), section_header(section)).0;
    lemma_scan_drops_header(text_lines(content), section_header(section));
    lemma_drop_blank_tail_last(scanned);
    assert forall|i: int| 0 <= i < kept_lines(content, section).len() implies
        trim(#[trigger] kept_lines(content, section)[i]) != section_header(section) by {
        assert(kept_lines(content, section)[i] == scanned[i]);
    }
}

proof fn lemma_scan_without_header(lines: Seq<Seq<char>>, header: Seq<char>)
    requires
        forall|i: int| 0 <= i < lines.len() ==> trim(#[trigger] lines[i]) != header,
    ensures
        section_scan(lines, header) == (lines, false),
    decreases lines.len(),
{
    if lines.len() > 0 {
        lemma_scan_without_header(lines.drop_last(), header);
        assert(lines.drop_last().push(lines.last()) =~= lines);
    } else {
        assert(lines =~= Seq::<Seq<char>>::empty());
    }
}

/// A file that has no such section keeps every line (but blank lines at its
/// end), and gets the section after them.
pub proof fn lemma_new_section_keeps_everything(content: Seq<char>, section: Seq<char>)
    requires
        forall|i: int| 0 <= i < text_lines(content).len() ==>
            trim(#[trigger] text_lines(content)[i]) != section_header(section),
    ensures
        kept_lines(content, section) == drop_blank_tail(text_lines(content)),
{
    lemma_scan_without_header(text_lines(content), section_header(section));
}

/// Whether `v` is blank once trimmed.
fn is_blank(v: &[char]) -> (r: bool)
    ensures
        r == (trim(v@).len() == 0),
{
    trim_chars(v).len() == 0
}

fn copy_chars(v: &[char]) -> (r: Vec<char>)
    ensures
        r@ == v@,
{
    let mut r: Vec<char> = Vec::new();
    let mut i: usize = 0;
    while i < v.len()
        invariant
            i <= v@.len(),
            r@ == v@.subrange(0, i as int),
        decreases v@.len() - i,
    {
        r.push(v[i]);
        i += 1;
        assert(r@ =~= v@.subrange(0, i as int));
    }
    assert(v@.subrange(0, v@.len() as int) =~= v@);
    r
}

fn push_all(s: &mut String, v: &[char])
    ensures
        final(s)@ == old(s)@ + v@,
{
    let mut i: usize = 0;
    while i < v.len()
        invariant
            i <= v@.len(),
            s@ == old(s)@ + v@.subrange(0, i as int),
        decreases v@.len() - i,
    {
        push_char(s, v[i]);
        i += 1;
        assert(s@ =~= old(s)@ + v@.subrange(0, i as int));
    }
    assert(v@.subrange(0, v@.len() as int) =~= v@);
}

/// The line-cutting state after reading `s` from state `st`.
pub open spec fn lines_from(st: (Seq<Seq<char>>, Seq<char>), s: Seq<char>) -> (Seq<Seq<char>>, Seq<char>)
    decreases s.len(),
{
    if s.len() == 0 {
        st
    } else {
        lines_step(lines_from(st, s.drop_last()), s.last())
    }
}

proof fn lemma_lines_scan_is_from_start(s: Seq<char>)
    ensures
        lines_scan(s) == lines_from((Seq::empty(), Seq::empty()), s),
    decreases s.len(),
{
    if s.len() > 0 {
        lemma_lines_scan_is_from_start(s.drop_last());
    }
}

proof fn lemma_lines_from_append(st: (Seq<Seq<char>>, Seq<char>), a: Seq<char>, b: Seq<char>)
    ensures
        lines_from(st, a + b) == lines_from(lines_from(st, a), b),
    decreases b.len(),
{
    if b.len() == 0 {
        assert(a + b =~= a);
    } else {
        assert((a + b).drop_last() =~= a + b.drop_last());
        assert((a + b).last() == b.last());
        lemma_lines_from_append(st, a, b.drop_last());
    }
}

/// `lines_scan` of a concatenation reads the second part from where the first
/// left off.
proof fn lemma_lines_scan_append(a: Seq<char>, b: Seq<char>)
    ensures
        lines_scan(a + b) == lines_from(lines_scan(a), b),
{
    lemma_lines_scan_is_from_start(a + b);
    lemma_lines_scan_is_from_start(a);
    lemma_lines_from_append((Seq::empty(), Seq::empty()), a, b);
}

/// Text without a line break extends the line being read.
proof fn lemma_lines_from_plain(d: Seq<Seq<char>>, c: Seq<char>, l: Seq<char>)
    requires
        !l.contains('\n'),
    ensures
        lines_from((d, c), l) == (d, c + l),
    decreases l.len(),
{
    if l.len() == 0 {
        assert(c + l =~= c);
    } else {
        assert(!l.drop_last().contains('\n')) by {
            if l.drop_last().contains('\n') {
                let j = choose|j: int| 0 <= j < l.drop_last().len() && l.drop_last()[j] == '\n';
                assert(l[j] == '\n');
            }
        }
        assert(l.last() != '\n') by {
            assert(l[l.len() - 1] == l.last());
        }
        lemma_lines_from_plain(d, c, l.drop_last());
        assert((c + l.drop_last()).push(l.last()) =~= c + l);
    }
}

/// From the start of a line, reading `s` adds the lines of `s` after those
/// already finished.
proof fn lemma_lines_from_fresh(p: Seq<Seq<char>>, s: Seq<char>)
    ensures
        lines_from((p, Seq::empty()), s) == (p + lines_scan(s).0, lines_scan(s).1),
    decreases s.len(),
{
    if s.len() == 0 {
        assert(p + Seq::<Seq<char>>::empty() =~= p);
    } else {
        lemma_lines_from_fresh(p, s.drop_last());
        let prev = lines_scan(s.drop_last());
        if s.last() == '\n' {
            assert((p + prev.0).push(strip_cr(prev.1)) =~= p + prev.0.push(strip_cr(prev.1)));
        }
    }
}

/// Whether line `l` ends with a carriage return.
pub open spec fn ends_with_cr(l: Seq<char>) -> bool {
    l.len() > 0 && l.last() == '\r'
}

/// Cutting the joined lines into lines again gives them back, the last one
/// still being read.
proof fn lemma_lines_of_join(ls: Seq<Seq<char>>)
    requires
        ls.len() > 0,
        forall|i: int| 0 <= i < ls.len() ==> !(#[trigger] ls[i]).contains('\n'),
        forall|i: int| 0 <= i < ls.len() - 1 ==> !ends_with_cr(#[trigger] ls[i]),
    ensures
        lines_scan(join_lines(ls)) == (ls.drop_last(), ls.last()),
    decreases ls.len(),
{
    if ls.len() == 1 {
        lemma_lines_scan_is_from_start(ls[0]);
        lemma_lines_from_plain(Seq::empty(), Seq::empty(), ls[0]);
        assert(Seq::<char>::empty() + ls[0] =~= ls[0]);
        assert(ls.drop_last() =~= Seq::<Seq<char>>::empty());
        assert(ls.last() == ls[0]);
        assert(join_lines(ls) == ls[0]);
    } else {
        let front = ls.drop_last();
        assert forall|i: int| 0 <= i < front.len() implies !(#[trigger] front[i]).contains('\n') by {
            assert(front[i] == ls[i]);
        }
        assert forall|i: int| 0 <= i < front.len() - 1 implies !ends_with_cr(#[trigger] front[i]) by {
            assert(front[i] == ls[i]);
        }
        lemma_lines_of_join(front);
        let j = join_lines(front);
        assert(join_lines(ls) == j + seq!['\n'] + ls.last());
        lemma_lines_scan_append(j + seq!['\n'], ls.last());
        lemma_lines_scan_append(j, seq!['\n']);
        assert(seq!['\n'].drop_last() =~= Seq::<char>::empty());
        assert(seq!['\n'].last() == '\n');
        assert(lines_from(lines_scan(j), Seq::<char>::empty()) == lines_scan(j));
        assert(lines_from(lines_scan(j), seq!['\n']) == lines_step(lines_scan(j), '\n'));
        assert(front.last() == ls[ls.len() - 2]);
        assert(!ends_with_cr(front.last()));
        assert(strip_cr(front.last()) == front.last());
        assert(front.drop_last().push(front.last()) =~= front);
        assert(!ls[ls.len() - 1].contains('\n'));
        lemma_lines_from_plain(front, Seq::empty(), ls.last());
        assert(Seq::<char>::empty() + ls.last() =~= ls.last());
        assert(lines_scan(j + seq!['\n']) == (front, Seq::<char>::empty()));
        assert(ls.drop_last() == front);
    }
}

/// Whether line `l` opens a section: once trimmed, it starts with `[`.
pub open spec fn opens_section(l: Seq<char>) -> bool {
    trim(l).len() > 0 && trim(l)[0] == '['
}

/// The section-dropping state after reading `lines` from state `st`.
pub open spec fn scan_from(st: (Seq<Seq<char>>, bool), lines: Seq<Seq<char>>, header: Seq<char>) -> (
    Seq<Seq<char>>,
    bool,
)
    decreases lines.len(),
{
    if lines.len() == 0 {
        st
    } else {
        section_step(scan_from(st, lines.drop_last(), header), lines.last(), header)
    }
}

proof fn lemma_section_scan_append(a: Seq<Seq<char>>, b: Seq<Seq<char>>, header: Seq<char>)
    ensures
        section_scan(a + b, header) == scan_from(section_scan(a, header), b, header),
    decreases b.len(),
{
    if b.len() == 0 {
        assert(a + b =~= a);
    } else {
        assert((a + b).drop_last() =~= a + b.drop_last());
        assert((a + b).last() == b.last());
        lemma_section_scan_append(a, b.drop_last(), header);
    }
}

/// Inside the dropped section, lines that open no other section stay dropped.
proof fn lemma_scan_from_skipping(d: Seq<Seq<char>>, lines: Seq<Seq<char>>, header: Seq<char>)
    requires
        forall|i: int| 0 <= i < lines.len() ==>
            trim(#[trigger] lines[i]) == header || !opens_section(lines[i]),
    ensures
        scan_from((d, true), lines, header) == (d, true),
    decreases lines.len(),
{
    if lines.len() > 0 {
        assert forall|i: int| 0 <= i < lines.drop_last().len() implies
            trim(#[trigger] lines.drop_last()[i]) == header || !opens_section(lines.drop_last()[i]) by {
            assert(lines.drop_last()[i] == lines[i]);
        }
        lemma_scan_from_skipping(d, lines.drop_last(), header);
        assert(lines.last() == lines[lines.len() - 1]);
    }
}

proof fn lemma_scan_lines_have_no_break(s: Seq<char>)
    ensures
        forall|i: int| 0 <= i < lines_scan(s).0.len() ==> !(#[trigger] lines_scan(s).0[i]).contains('\n'),
        !lines_scan(s).1.contains('\n'),
        lines_scan(s).1.len() > 0 ==> lines_scan(s).1.last() == s.last(),
    decreases s.len(),
{
    if s.len() > 0 {
        lemma_scan_lines_have_no_break(s.drop_last());
        let prev = lines_scan(s.drop_last());
        let cur = lines_scan(s);
        if s.last() == '\n' {
            assert(!strip_cr(prev.1).contains('\n')) by {
                if strip_cr(prev.1).contains('\n') {
                    let j = choose|j: int| 0 <= j < strip_cr(prev.1).len() && strip_cr(prev.1)[j] == '\n';
                    assert(prev.1[j] == '\n');
                }
            }
            assert forall|i: int| 0 <= i < cur.0.len() implies !(#[trigger] cur.0[i]).contains('\n') by {
                if i < prev.0.len() {
                    assert(cur.0[i] == prev.0[i]);
                }
            }
            assert(cur.1 =~= Seq::<char>::empty());
        } else {
            assert(cur.0 == prev.0);
            assert(!cur.1.contains('\n')) by {
                if cur.1.contains('\n') {
                    let j = choose|j: int| 0 <= j < cur.1.len() && cur.1[j] == '\n';
                    if j < prev.1.len() {
                        assert(prev.1[j] == '\n');
                    } else {
                        assert(cur.1[j] == s.last());
                    }
                }
            }
        }
    }
}

proof fn lemma_text_lines_have_no_break(s: Seq<char>)
    ensures
        forall|i: int| 0 <= i < text_lines(s).len() ==> !(#[trigger] text_lines(s)[i]).contains('\n'),
{
    lemma_scan_lines_have_no_break(s);
    let st = lines_scan(s);
    assert forall|i: int| 0 <= i < text_lines(s).len() implies !(#[trigger] text_lines(s)[i]).contains('\n') by {
        if i < st.0.len() {
            assert(text_lines(s)[i] == st.0[i]);
        } else {
            assert(text_lines(s)[i] == st.1);
        }
    }
}

proof fn lemma_scan_keeps_property(lines: Seq<Seq<char>>, header: Seq<char>)
    requires
        forall|i: int| 0 <= i < lines.len() ==> !(#[trigger] lines[i]).contains('\n'),
    ensures
        forall|i: int| 0 <= i < section_scan(lines, header).0.len() ==>
            !(#[trigger] section_scan(lines, header).0[i]).contains('\n'),
    decreases lines.len(),
{
    if lines.len() > 0 {
        assert forall|i: int| 0 <= i < lines.drop_last().len() implies
            !(#[trigger] lines.drop_last()[i]).contains('\n') by {
            assert(lines.drop_last()[i] == lines[i]);
        }
        lemma_scan_keeps_property(lines.drop_last(), header);
        let prev = section_scan(lines.drop_last(), header);
        let cur = section_scan(lines, header);
        assert(lines.last() == lines[lines.len() - 1]);
        assert forall|i: int| 0 <= i < cur.0.len() implies !(#[trigger] cur.0[i]).contains('\n') by {
            if i < prev.0.len() {
                assert(cur.0[i] == prev.0[i]);
            } else {
                assert(cur.0[i] == lines.last());
            }
        }
    }
}

/// The kept lines hold no line break.
proof fn lemma_kept_lines_have_no_break(content: Seq<char>, section: Seq<char>)
    ensures
        forall|i: int| 0 <= i < kept_lines(content, section).len() ==>
            !(#[trigger] kept_lines(content, section)[i]).contains('\n'),
{
    lemma_text_lines_have_no_break(content);
    let scanned = section_scan(text_lines(content), section_header(section));
    lemma_scan_keeps_property(text_lines(content), section_header(section));
    lemma_drop_blank_tail_last(scanned.0);
    assert forall|i: int| 0 <= i < kept_lines(content, section).len() implies
        !(#[trigger] kept_lines(content, section)[i]).contains('\n') by {
        assert(kept_lines(content, section)[i] == scanned.0[i]);
    }
}

proof fn lemma_trim_end_last(s: Seq<char>)
    ensures
        trim_end(s).len() > 0 ==> !is_white_space(trim_end(s).last()),
    decreases s.len(),
{
    if s.len() > 0 && is_white_space(s.last()) {
        lemma_trim_end_last(s.drop_last());
    }
}

proof fn lemma_lines_from_break(st: (Seq<Seq<char>>, Seq<char>))
    ensures
        lines_from(st, seq!['\n']) == lines_step(st, '\n'),
        lines_from(st, seq!['\n', '\n']) == lines_step(lines_step(st, '\n'), '\n'),
{
    let one = seq!['\n'];
    let two = seq!['\n', '\n'];
    assert(one.drop_last() =~= Seq::<char>::empty());
    assert(one.last() == '\n');
    assert(lines_from(st, Seq::<char>::empty()) == st);
    assert(lines_from(st, one) == lines_step(lines_from(st, one.drop_last()), one.last()));
    assert(two.drop_last() =~= one);
    assert(two.last() == '\n');
    assert(lines_from(st, two) == lines_step(lines_from(st, two.drop_last()), two.last()));
}

proof fn lemma_header_plain(section: Seq<char>)
    requires
        !section.contains('\n'),
    ensures
        !section_header(section).contains('\n'),
        strip_cr(section_header(section)) == section_header(section),
        trim(section_header(section)) == section_header(section),
        section_header(section).len() >= 2,
        section_header(section)[0] == '[',
{
    let h = section_header(section);
    assert(h.len() == section.len() + 2);
    assert(h[0] == '[');
    assert(h.last() == ']');
    assert(!h.contains('\n')) by {
        if h.contains('\n') {
            let j = choose|j: int| 0 <= j < h.len() && h[j] == '\n';
            assert(section[j - 1] == '\n');
        }
    }
    assert(!is_white_space('['));
    assert(!is_white_space(']'));
    assert(trim_start(h) == h);
    assert(trim_end(h) == h);
}

/// The lines of the rewritten text: the kept lines and a blank line (when
/// any line is kept), the header, then the body's lines.
proof fn lemma_rewrite_lines(content: Seq<char>, section: Seq<char>, body: Seq<char>)
    requires
        !section.contains('\n'),
        forall|i: int| 0 <= i < kept_lines(content, section).len() ==>
            !ends_with_cr(#[trigger] kept_lines(content, section)[i]),
    ensures
        text_lines(spec_replace_section(content, section, body)) == (if kept_lines(content, section).len() > 0 {
            kept_lines(content, section).push(Seq::empty())
        } else {
            Seq::empty()
        }).push(section_header(section)) + lines_scan(trim_end(body) + seq!['\n']).0,
{
    let k = kept_lines(content, section);
    let h = section_header(section);
    let b = trim_end(body);
    let j = join_lines(k);
    lemma_header_plain(section);
    lemma_kept_lines_have_no_break(content, section);
    let front: Seq<Seq<char>> = if k.len() > 0 { k.push(Seq::empty()) } else { Seq::empty() };
    let start: Seq<char> = if j.len() > 0 { j + seq!['\n', '\n'] } else { Seq::empty() };
    if k.len() > 0 {
        let scanned = section_scan(text_lines(content), h).0;
        lemma_drop_blank_tail_last(scanned);
        lemma_trim_len(k.last());
        lemma_join_len(k);
        lemma_lines_of_join(k);
        lemma_lines_scan_append(j, seq!['\n', '\n']);
        lemma_lines_from_break(lines_scan(j));
        assert(k.last() == k[k.len() - 1]);
        assert(strip_cr(k.last()) == k.last());
        assert(k.drop_last().push(k.last()) =~= k);
        assert(lines_scan(start) == (front, Seq::<char>::empty()));
    } else {
        assert(j.len() == 0);
        assert(lines_scan(start) == (front, Seq::<char>::empty()));
    }
    let x1 = start + h;
    lemma_lines_scan_append(start, h);
    lemma_lines_from_plain(front, Seq::empty(), h);
    assert(Seq::<char>::empty() + h =~= h);
    let x2 = x1 + seq!['\n'];
    lemma_lines_scan_append(x1, seq!['\n']);
    lemma_lines_from_break(lines_scan(x1));
    assert(lines_scan(x2) == (front.push(h), Seq::<char>::empty()));
    let x3 = x2 + b;
    lemma_lines_scan_append(x2, b);
    lemma_lines_from_fresh(front.push(h), b);
    let x4 = x3 + seq!['\n'];
    lemma_lines_scan_append(x3, seq!['\n']);
    lemma_lines_from_break(lines_scan(x3));
    lemma_lines_scan_append(b, seq!['\n']);
    lemma_lines_from_break(lines_scan(b));
    let bl = lines_scan(b);
    assert((front.push(h) + bl.0).push(strip_cr(bl.1)) =~= front.push(h) + bl.0.push(strip_cr(bl.1)));
    assert(x4 =~= spec_replace_section(content, section, body));
    assert(lines_scan(x4).1.len() == 0);
}

/// Whether line `l` of a section's body stays inside that section when the
/// text is read again: it opens no section, or it is the section's own header.
pub open spec fn stays_in_section(l: Seq<char>, header: Seq<char>) -> bool {
    trim(l) == header || !opens_section(l)
}

proof fn lemma_body_lines(body: Seq<char>, header: Seq<char>)
    requires
        forall|i: int| 0 <= i < text_lines(trim_end(body)).len() ==>
            stays_in_section(#[trigger] text_lines(trim_end(body))[i], header),
    ensures
        forall|i: int| 0 <= i < lines_scan(trim_end(body) + seq!['\n']).0.len() ==>
            stays_in_section(#[trigger] lines_scan(trim_end(body) + seq!['\n']).0[i], header),
{
    let b = trim_end(body);
    let st = lines_scan(b);
    lemma_lines_scan_append(b, seq!['\n']);
    lemma_lines_from_break(st);
    let bl = lines_scan(b + seq!['\n']).0;
    assert(bl == st.0.push(strip_cr(st.1)));
    lemma_scan_lines_have_no_break(b);
    lemma_trim_end_last(body);
    assert forall|i: int| 0 <= i < bl.len() implies stays_in_section(#[trigger] bl[i], header) by {
        if i < st.0.len() {
            assert(bl[i] == st.0[i]);
            assert(text_lines(b)[i] == st.0[i]);
        } else if st.1.len() > 0 {
            assert(st.1.last() == b.last());
            assert(!is_white_space(b.last()));
            assert(strip_cr(st.1) == st.1);
            assert(text_lines(b)[i] == st.1);
        } else {
            assert(strip_cr(st.1) =~= Seq::<char>::empty());
            assert(trim_start(Seq::<char>::empty()) =~= Seq::<char>::empty());
            assert(trim_end(Seq::<char>::empty()) =~= Seq::<char>::empty());
            assert(!opens_section(bl[i]));
        }
    }
}

/// Saving the same section twice leaves the file as saving it once: the
/// rewritten text keeps the same lines, and rewriting it again gives it
/// back. This holds when the section's name spans one line, when no kept
/// line ends with a carriage return (reading the text back would drop it),
/// and when no line of the body opens another section (reading the text
/// back would keep that line and what follows it).
pub proof fn lemma_rewrite_is_idempotent(content: Seq<char>, section: Seq<char>, body: Seq<char>)
    requires
        !section.contains('\n'),
        forall|i: int| 0 <= i < kept_lines(content, section).len() ==>
            !ends_with_cr(#[trigger] kept_lines(content, section)[i]),
        forall|i: int| 0 <= i < text_lines(trim_end(body)).len() ==>
            stays_in_section(#[trigger] text_lines(trim_end(body))[i], section_header(section)),
    ensures
        kept_lines(spec_replace_section(content, section, body), section) == kept_lines(content, section),
        spec_replace_section(spec_replace_section(content, section, body), section, body)
            == spec_replace_section(content, section, body),
{
    let k = kept_lines(content, section);
    let h = section_header(section);
    let x = spec_replace_section(content, section, body);
    lemma_rewrite_lines(content, section, body);
    lemma_header_plain(section);
    lemma_body_lines(body, h);
    let bl = lines_scan(trim_end(body) + seq!['\n']).0;
    let front: Seq<Seq<char>> = if k.len() > 0 { k.push(Seq::empty()) } else { Seq::empty() };
    lemma_section_scan_append(front.push(h), bl, h);
    assert(trim_start(Seq::<char>::empty()) =~= Seq::<char>::empty());
    assert(trim_end(Seq::<char>::empty()) =~= Seq::<char>::empty());
    if k.len() > 0 {
        lemma_section_written_once(content, section);
        lemma_scan_without_header(k, h);
        assert(front.drop_last() =~= k);
        assert(section_scan(front, h) == (k.push(Seq::empty()), false));
    } else {
        assert(section_scan(front, h) == (Seq::<Seq<char>>::empty(), false));
    }
    assert(front.push(h).drop_last() =~= front);
    assert(section_scan(front.push(h), h) == (front, true));
    lemma_scan_from_skipping(front, bl, h);
    assert(section_scan(text_lines(x), h) == (front, true));
    if k.len() > 0 {
        let scanned = section_scan(text_lines(content), h).0;
        lemma_drop_blank_tail_last(scanned);
        assert(front.drop_last() =~= k);
        assert(drop_blank_tail(front) == drop_blank_tail(k));
        assert(drop_blank_tail(k) == k);
    }
    assert(kept_lines(x, section) == k);
}

} // verus!
