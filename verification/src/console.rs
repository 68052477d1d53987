//! The terminal console: each line typed on standard input becomes a
//! command sent to the machine, or a complaint printed back.

use vstd::prelude::*;
use crate::monitor::{word, words, split_words_of};
use crate::text::{str_chars, string_of};

verus! {

/// What one console line amounts to.
pub enum ConsoleRequest {
    /// Send the command word and its two arguments to the machine.
    Send(String, String, String),
    /// Print this line back; send nothing.
    Reply(String),
}

/// Whether the console can read `line`: it has a command word, and an `m`
/// command has an address after it.
pub open spec fn console_line_ok(line: Seq<char>) -> bool {
    &&& words(line).len() >= 1
    &&& words(line)[0] == "m"@ ==> words(line).len() >= 2
}

/// Reads one console line: `tape` and `d` need an argument (else a
/// complaint is printed), `m` sends one or two, `b`, `j` and `f` send their
/// address (if any), any other command is sent alone.
pub fn console_request(line: &str) -> (r: ConsoleRequest)
    requires
        console_line_ok(line@),
    ensures
        ({
            let cmd = word(line@, 0);
            let arg = word(line@, 1);
            let arg2 = word(line@, 2);
            if cmd == "tape"@ {
                if words(line@).len() >= 2 {
                    r matches ConsoleRequest::Send(c, a, b) && c@ == cmd && a@ == arg && b@ == Seq::<char>::empty()
                } else {
                    r matches ConsoleRequest::Reply(t) && t@ == "No tape filename !"@
                }
            } else if cmd == "d"@ {
                if words(line@).len() >= 2 {
                    r matches ConsoleRequest::Send(c, a, b) && c@ == cmd && a@ == arg && b@ == Seq::<char>::empty()
                } else {
                    r matches ConsoleRequest::Reply(t) && t@ == "No address !"@
                }
            } else if cmd == "m"@ {
                r matches ConsoleRequest::Send(c, a, b) && c@ == cmd && a@ == arg && b@ == arg2
            } else if cmd == "b"@ || cmd == "j"@ || cmd == "f"@ {
                r matches ConsoleRequest::Send(c, a, b) && c@ == cmd && a@ == arg && b@ == Seq::<char>::empty()
            } else {
                r matches ConsoleRequest::Send(c, a, b) && c@ == cmd && a@ == Seq::<char>::empty()
                    && b@ == Seq::<char>::empty()
            }
        }),
{
    let cs = str_chars(line);
    let ws = split_words_of(cs.as_slice());
    let cmd = string_of(ws[0].as_slice());
    let empty: Vec<char> = Vec::new();
    let arg_v: &Vec<char> = if ws.len() > 1 { &ws[1] } else { &empty };
    let arg2_v: &Vec<char> = if ws.len() > 2 { &ws[2] } else { &empty };
    assert(arg_v@ == word(line@, 1));
    assert(arg2_v@ == word(line@, 2));
    let c = ws[0].as_slice();
    if crate::monitor::chars_eq(c, "tape") {
        if ws.len() >= 2 {
            ConsoleRequest::Send(cmd, string_of(arg_v.as_slice()), String::new())
        } else {
            ConsoleRequest::Reply(string_of_str("No tape filename !"))
        }
    } else if crate::monitor::chars_eq(c, "d") {
        if ws.len() >= 2 {
            ConsoleRequest::Send(cmd, string_of(arg_v.as_slice()), String::new())
        } else {
            ConsoleRequest::Reply(string_of_str("No address !"))
        }
    } else if crate::monitor::chars_eq(c, "m") {
        ConsoleRequest::Send(cmd, string_of(arg_v.as_slice()), string_of(arg2_v.as_slice()))
    } else if crate::monitor::chars_eq(c, "b") || crate::monitor::chars_eq(c, "j")
        || crate::monitor::chars_eq(c, "f") {
        ConsoleRequest::Send(cmd, string_of(arg_v.as_slice()), String::new())
    } else {
        ConsoleRequest::Send(cmd, String::new(), String::new())
    }
}

fn string_of_str(t: &str) -> (s: String)
    ensures
        s@ == t@,
{
    let mut s = String::new();
    crate::text::push_str(&mut s, t);
    s
}

} // verus!
