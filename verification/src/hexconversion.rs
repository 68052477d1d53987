//! Hexadecimal address and byte arguments of the monitor commands
//! (`0x` followed by hexadecimal digits).

use vstd::prelude::*;
use crate::text::{hex_upper, str_chars};

verus! {

/// Why a hexadecimal argument was refused.
#[derive(Debug, PartialEq, Eq, Clone, Copy, Structural)]
pub enum ConversionError {
    /// The word argument does not start with `0x`.
    InvalidWordFormat,
    /// The byte argument does not start with `0x`.
    InvalidByteFormat,
    /// The digits after `0x` are not a number that fits.
    ParseIntError,
}

impl ConversionError {
    /// The message that the error displays.
    pub open spec fn spec_message(self) -> Seq<char> {
        match self {
            ConversionError::InvalidWordFormat =>
                "ConversionError : Word string does not start with 0x"@,
            ConversionError::InvalidByteFormat =>
                "ConversionError : Byte string does not start with 0x"@,
            ConversionError::ParseIntError =>
                "ConversionError : Error while parsing from_str_radix"@,
        }
    }

    /// The message that the error displays.
    pub fn to_string(&self) -> (s: String)
        ensures
            s@ == self.spec_message(),
    {
        broadcast use vstd::string::group_string_axioms;
        match self {
            ConversionError::InvalidWordFormat =>
                "ConversionError : Word string does not start with 0x".to_string(),
            ConversionError::InvalidByteFormat =>
                "ConversionError : Byte string does not start with 0x".to_string(),
            ConversionError::ParseIntError =>
                "ConversionError : Error while parsing from_str_radix".to_string(),
        }
    }
}

/// The value of a hexadecimal digit (`0-9`, `a-f`, `A-F`).
pub open spec fn hex_digit_value(c: char) -> Option<nat> {
    if '0' <= c && c <= '9' {
        Some((c as int - 48) as nat)
    } else if 'a' <= c && c <= 'f' {
        Some((c as int - 87) as nat)
    } else if 'A' <= c && c <= 'F' {
        Some((c as int - 55) as nat)
    } else {
        None
    }
}

/// Every character of `s` is a hexadecimal digit.
pub open spec fn all_hex_digits(s: Seq<char>) -> bool {
    forall|i: int| 0 <= i < s.len() ==> (#[trigger] hex_digit_value(s[i])) is Some
}

/// The number that a string of hexadecimal digits denotes.
pub open spec fn hex_digits_value(s: Seq<char>) -> nat
    decreases s.len(),
{
    if s.len() == 0 {
        0
    } else {
        hex_digits_value(s.drop_last()) * 16 + match hex_digit_value(s.last()) {
            Some(d) => d,
            None => 0,
        }
    }
}

/// What `from_str_radix(s, 16)` gives for an unsigned type whose largest
/// value is `max`: an optional `+` (with digits after it), then one or more
/// hexadecimal digits whose value is at most `max`.
pub open spec fn parse_hex(s: Seq<char>, max: nat) -> Option<nat> {
    let digits = if s.len() > 0 && s[0] == '+' { s.drop_first() } else { s };
    if digits.len() > 0 && all_hex_digits(digits) && hex_digits_value(digits) <= max {
        Some(hex_digits_value(digits))
    } else {
        None
    }
}

/// `s` with its leading `0x` taken off, if it has one.
pub open spec fn strip_0x(s: Seq<char>) -> Option<Seq<char>> {
    if s.len() >= 2 && s[0] == '0' && s[1] == 'x' {
        Some(s.subrange(2, s.len() as int))
    } else {
        None
    }
}

/// What `to_u16` gives for the text `s`.
pub open spec fn spec_to_u16(s: Seq<char>) -> Result<u16, ConversionError> {
    match strip_0x(s) {
        None => Err(ConversionError::InvalidWordFormat),
        Some(rest) => match parse_hex(rest, 0xFFFF) {
            Some(v) => Ok(v as u16),
            None => Err(ConversionError::ParseIntError),
        },
    }
}

/// What `to_u8` gives for the text `s`.
pub open spec fn spec_to_u8(s: Seq<char>) -> Result<u8, ConversionError> {
    match strip_0x(s) {
        None => Err(ConversionError::InvalidByteFormat),
        Some(rest) => match parse_hex(rest, 0xFF) {
            Some(v) => Ok(v as u8),
            None => Err(ConversionError::ParseIntError),
        },
    }
}

proof fn lemma_hex_value_grows(s: Seq<char>, i: int)
    requires
        0 <= i <= s.len(),
    ensures
        hex_digits_value(s.subrange(0, i)) <= hex_digits_value(s),
    decreases s.len() - i,
{
    if i < s.len() {
        lemma_hex_value_grows(s, i + 1);
        assert(s.subrange(0, i + 1).drop_last() =~= s.subrange(0, i));
    } else {
        assert(s.subrange(0, i) =~= s);
    }
}

fn digit_value(c: char) -> (r: Option<u32>)
    ensures
        r matches Some(v) ==> hex_digit_value(c) == Some(v as nat) && v < 16,
        r is None ==> hex_digit_value(c) is None,
{
    if '0' <= c && c <= '9' {
        Some((c as u32) - 48)
    } else if 'a' <= c && c <= 'f' {
        Some((c as u32) - 87)
    } else if 'A' <= c && c <= 'F' {
        Some((c as u32) - 55)
    } else {
        None
    }
}

/// Parses `s` as `from_str_radix(_, 16)` does for an unsigned type whose
/// largest value is `max`.
fn parse_hex_chars(s: &[char], max: u32) -> (r: Option<u32>)
    ensures
        r matches Some(v) ==> parse_hex(s@, max as nat) == Some(v as nat),
        r is None ==> parse_hex(s@, max as nat) is None,
{
    let start: usize = if s.len() > 0 && s[0] == '+' { 1 } else { 0 };
    let ghost digits = if s@.len() > 0 && s@[0] == '+' { s@.drop_first() } else { s@ };
    assert(digits =~= s@.subrange(start as int, s@.len() as int));
    if start >= s.len() {
        return None;
    }
    let mut acc: u32 = 0;
    let mut i: usize = start;
    while i < s.len()
        invariant
            start <= i <= s@.len(),
            start < s@.len(),
            digits == (if s@.len() > 0 && s@[0] == '+' { s@.drop_first() } else { s@ }),
            digits =~= s@.subrange(start as int, s@.len() as int),
            all_hex_digits(digits.subrange(0, i - start)),
            acc as nat == hex_digits_value(digits.subrange(0, i - start)),
            acc <= max,
        decreases s@.len() - i,
    {
        let ghost k = i - start;
        match digit_value(s[i]) {
            None => {
                assert(digits[k] == s@[i as int]);
                assert(hex_digit_value(digits[k]) is None);
                assert(!all_hex_digits(digits));
                return None;
            },
            Some(d) => {
                assert(digits.subrange(0, k + 1).drop_last() =~= digits.subrange(0, k));
                assert(digits.subrange(0, k + 1).last() == s@[i as int]);
                let next: u64 = (acc as u64) * 16 + (d as u64);
                if next > max as u64 {
                    proof {
                        lemma_hex_value_grows(digits, k + 1);
                        assert(hex_digits_value(digits.subrange(0, k + 1)) == next);
                    }
                    return None;
                }
                acc = next as u32;
                i += 1;
                assert forall|j: int| 0 <= j < i - start implies
                    (#[trigger] hex_digit_value(digits.subrange(0, i - start)[j])) is Some by {
                    if j < k {
                        assert(digits.subrange(0, i - start)[j] == digits.subrange(0, k)[j]);
                    }
                }
            },
        }
    }
    assert(digits.subrange(0, s@.len() - start) =~= digits);
    Some(acc)
}

/// Reads `0x`-prefixed hexadecimal text as a word or a byte.
pub trait HexStringToUnsigned {
    /// Reads the text as a 16-bit word.
    fn to_u16(&self) -> Result<u16, ConversionError>;

    /// Reads the text as a byte.
    fn to_u8(&self) -> Result<u8, ConversionError>;
}

impl HexStringToUnsigned for String {
    fn to_u16(&self) -> (r: Result<u16, ConversionError>)
        ensures
            r == spec_to_u16(self@),
    {
        let cs = str_chars(self.as_str());
        if cs.len() >= 2 && cs[0] == '0' && cs[1] == 'x' {
            let rest = slice_from(&cs, 2);
            match parse_hex_chars(rest.as_slice(), 0xFFFF) {
                Some(v) => Ok(v as u16),
                None => Err(ConversionError::ParseIntError),
            }
        } else {
            Err(ConversionError::InvalidWordFormat)
        }
    }

    fn to_u8(&self) -> (r: Result<u8, ConversionError>)
        ensures
            r == spec_to_u8(self@),
    {
        let cs = str_chars(self.as_str());
        if cs.len() >= 2 && cs[0] == '0' && cs[1] == 'x' {
            let rest = slice_from(&cs, 2);
            match parse_hex_chars(rest.as_slice(), 0xFF) {
                Some(v) => Ok(v as u8),
                None => Err(ConversionError::ParseIntError),
            }
        } else {
            Err(ConversionError::InvalidByteFormat)
        }
    }
}

/// The elements of `v` from index `start` on.
fn slice_from(v: &Vec<char>, start: usize) -> (r: Vec<char>)
    requires
        start <= v@.len(),
    ensures
        r@ == v@.subrange(start as int, v@.len() as int),
{
    let mut r: Vec<char> = Vec::new();
    let mut i = start;
    while i < v.len()
        invariant
            start <= i <= v@.len(),
            r@ == v@.subrange(start as int, i as int),
        decreases v@.len() - i,
    {
        r.push(v[i]);
        i += 1;
        assert(r@ =~= v@.subrange(start as int, i as int));
    }
    r
}

/// `16` to the power `w`.
pub open spec fn pow16(w: nat) -> nat
    decreases w,
{
    if w == 0 { 1 } else { 16 * pow16((w - 1) as nat) }
}

proof fn lemma_hex_upper_value(n: nat, w: nat)
    requires
        n < pow16(w),
    ensures
        hex_upper(n, w).len() == w,
        all_hex_digits(hex_upper(n, w)),
        hex_digits_value(hex_upper(n, w)) == n,
    decreases w,
{
    if w > 0 {
        let q = n / 16;
        let d = n % 16;
        assert(q < pow16((w - 1) as nat)) by (nonlinear_arith)
            requires
                n < 16 * pow16((w - 1) as nat),
                q == n / 16;
        lemma_hex_upper_value(q, (w - 1) as nat);
        let s = hex_upper(n, w);
        let c = crate::text::hex_digit_upper(d as int);
        assert(s == hex_upper(q, (w - 1) as nat).push(c));
        assert(s.drop_last() =~= hex_upper(q, (w - 1) as nat));
        assert(hex_digit_value(c) == Some(d));
        assert forall|i: int| 0 <= i < s.len() implies (#[trigger] hex_digit_value(s[i])) is Some by {
            if i < s.len() - 1 {
                assert(s[i] == hex_upper(q, (w - 1) as nat)[i]);
            }
        }
    } else {
        assert(n == 0);
    }
}

/// Reading back a word written as `{:#06X}` (as the monitor prints
/// addresses) gives the word.
pub proof fn lemma_word_text_round_trip(n: u16)
    ensures
        spec_to_u16(crate::text::prefixed_hex(n as nat, 4)) == Ok::<u16, ConversionError>(n),
{
    reveal_with_fuel(pow16, 5);
    assert(pow16(4) == 65536);
    lemma_hex_upper_value(n as nat, 4);
    let s = crate::text::prefixed_hex(n as nat, 4);
    assert(strip_0x(s) == Some(crate::text::hex_upper(n as nat, 4))) by {
        assert(s.subrange(2, s.len() as int) =~= crate::text::hex_upper(n as nat, 4));
    }
    assert(hex_digit_value(crate::text::hex_upper(n as nat, 4)[0]) is Some);
    assert(crate::text::hex_upper(n as nat, 4)[0] != '+');
}

/// Reading back a byte written as `{:#04X}` gives the byte.
pub proof fn lemma_byte_text_round_trip(n: u8)
    ensures
        spec_to_u8(crate::text::prefixed_hex(n as nat, 2)) == Ok::<u8, ConversionError>(n),
{
    reveal_with_fuel(pow16, 3);
    assert(pow16(2) == 256);
    lemma_hex_upper_value(n as nat, 2);
    let s = crate::text::prefixed_hex(n as nat, 2);
    assert(strip_0x(s) == Some(crate::text::hex_upper(n as nat, 2))) by {
        assert(s.subrange(2, s.len() as int) =~= crate::text::hex_upper(n as nat, 2));
    }
    assert(hex_digit_value(crate::text::hex_upper(n as nat, 2)[0]) is Some);
    assert(crate::text::hex_upper(n as nat, 2)[0] != '+');
}

} // verus!
