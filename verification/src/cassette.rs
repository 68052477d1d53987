//! The cassette reader: a `.cas` tape image played back one bit at a time
//! on the cassette port.

use vstd::prelude::*;
use crate::text::{decimal, push_decimal, push_str};

verus! {

/// The data bit `bit` (0 = least significant) of `byte`, as 0 or 1.
pub open spec fn data_bit(byte: u8, bit: u8) -> u8 {
    if byte & (1u8 << bit) != 0 { 1 } else { 0 }
}

/// The sixteen pulses that encode one byte on tape: for each bit from the
/// most significant down, a sync pulse (1) then the data bit.
pub open spec fn byte_pulses(byte: u8) -> Seq<u8> {
    Seq::new(16, |j: int| if j % 2 == 0 { 1u8 } else { data_bit(byte, (7 - j / 2) as u8) })
}

/// The pulse train of a whole tape image.
pub open spec fn tape_bits(bytes: Seq<u8>) -> Seq<u8>
    decreases bytes.len(),
{
    if bytes.len() == 0 {
        Seq::empty()
    } else {
        tape_bits(bytes.drop_last()) + byte_pulses(bytes.last())
    }
}

/// A tape image of `n` bytes plays back as `16 * n` pulses, each 0 or 1, so
/// the cassette port only ever reads 0 or 0x80.
pub proof fn lemma_tape_bits(bytes: Seq<u8>)
    ensures
        tape_bits(bytes).len() == 16 * bytes.len(),
        forall|i: int| 0 <= i < tape_bits(bytes).len() ==> {
            let p = #[trigger] tape_bits(bytes)[i];
            &&& p == 0 || p == 1
            &&& (p << 7u8) == if p == 1 { 0x80u8 } else { 0u8 }
        },
    decreases bytes.len(),
{
    if bytes.len() > 0 {
        lemma_tape_bits(bytes.drop_last());
        let t = tape_bits(bytes);
        let a = tape_bits(bytes.drop_last());
        let b = byte_pulses(bytes.last());
        assert forall|i: int| 0 <= i < t.len() implies {
            let p = #[trigger] t[i];
            &&& p == 0 || p == 1
            &&& (p << 7u8) == if p == 1 { 0x80u8 } else { 0u8 }
        } by {
            let p = t[i];
            if i < a.len() {
                assert(p == a[i]);
            } else {
                assert(p == b[i - a.len()]);
            }
            assert(p == 0 || p == 1);
            assert((1u8 << 7u8) == 0x80u8) by (bit_vector);
            assert((0u8 << 7u8) == 0u8) by (bit_vector);
        }
    }
}

/// The text that `status` reports for a pulse train of `len` pulses read up
/// to `position`.
pub open spec fn status_text(position: nat, len: nat) -> Seq<char> {
    if len == 0 {
        "Tape: no tape inserted"@
    } else {
        "Tape: position "@ + decimal(position) + "/"@ + decimal(len) + " bits"@
    }
}

pub struct CassetteReader {
    inserted_tape: Vec<u8>,
    serialized_tape: Vec<u8>,
    tape_position: usize,
}

impl CassetteReader {
    #[verifier::type_invariant]
    spec fn inv(self) -> bool {
        &&& self.serialized_tape@ == tape_bits(self.inserted_tape@)
        &&& self.tape_position <= self.serialized_tape@.len()
    }

    /// The bytes of the inserted tape image.
    pub closed spec fn tape(self) -> Seq<u8> {
        self.inserted_tape@
    }

    /// The pulse train played back from the tape.
    pub closed spec fn bits(self) -> Seq<u8> {
        self.serialized_tape@
    }

    /// How many pulses have been read since the tape was loaded or rewound.
    pub closed spec fn position(self) -> nat {
        self.tape_position as nat
    }

    /// An empty reader: no tape inserted.
    pub fn new() -> (r: Self)
        ensures
            r.tape() == Seq::<u8>::empty(),
            r.bits() == Seq::<u8>::empty(),
            r.position() == 0,
    {
        Self { inserted_tape: Vec::new(), serialized_tape: Vec::new(), tape_position: 0 }
    }

    fn serialize(tape: &Vec<u8>) -> (bits: Vec<u8>)
        requires
            16 * tape@.len() <= usize::MAX,
        ensures
            bits@ == tape_bits(tape@),
    {
        let mut bits: Vec<u8> = Vec::new();
        let mut i: usize = 0;
        while i < tape.len()
            invariant
                i <= tape@.len(),
                bits@ == tape_bits(tape@.subrange(0, i as int)),
            decreases tape@.len() - i,
        {
            let byte = tape[i];
            let ghost before = bits@;
            let mut bit: u8 = 8;
            while bit > 0
                invariant
                    bit <= 8,
                    bits@ == before + byte_pulses(byte).subrange(0, 2 * (8 - bit)),
                decreases bit,
            {
                bit -= 1;
                bits.push(1);
                bits.push(if (byte & (1u8 << bit)) != 0 { 1u8 } else { 0u8 });
                assert(bits@ =~= before + byte_pulses(byte).subrange(0, 2 * (8 - bit)));
            }
            assert(tape@.subrange(0, i + 1).drop_last() =~= tape@.subrange(0, i as int));
            assert(byte_pulses(byte).subrange(0, 16) =~= byte_pulses(byte));
            i += 1;
        }
        assert(tape@.subrange(0, tape@.len() as int) =~= tape@);
        bits
    }

    /// Inserts a tape image given as bytes, and rewinds it.
    pub fn load_from_bytes(&mut self, bytes: &[u8])
        requires
            16 * bytes@.len() <= usize::MAX,
        ensures
            final(self).tape() == bytes@,
            final(self).bits() == tape_bits(bytes@),
            final(self).position() == 0,
    {
        let mut inserted: Vec<u8> = Vec::new();
        inserted.extend_from_slice(bytes);
        let serialized = Self::serialize(&inserted);
        *self = Self { inserted_tape: inserted, serialized_tape: serialized, tape_position: 0 };
    }

    /// Reads the next pulse and moves past it: `0x80` for a 1 pulse, `0`
    /// for a 0 pulse, and `0` once the tape has run out.
    pub fn read(&mut self) -> (r: u8)
        ensures
            final(self).tape() == old(self).tape(),
            final(self).bits() == old(self).bits(),
            old(self).position() < old(self).bits().len() ==> {
                &&& r == old(self).bits()[old(self).position() as int] << 7u8
                &&& final(self).position() == old(self).position() + 1
            },
            old(self).position() >= old(self).bits().len() ==> {
                &&& r == 0
                &&& final(self).position() == old(self).position()
            },
            r == 0 || r == 0x80,
            old(self).bits() == tape_bits(old(self).tape()),
            old(self).position() <= old(self).bits().len(),
    {
        proof {
            use_type_invariant(&*self);
            lemma_tape_bits(self.inserted_tape@);
        }
        if !self.is_end() {
            let r = self.serialized_tape[self.tape_position] << 7;
            self.tape_position = self.tape_position + 1;
            r
        } else {
            0
        }
    }

    /// Rewinds the tape to its start.
    pub fn rewind(&mut self)
        ensures
            final(self).tape() == old(self).tape(),
            final(self).bits() == old(self).bits(),
            final(self).position() == 0,
            old(self).bits() == tape_bits(old(self).tape()),
    {
        proof { use_type_invariant(&*self); }
        self.tape_position = 0;
    }

    /// Whether every pulse has been read.
    fn is_end(&self) -> (r: bool)
        ensures
            r == (self.tape_position >= self.serialized_tape@.len()),
            self.serialized_tape@.len() <= usize::MAX,
    {
        self.tape_position >= self.serialized_tape.len()
    }

    /// A one-line report of the tape's state.
    pub fn status(&self) -> (s: String)
        ensures
            s@ == status_text(self.position(), self.bits().len()),
            self.bits() == tape_bits(self.tape()),
            self.position() <= self.bits().len(),
    {
        proof { use_type_invariant(self); }
        let mut s = String::new();
        if self.serialized_tape.len() == 0 {
            push_str(&mut s, "Tape: no tape inserted");
        } else {
            push_str(&mut s, "Tape: position ");
            push_decimal(&mut s, self.tape_position as u64);
            push_str(&mut s, "/");
            push_decimal(&mut s, self.serialized_tape.len() as u64);
            push_str(&mut s, " bits");
        }
        assert(s@ =~= status_text(self.position(), self.bits().len()));
        s
    }
}

impl Default for CassetteReader {
    fn default() -> (r: Self)
        ensures
            r.tape() == Seq::<u8>::empty(),
            r.bits() == Seq::<u8>::empty(),
            r.position() == 0,
    {
        Self::new()
    }
}

} // verus!
