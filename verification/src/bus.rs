//! The TRS-80 Model I bus: RAM and ROM in one flat 64K address space (a
//! `zilog_z80` `FlatBus`), plus the cassette reader on port 0xFF.

use vstd::prelude::*;
use zilog_z80::bus::Bus;
use zilog_z80::bus::FlatBus;
use crate::cassette::CassetteReader;

verus! {

#[verifier::external_type_specification]
#[verifier::external_body]
pub struct ExFlatBus(FlatBus);

/// The bytes of a `FlatBus`'s address space, from address 0 up.
pub uninterp spec fn flat_bus_memory(bus: FlatBus) -> Seq<u8>;

/// The read-only range (first and last address) set on a `FlatBus`, if any.
pub uninterp spec fn flat_bus_rom(bus: FlatBus) -> Option<(u16, u16)>;

/// The text and length in bytes of the instruction that `dasm` decodes at
/// `address` in a memory holding `memory`.
pub uninterp spec fn disassembly(memory: Seq<u8>, address: u16) -> (Seq<char>, u8);

/// Whether `b` is a DD or FD prefix, which makes the decoder read on.
pub open spec fn is_index_prefix(b: u8) -> bool {
    b == 0xDD || b == 0xFD
}

/// How many bytes from an address are looked at for the end of a run of DD
/// and FD prefixes: the decoder counts the bytes it reads in a `u8`, and
/// reads at most four more after the last prefix.
pub const PREFIX_SCAN: u16 = 252;

/// Whether the decoder's reading stops within reach: among the first
/// `PREFIX_SCAN` bytes from `address` (wrapping round at 0x10000) is one
/// that is not a DD or FD prefix.
pub open spec fn decodable(memory: Seq<u8>, address: u16) -> bool {
    exists|i: int| 0 <= i < PREFIX_SCAN && !is_index_prefix(#[trigger] read_at(memory, ((address + i) % 0x10000) as u16))
}

/// The text shown for an address where only DD/FD prefixes follow, as far as
/// the decoder can count.
pub const PREFIX_RUN_TEXT: &'static str = "DD/FD prefixes only";

/// The text and length of the instruction at `address` as the library shows
/// it: the decoder's, or, in a run of prefixes it cannot count to the end,
/// `PREFIX_RUN_TEXT` for that one byte.
pub open spec fn instruction(memory: Seq<u8>, address: u16) -> (Seq<char>, u8) {
    if decodable(memory, address) { disassembly(memory, address) } else { (PREFIX_RUN_TEXT@, 1) }
}

/// Whether `address` lies in the read-only range `rom`.
pub open spec fn in_rom(rom: Option<(u16, u16)>, address: u16) -> bool {
    match rom {
        Some((start, end)) => start <= address && address <= end,
        None => false,
    }
}

/// The memory after writing `data` at `address`: unchanged outside the
/// address space and inside the read-only range.
pub open spec fn written(memory: Seq<u8>, rom: Option<(u16, u16)>, address: u16, data: u8) -> Seq<u8> {
    if address < memory.len() && !in_rom(rom, address) {
        memory.update(address as int, data)
    } else {
        memory
    }
}

/// The byte read at `address`: 0 outside the address space.
pub open spec fn read_at(memory: Seq<u8>, address: u16) -> u8 {
    if address < memory.len() { memory[address as int] } else { 0 }
}

/// The little-endian word at `address`: its low byte there, its high byte
/// at the next address (wrapping round at 0x10000).
pub open spec fn word_at(memory: Seq<u8>, address: u16) -> u16 {
    (read_at(memory, address) as int + 256 * read_at(memory, ((address + 1) % 0x10000) as u16) as int) as u16
}

/// The memory after writing the first `n` bytes of `bytes` one by one from
/// `org` on, the address wrapping round at 0x10000.
pub open spec fn loaded(memory: Seq<u8>, rom: Option<(u16, u16)>, bytes: Seq<u8>, org: u16, n: nat) -> Seq<u8>
    decreases n,
{
    if n == 0 {
        memory
    } else {
        let k = (n - 1) as nat;
        written(loaded(memory, rom, bytes, org, k), rom, ((org + k) % 0x10000) as u16, bytes[k as int])
    }
}

/// Reading back: a write shows at its own address (unless it was read-only
/// or out of range, when nothing changes), and at no other address.
pub proof fn lemma_read_after_write(memory: Seq<u8>, rom: Option<(u16, u16)>, address: u16, data: u8, other: u16)
    ensures
        read_at(written(memory, rom, address, data), other) == if other == address && address < memory.len()
            && !in_rom(rom, address) { data } else { read_at(memory, other) },
        written(memory, rom, address, data).len() == memory.len(),
{
}

/// `FlatBus::new`: an address space of `size + 1` zero bytes, no ROM.
#[verifier::external_body]
fn flat_bus_new(size: u16) -> (b: FlatBus)
    ensures
        flat_bus_memory(b) == Seq::new(size as nat + 1, |i: int| 0u8),
        flat_bus_rom(b) is None,
{
    FlatBus::new(size)
}

/// `FlatBus::set_romspace`: later writes from `start` to `end` are ignored.
#[verifier::external_body]
fn flat_bus_set_romspace(b: &mut FlatBus, start: u16, end: u16)
    ensures
        flat_bus_memory(*final(b)) == flat_bus_memory(*old(b)),
        flat_bus_rom(*final(b)) == Some((start, end)),
{
    b.set_romspace(start, end)
}

/// `FlatBus::read_mem_slice`: the bytes from `start` to `end`, both included.
#[verifier::external_body]
fn flat_bus_read_mem_slice(b: &FlatBus, start: usize, end: usize) -> (r: Vec<u8>)
    requires
        end < flat_bus_memory(*b).len(),
        start <= end + 1,
    ensures
        r@ == flat_bus_memory(*b).subrange(start as int, end + 1),
{
    b.read_mem_slice(start, end)
}

/// `FlatBus::clear_mem_slice`: zeroes the bytes from `start` to `end`, both
/// included, read-only range or not.
#[verifier::external_body]
fn flat_bus_clear_mem_slice(b: &mut FlatBus, start: usize, end: usize)
    requires
        end < flat_bus_memory(*old(b)).len(),
    ensures
        flat_bus_rom(*final(b)) == flat_bus_rom(*old(b)),
        flat_bus_memory(*final(b)) == Seq::new(
            flat_bus_memory(*old(b)).len(),
            |i: int| if start <= i <= end { 0u8 } else { flat_bus_memory(*old(b))[i] },
        ),
{
    b.clear_mem_slice(start, end)
}

/// `Bus::read_byte` on a `FlatBus`.
#[verifier::external_body]
fn flat_bus_read_byte(b: &FlatBus, address: u16) -> (r: u8)
    ensures
        r == read_at(flat_bus_memory(*b), address),
{
    b.read_byte(address)
}

/// `Bus::write_byte` on a `FlatBus`.
#[verifier::external_body]
fn flat_bus_write_byte(b: &mut FlatBus, address: u16, data: u8)
    ensures
        flat_bus_rom(*final(b)) == flat_bus_rom(*old(b)),
        flat_bus_memory(*final(b)) == written(
            flat_bus_memory(*old(b)), flat_bus_rom(*old(b)), address, data),
{
    b.write_byte(address, data)
}

/// `zilog_z80::dasm::dasm` over a `FlatBus`. It decodes one instruction,
/// reading on through DD/FD prefixes; it is called only where the run of
/// prefixes ends within `PREFIX_SCAN` bytes, so that its `u8` count of the
/// bytes read cannot overflow.
#[verifier::external_body]
fn flat_bus_dasm(b: &FlatBus, address: u16) -> (r: (String, u8))
    requires
        decodable(flat_bus_memory(*b), address),
    ensures
        (r.0@, r.1) == disassembly(flat_bus_memory(*b), address),
{
    zilog_z80::dasm::dasm(b, address)
}

/// RAM/ROM plus the cassette reader.
pub struct TrsBus {
    pub mem: FlatBus,
    pub tape: CassetteReader,
    pub debug_io: bool,
}

impl TrsBus {
    /// The bytes of the address space.
    pub open spec fn memory(&self) -> Seq<u8> {
        flat_bus_memory(self.mem)
    }

    /// The read-only range, if one is set.
    pub open spec fn rom(&self) -> Option<(u16, u16)> {
        flat_bus_rom(self.mem)
    }

    /// A bus whose top address is `size`, all zero, with no ROM and no tape.
    pub fn new(size: u16) -> (r: Self)
        ensures
            r.memory() == Seq::new(size as nat + 1, |i: int| 0u8),
            r.rom() is None,
            r.tape.tape() == Seq::<u8>::empty(),
            r.tape.bits() == Seq::<u8>::empty(),
            r.tape.position() == 0,
            !r.debug_io,
    {
        Self { mem: flat_bus_new(size), tape: CassetteReader::new(), debug_io: false }
    }

    /// Makes `start..=end` read-only.
    pub fn set_romspace(&mut self, start: u16, end: u16)
        ensures
            final(self).memory() == old(self).memory(),
            final(self).rom() == Some((start, end)),
            final(self).tape == old(self).tape,
            final(self).debug_io == old(self).debug_io,
    {
        flat_bus_set_romspace(&mut self.mem, start, end)
    }

    /// The bytes from `start` to `end`, both included.
    pub fn read_mem_slice(&self, start: usize, end: usize) -> (r: Vec<u8>)
        requires
            end < self.memory().len(),
            start <= end + 1,
        ensures
            r@ == self.memory().subrange(start as int, end + 1),
    {
        flat_bus_read_mem_slice(&self.mem, start, end)
    }

    /// Zeroes the bytes from `start` to `end`, both included.
    pub fn clear_mem_slice(&mut self, start: usize, end: usize)
        requires
            end < old(self).memory().len(),
        ensures
            final(self).rom() == old(self).rom(),
            final(self).memory() == Seq::new(
                old(self).memory().len(),
                |i: int| if start <= i <= end { 0u8 } else { old(self).memory()[i] },
            ),
            final(self).tape == old(self).tape,
            final(self).debug_io == old(self).debug_io,
    {
        flat_bus_clear_mem_slice(&mut self.mem, start, end)
    }

    /// Writes `rom` byte by byte from `org` on (wrapping round at 0x10000),
    /// as ordinary writes, and returns its length. Done before the range is
    /// made read-only.
    pub fn load_bytes(&mut self, rom: &[u8], org: u16) -> (n: usize)
        ensures
            n == rom@.len(),
            final(self).rom() == old(self).rom(),
            final(self).memory() == loaded(old(self).memory(), old(self).rom(), rom@, org, rom@.len()),
            final(self).tape == old(self).tape,
            final(self).debug_io == old(self).debug_io,
    {
        let mut i: usize = 0;
        while i < rom.len()
            invariant
                i <= rom@.len(),
                self.rom() == old(self).rom(),
                self.memory() == loaded(old(self).memory(), old(self).rom(), rom@, org, i as nat),
                self.tape == old(self).tape,
                self.debug_io == old(self).debug_io,
            decreases rom@.len() - i,
        {
            let address = org.wrapping_add(i as u16);
            assert(address == ((org + i) % 0x10000) as u16) by (bit_vector)
                requires
                    address == org.wrapping_add(i as u16),
            ;
            flat_bus_write_byte(&mut self.mem, address, rom[i]);
            i += 1;
        }
        rom.len()
    }

    /// The byte at `address`.
    pub fn read_byte(&self, address: u16) -> (r: u8)
        ensures
            r == read_at(self.memory(), address),
    {
        flat_bus_read_byte(&self.mem, address)
    }

    /// Writes `data` at `address`, unless it is read-only or out of range.
    pub fn write_byte(&mut self, address: u16, data: u8)
        ensures
            final(self).rom() == old(self).rom(),
            final(self).memory() == written(old(self).memory(), old(self).rom(), address, data),
            final(self).tape == old(self).tape,
            final(self).debug_io == old(self).debug_io,
    {
        flat_bus_write_byte(&mut self.mem, address, data)
    }

    /// The little-endian word at `address` (high byte at `address + 1`,
    /// wrapping round).
    pub fn read_word(&self, address: u16) -> (r: u16)
        ensures
            r == word_at(self.memory(), address),
    {
        let next = address.wrapping_add(1);
        assert(next == ((address + 1) % 0x10000) as u16) by (bit_vector)
            requires next == address.wrapping_add(1);
        let lo = flat_bus_read_byte(&self.mem, address);
        let hi = flat_bus_read_byte(&self.mem, next);
        (lo as u16) + 256 * (hi as u16)
    }

    /// A read of I/O port `port`: the cassette reader answers on port 0xFF
    /// (decoded on the low byte only); any other port reads 0xFF.
    pub fn read_io(&mut self, port: u16) -> (r: u8)
        ensures
            final(self).memory() == old(self).memory(),
            final(self).rom() == old(self).rom(),
            final(self).debug_io == old(self).debug_io,
            port & 0xFF == 0xFF ==> {
                &&& final(self).tape.tape() == old(self).tape.tape()
                &&& final(self).tape.bits() == old(self).tape.bits()
                &&& if old(self).tape.position() < old(self).tape.bits().len() {
                        &&& r == old(self).tape.bits()[old(self).tape.position() as int] << 7u8
                        &&& final(self).tape.position() == old(self).tape.position() + 1
                    } else {
                        &&& r == 0
                        &&& final(self).tape.position() == old(self).tape.position()
                    }
            },
            port & 0xFF == 0xFF ==> (r == 0 || r == 0x80),
            port & 0xFF != 0xFF ==> r == 0xFF && final(self).tape == old(self).tape,
    {
        if port & 0xFF == 0xFF {
            self.tape.read()
        } else {
            0xFF
        }
    }

    /// The text and length of the instruction at `address` (see
    /// `instruction`).
    pub fn disassemble(&self, address: u16) -> (r: (String, u8))
        ensures
            (r.0@, r.1) == instruction(self.memory(), address),
    {
        if self.prefix_run_ends(address) {
            flat_bus_dasm(&self.mem, address)
        } else {
            let mut text = String::new();
            crate::text::push_str(&mut text, PREFIX_RUN_TEXT);
            (text, 1)
        }
    }

    /// Whether the run of DD/FD prefixes from `address` ends in reach of the
    /// decoder.
    fn prefix_run_ends(&self, address: u16) -> (r: bool)
        ensures
            r == decodable(self.memory(), address),
    {
        let mut i: u16 = 0;
        while i < PREFIX_SCAN
            invariant
                i <= PREFIX_SCAN,
                forall|j: int| 0 <= j < i ==>
                    is_index_prefix(#[trigger] read_at(self.memory(), ((address + j) % 0x10000) as u16)),
            decreases PREFIX_SCAN - i,
        {
            let a = address.wrapping_add(i);
            assert(a == ((address + i) % 0x10000) as u16) by (bit_vector)
                requires a == address.wrapping_add(i);
            let b = self.read_byte(a);
            if !(b == 0xDD || b == 0xFD) {
                assert(!is_index_prefix(read_at(self.memory(), ((address + i as int) % 0x10000) as u16)));
                return true;
            }
            i += 1;
        }
        false
    }
}

} // verus!
