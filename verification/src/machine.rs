//! The machine around the Z80: its bus, its breakpoints, whether it runs,
//! the pacing of emulated time against real time, and the monitor commands
//! typed at the console.
//!
//! The CPU itself runs in the frontend, which drives it against the bus;
//! the commands that need it (the program counter, a single step, the
//! registers) come back here with what the CPU reported.

use vstd::prelude::*;
use vstd::std_specs::hash::{into_iter_hash_keys, spec_hash_keys_iter};
use std::collections::HashSet;
use crate::bus::{TrsBus, instruction, read_at, word_at, written};
use crate::hexconversion::{ConversionError, HexStringToUnsigned, spec_to_u16, spec_to_u8};
use crate::monitor::{MonitorCmd, MonitorMessage};
use crate::cassette::status_text;
use crate::text::{decimal, hex_upper, prefixed_hex, push_decimal, push_hex, push_str};

verus! {

broadcast use vstd::std_specs::hash::group_hash_axioms;

/// The version reported by `help`.
pub const VERSION: &'static str = "0.1.0";

/// One Z80 T-state of the TRS-80 Model I's 1.77MHz clock, in nanoseconds
/// (1e9 / 1.77e6 = 564.97, rounded).
pub const CPU_TICK_NANOS: u64 = 565;

/// The most T-states one pacing step will run to catch up with real time
/// (about 100ms of emulated time): a backstop after a long pause.
pub const MAX_CATCHUP_TICKS: u32 = 177_000;

/// The emulated time that `ticks` T-states take, in nanoseconds.
pub fn emulated_duration(ticks: u32) -> (nanos: u64)
    ensures
        nanos == ticks * CPU_TICK_NANOS,
{
    ticks as u64 * CPU_TICK_NANOS
}

/// How many T-states to run for `elapsed_nanos` of real time, and whether
/// that was capped at `MAX_CATCHUP_TICKS` (in which case the frontend
/// resynchronises its clock on the present instead of catching up).
pub fn tick_budget(elapsed_nanos: u64) -> (r: (u32, bool))
    ensures
        r.1 == (elapsed_nanos > MAX_CATCHUP_TICKS * CPU_TICK_NANOS),
        r.1 ==> r.0 == MAX_CATCHUP_TICKS,
        !r.1 ==> r.0 == elapsed_nanos / CPU_TICK_NANOS,
        r.0 <= MAX_CATCHUP_TICKS,
{
    let cap = emulated_duration(MAX_CATCHUP_TICKS);
    let capped = elapsed_nanos > cap;
    let budget_nanos = if capped { cap } else { elapsed_nanos };
    ((budget_nanos / CPU_TICK_NANOS) as u32, capped)
}

/// The `help` text, after its version line.
pub open spec fn help_text() -> Seq<char> {
    "\nCommands:\n    reset           reboots the TRS-80\n    powercycle, pc  reboots the TRS-80 and clears RAM\n    tape rewind     \"rewinds\" the tape\n    tape [file]     \"inserts\" a .cas tape file\n\nMonitor commands:\n    d 0x0000        disassembles code at 0x0000 and the 20 next\n                    instructions\n    m 0xeeee        displays memory content at address 0xeeee\n    m 0xeeee 0xaa   sets memory address 0xeeee to the 0xaa value\n    j 0x0000        jumps to 0x0000 address\n    b               displays set breakpoints\n    b 0x0002        sets a breakpoint at address 0x0002\n    f 0x0002        \"frees\" (deletes) breakpoint at address 0x0002\n    p               pauses execution immediately\n    g               resumes execution (after a breakpoint or \"p\")\n    n               executes a single instruction (usually while paused)\n    r               displays the contents of flags and registers\n    hw              displays hardware peripheral status (tape)"@
}

/// `{:#06X}` of a word: `0x` and four upper-case digits.
pub open spec fn word_text(n: u16) -> Seq<char> {
    prefixed_hex(n as nat, 4)
}

/// `{:#04X}` of a byte: `0x` and two upper-case digits.
pub open spec fn byte_text(n: u8) -> Seq<char> {
    prefixed_hex(n as nat, 2)
}

/// A flag printed as a number: `1` or `0`.
pub open spec fn flag_text(b: bool) -> Seq<char> {
    if b { "1"@ } else { "0"@ }
}

/// `{:<5}` of a boolean: `true ` or `false`.
pub open spec fn bool_text(b: bool) -> Seq<char> {
    if b { "true "@ } else { "false"@ }
}

/// The address of the instruction after the one at `address`.
pub open spec fn next_instruction(memory: Seq<u8>, address: u16) -> u16 {
    ((address + instruction(memory, address).1) % 0x10000) as u16
}

/// The address of the `k`-th instruction from `start` on (the 0th being at
/// `start`), wrapping round at 0x10000.
pub open spec fn instruction_address(memory: Seq<u8>, start: u16, k: nat) -> u16
    decreases k,
{
    if k == 0 { start } else { next_instruction(memory, instruction_address(memory, start, (k - 1) as nat)) }
}

/// One listing line: the address, four spaces, the instruction.
pub open spec fn listing_line(memory: Seq<u8>, address: u16) -> Seq<char> {
    hex_upper(address as nat, 4) + "    "@ + instruction(memory, address).0 + "\n"@
}

/// The listing of the first `count` instructions from `start` on.
pub open spec fn listing(memory: Seq<u8>, start: u16, count: nat) -> Seq<char>
    decreases count,
{
    if count == 0 {
        Seq::empty()
    } else {
        listing(memory, start, (count - 1) as nat)
            + listing_line(memory, instruction_address(memory, start, (count - 1) as nat))
    }
}

/// A listing goes from instruction to instruction: its first line is at
/// `start`, each line after it is at the previous line's address plus the
/// length the decoder gives for the instruction there (wrapping round at
/// 0x10000), and each line shows its address in four upper-case digits, four
/// spaces and the decoded instruction.
pub proof fn lemma_listing_follows_instruction_lengths(memory: Seq<u8>, start: u16, n: nat)
    ensures
        instruction_address(memory, start, 0) == start,
        instruction_address(memory, start, n + 1) == ((instruction_address(memory, start, n)
            + instruction(memory, instruction_address(memory, start, n)).1) % 0x10000) as u16,
        listing(memory, start, n + 1) == listing(memory, start, n) + hex_upper(
            instruction_address(memory, start, n) as nat, 4) + "    "@ + instruction(
            memory, instruction_address(memory, start, n)).0 + "\n"@,
{
}

/// A listing of `n + 1` instructions is its first line followed by the
/// listing of `n` instructions from the next instruction on.
pub proof fn lemma_listing_first_line(memory: Seq<u8>, start: u16, n: nat)
    ensures
        listing(memory, start, n + 1) == hex_upper(start as nat, 4) + "    "@ + instruction(memory, start).0
            + "\n"@ + listing(memory, ((start + instruction(memory, start).1) % 0x10000) as u16, n),
    decreases n,
{
    let next = ((start + instruction(memory, start).1) % 0x10000) as u16;
    lemma_instruction_address_shift(memory, start, n);
    if n == 0 {
        assert(listing(memory, next, 0) =~= Seq::<char>::empty());
        assert(listing(memory, start, 0) =~= Seq::<char>::empty());
    } else {
        lemma_listing_first_line(memory, start, (n - 1) as nat);
        lemma_instruction_address_shift(memory, start, (n - 1) as nat);
    }
}

proof fn lemma_instruction_address_shift(memory: Seq<u8>, start: u16, k: nat)
    ensures
        instruction_address(memory, start, k + 1) == instruction_address(
            memory, ((start + instruction(memory, start).1) % 0x10000) as u16, k),
    decreases k,
{
    let next = ((start + instruction(memory, start).1) % 0x10000) as u16;
    assert(instruction_address(memory, start, 0) == start);
    if k == 0 {
        assert(instruction_address(memory, start, 1) == next_instruction(memory, start));
        assert(instruction_address(memory, next, 0) == next);
    } else {
        lemma_instruction_address_shift(memory, start, (k - 1) as nat);
        assert(instruction_address(memory, start, k + 1) == next_instruction(
            memory, instruction_address(memory, start, k)));
        assert(instruction_address(memory, next, k) == next_instruction(
            memory, instruction_address(memory, next, (k - 1) as nat)));
    }
}

/// The breakpoint list: one `{:#06X}` line per breakpoint.
pub open spec fn breakpoint_lines(bps: Seq<u16>) -> Seq<char>
    decreases bps.len(),
{
    if bps.len() == 0 {
        Seq::empty()
    } else {
        breakpoint_lines(bps.drop_last()) + word_text(bps.last()) + "\n"@
    }
}

/// The CPU state that the `r` command and the status panel report.
#[derive(Clone, Copy, Debug, PartialEq, Eq, Structural)]
pub struct CpuRegisters {
    pub pc: u16,
    pub sp: u16,
    pub flag_s: bool,
    pub flag_z: bool,
    pub flag_h: bool,
    pub flag_p: bool,
    pub flag_n: bool,
    pub flag_c: bool,
    pub bc: u16,
    pub de: u16,
    pub hl: u16,
    pub af: u16,
    pub alt_bc: u16,
    pub alt_de: u16,
    pub alt_hl: u16,
    pub alt_af: u16,
    pub ixh: u8,
    pub ixl: u8,
    pub iyh: u8,
    pub iyl: u8,
    pub iff1: bool,
    pub iff2: bool,
    pub im: u8,
    pub pending_int: bool,
    pub pending_nmi: bool,
}

pub open spec fn registers_line_pc(r: CpuRegisters) -> Seq<char> {
    "PC :"@ + word_text(r.pc) + "   SP : "@ + word_text(r.sp) + "\n"@
}

pub open spec fn registers_flags_szh(r: CpuRegisters) -> Seq<char> {
    "S : "@ + flag_text(r.flag_s) + "  Z : "@ + flag_text(r.flag_z) + "  H : "@ + flag_text(r.flag_h)
}

pub open spec fn registers_flags_pnc(r: CpuRegisters) -> Seq<char> {
    "  P : "@ + flag_text(r.flag_p) + "  N : "@ + flag_text(r.flag_n) + "  C : "@ + flag_text(r.flag_c) + "\n"@
}

pub open spec fn registers_line_flags(r: CpuRegisters) -> Seq<char> {
    registers_flags_szh(r) + registers_flags_pnc(r)
}

pub open spec fn registers_line_pairs(r: CpuRegisters) -> Seq<char> {
    "BC : "@ + word_text(r.bc) + "  DE : "@ + word_text(r.de)
    + "  HL : "@ + word_text(r.hl) + "  AF : "@ + word_text(r.af) + "\n"@
}

pub open spec fn registers_line_alt(r: CpuRegisters) -> Seq<char> {
    "BC': "@ + word_text(r.alt_bc) + "  DE': "@ + word_text(r.alt_de)
    + "  HL': "@ + word_text(r.alt_hl) + "  AF': "@ + word_text(r.alt_af) + "\n"@
}

pub open spec fn registers_line_index(r: CpuRegisters) -> Seq<char> {
    "IXH : "@ + byte_text(r.ixh) + "  IXL : "@ + byte_text(r.ixl)
    + "  IYH : "@ + byte_text(r.iyh) + "  IYL : "@ + byte_text(r.iyl) + "\n"@
}

pub open spec fn registers_line_interrupts(r: CpuRegisters, stack_top: u16) -> Seq<char> {
    "(SP) : "@ + word_text(stack_top) + "  IFF1 : "@ + bool_text(r.iff1)
    + "  IFF2 : "@ + bool_text(r.iff2) + "  IM : "@ + decimal(r.im as nat)
    + "  Pending INT : "@ + bool_text(r.pending_int) + "  Pending NMI : "@ + bool_text(r.pending_nmi)
}

/// The register block, with `stack_top` the word at the stack pointer.
pub open spec fn registers_text(r: CpuRegisters, stack_top: u16) -> Seq<char> {
    registers_line_pc(r) + registers_line_flags(r) + registers_line_pairs(r)
        + registers_line_alt(r) + registers_line_index(r) + registers_line_interrupts(r, stack_top)
}

fn push_line_pc(s: &mut String, r: &CpuRegisters)
    ensures final(s)@ == old(s)@ + registers_line_pc(*r),
{
    push_str(s, "PC :");
    push_word(s, r.pc);
    push_str(s, "   SP : ");
    push_word(s, r.sp);
    push_str(s, "\n");
    assert(final(s)@ =~= old(s)@ + registers_line_pc(*r));
}

fn push_flags_szh(s: &mut String, r: &CpuRegisters)
    ensures final(s)@ == old(s)@ + registers_flags_szh(*r),
{
    push_str(s, "S : ");
    push_flag(s, r.flag_s);
    push_str(s, "  Z : ");
    push_flag(s, r.flag_z);
    push_str(s, "  H : ");
    push_flag(s, r.flag_h);
    assert(final(s)@ =~= old(s)@ + registers_flags_szh(*r));
}

fn push_flags_pnc(s: &mut String, r: &CpuRegisters)
    ensures final(s)@ == old(s)@ + registers_flags_pnc(*r),
{
    push_str(s, "  P : ");
    push_flag(s, r.flag_p);
    push_str(s, "  N : ");
    push_flag(s, r.flag_n);
    push_str(s, "  C : ");
    push_flag(s, r.flag_c);
    push_str(s, "\n");
    assert(final(s)@ =~= old(s)@ + registers_flags_pnc(*r));
}

fn push_line_pairs(s: &mut String, r: &CpuRegisters)
    ensures final(s)@ == old(s)@ + registers_line_pairs(*r),
{
    push_str(s, "BC : ");
    push_word(s, r.bc);
    push_str(s, "  DE : ");
    push_word(s, r.de);
    push_str(s, "  HL : ");
    push_word(s, r.hl);
    push_str(s, "  AF : ");
    push_word(s, r.af);
    push_str(s, "\n");
    assert(final(s)@ =~= old(s)@ + registers_line_pairs(*r));
}

fn push_line_alt(s: &mut String, r: &CpuRegisters)
    ensures final(s)@ == old(s)@ + registers_line_alt(*r),
{
    push_str(s, "BC': ");
    push_word(s, r.alt_bc);
    push_str(s, "  DE': ");
    push_word(s, r.alt_de);
    push_str(s, "  HL': ");
    push_word(s, r.alt_hl);
    push_str(s, "  AF': ");
    push_word(s, r.alt_af);
    push_str(s, "\n");
    assert(final(s)@ =~= old(s)@ + registers_line_alt(*r));
}

fn push_line_index(s: &mut String, r: &CpuRegisters)
    ensures final(s)@ == old(s)@ + registers_line_index(*r),
{
    push_str(s, "IXH : ");
    push_byte(s, r.ixh);
    push_str(s, "  IXL : ");
    push_byte(s, r.ixl);
    push_str(s, "  IYH : ");
    push_byte(s, r.iyh);
    push_str(s, "  IYL : ");
    push_byte(s, r.iyl);
    push_str(s, "\n");
    assert(final(s)@ =~= old(s)@ + registers_line_index(*r));
}

#[verifier::rlimit(50)]
fn push_line_interrupts(s: &mut String, r: &CpuRegisters, stack_top: u16)
    ensures final(s)@ == old(s)@ + registers_line_interrupts(*r, stack_top),
{
    push_str(s, "(SP) : ");
    push_word(s, stack_top);
    push_str(s, "  IFF1 : ");
    push_bool(s, r.iff1);
    push_str(s, "  IFF2 : ");
    push_bool(s, r.iff2);
    push_str(s, "  IM : ");
    push_decimal(s, r.im as u64);
    push_str(s, "  Pending INT : ");
    push_bool(s, r.pending_int);
    push_str(s, "  Pending NMI : ");
    push_bool(s, r.pending_nmi);
    assert(final(s)@ =~= old(s)@ + registers_line_interrupts(*r, stack_top));
}

/// What a monitor command leaves for the frontend to do with the CPU.
pub enum CommandOutcome {
    /// Nothing: report `output`.
    Done { output: String },
    /// Set the program counter to `pc`, then report `output`.
    SetPc { pc: u16, output: String },
    /// Read the tape file `name` from the tape directory and hand its
    /// content (or its absence) to `Machine::finish_tape_load`.
    LoadTape { name: String },
    /// Execute one instruction, then report `Machine::step_report`.
    Step,
    /// Report `Machine::get_registers_string` of the CPU's registers.
    Registers,
}

fn push_word(s: &mut String, n: u16)
    ensures
        final(s)@ == old(s)@ + word_text(n),
{
    proof { reveal_strlit("0x"); }
    push_str(s, "0x");
    push_hex(s, n as u64, 4);
    assert(final(s)@ =~= old(s)@ + word_text(n));
}

fn push_byte(s: &mut String, n: u8)
    ensures
        final(s)@ == old(s)@ + byte_text(n),
{
    proof { reveal_strlit("0x"); }
    push_str(s, "0x");
    push_hex(s, n as u64, 2);
    assert(final(s)@ =~= old(s)@ + byte_text(n));
}

fn push_flag(s: &mut String, b: bool)
    ensures
        final(s)@ == old(s)@ + flag_text(b),
{
    if b { push_str(s, "1") } else { push_str(s, "0") }
}

fn push_bool(s: &mut String, b: bool)
    ensures
        final(s)@ == old(s)@ + bool_text(b),
{
    if b { push_str(s, "true ") } else { push_str(s, "false") }
}

/// What the terminal console leaves for the frontend to do with the CPU.
#[derive(Debug, Clone, PartialEq, Eq)]
pub enum TerminalEffect {
    Nothing,
    /// Set the program counter.
    SetPc(u16),
    /// Load the tape file of that name (see `Machine::finish_tape_load`).
    LoadTape(String),
    /// Print `Machine::terminal_registers_string` of the CPU's registers.
    Registers,
}

/// What a terminal console command printed, and how it ended.
pub struct TerminalReply {
    pub output: String,
    pub result: Result<TerminalEffect, ConversionError>,
}

/// The terminal console's help text, after its version line.
pub open spec fn terminal_help_text() -> Seq<char> {
    TERMINAL_HELP@
}

/// The first line of the terminal console's register block.
pub open spec fn terminal_line_pc_sp(r: CpuRegisters) -> Seq<char> {
    "PC :"@ + word_text(r.pc) + "\tSP : "@ + word_text(r.sp) + "\n"@
}

pub open spec fn terminal_flags_szh(r: CpuRegisters) -> Seq<char> {
    "S : "@ + flag_text(r.flag_s) + "\tZ : "@ + flag_text(r.flag_z) + "\tH : "@ + flag_text(r.flag_h)
}

pub open spec fn terminal_flags_pnc(r: CpuRegisters) -> Seq<char> {
    "\tP : "@ + flag_text(r.flag_p) + "\tN : "@ + flag_text(r.flag_n) + "\tC : "@ + flag_text(r.flag_c)
        + "\n"@
}

/// The register block of the terminal console: the registers one by one.
pub open spec fn terminal_registers_top(r: CpuRegisters) -> Seq<char> {
    terminal_line_pc_sp(r) + terminal_flags_szh(r) + terminal_flags_pnc(r)
}

pub open spec fn terminal_registers_bottom(r: CpuRegisters, stack_top: u16) -> Seq<char> {
    "B : "@ + byte_text((r.bc / 256) as u8) + "\tC : "@ + byte_text((r.bc % 256) as u8)
        + "\nD : "@ + byte_text((r.de / 256) as u8) + "\tE : "@ + byte_text((r.de % 256) as u8)
        + "\nH : "@ + byte_text((r.hl / 256) as u8) + "\tL : "@ + byte_text((r.hl % 256) as u8)
        + "\nA : "@ + byte_text((r.af / 256) as u8) + "\t(SP) : "@ + word_text(stack_top) + "\n"@
}

pub open spec fn terminal_registers_text(r: CpuRegisters, stack_top: u16) -> Seq<char> {
    terminal_registers_top(r) + terminal_registers_bottom(r, stack_top)
}

fn push_terminal_pc_sp(s: &mut String, r: &CpuRegisters)
    ensures final(s)@ == old(s)@ + terminal_line_pc_sp(*r),
{
    push_str(s, "PC :");
    push_word(s, r.pc);
    push_str(s, "\tSP : ");
    push_word(s, r.sp);
    push_str(s, "\n");
    assert(final(s)@ =~= old(s)@ + terminal_line_pc_sp(*r));
}

fn push_terminal_flags_szh(s: &mut String, r: &CpuRegisters)
    ensures final(s)@ == old(s)@ + terminal_flags_szh(*r),
{
    push_str(s, "S : ");
    push_flag(s, r.flag_s);
    push_str(s, "\tZ : ");
    push_flag(s, r.flag_z);
    push_str(s, "\tH : ");
    push_flag(s, r.flag_h);
    assert(final(s)@ =~= old(s)@ + terminal_flags_szh(*r));
}

fn push_terminal_flags_pnc(s: &mut String, r: &CpuRegisters)
    ensures final(s)@ == old(s)@ + terminal_flags_pnc(*r),
{
    push_str(s, "\tP : ");
    push_flag(s, r.flag_p);
    push_str(s, "\tN : ");
    push_flag(s, r.flag_n);
    push_str(s, "\tC : ");
    push_flag(s, r.flag_c);
    push_str(s, "\n");
    assert(final(s)@ =~= old(s)@ + terminal_flags_pnc(*r));
}

fn push_terminal_registers_top(s: &mut String, r: &CpuRegisters)
    ensures final(s)@ == old(s)@ + terminal_registers_top(*r),
{
    push_terminal_pc_sp(s, r);
    push_terminal_flags_szh(s, r);
    push_terminal_flags_pnc(s, r);
    assert(final(s)@ =~= old(s)@ + terminal_registers_top(*r));
}

#[verifier::rlimit(50)]
fn push_terminal_registers_bottom(s: &mut String, r: &CpuRegisters, stack_top: u16)
    ensures final(s)@ == old(s)@ + terminal_registers_bottom(*r, stack_top),
{
    push_str(s, "B : ");
    push_byte(s, (r.bc / 256) as u8);
    push_str(s, "\tC : ");
    push_byte(s, (r.bc % 256) as u8);
    push_str(s, "\nD : ");
    push_byte(s, (r.de / 256) as u8);
    push_str(s, "\tE : ");
    push_byte(s, (r.de % 256) as u8);
    push_str(s, "\nH : ");
    push_byte(s, (r.hl / 256) as u8);
    push_str(s, "\tL : ");
    push_byte(s, (r.hl % 256) as u8);
    push_str(s, "\nA : ");
    push_byte(s, (r.af / 256) as u8);
    push_str(s, "\t(SP) : ");
    push_word(s, stack_top);
    push_str(s, "\n");
    assert(final(s)@ =~= old(s)@ + terminal_registers_bottom(*r, stack_top));
}

/// Whether the text `s` is empty.
fn string_is_empty(s: &String) -> (r: bool)
    ensures
        r == (s@.len() == 0),
{
    crate::text::str_chars(s.as_str()).len() == 0
}

/// The emulator's state outside the CPU.
pub struct Machine {
    bus: TrsBus,
    breakpoints: HashSet<u16>,
    running: bool,
    rom_size: usize,
    ram_size: usize,
}

impl Machine {
    /// The bus's state.
    pub closed spec fn bus_state(self) -> TrsBus {
        self.bus
    }

    /// The breakpoints, in the order the set of them hands them out (an
    /// order that depends on the set's hashing, not on when each was set).
    pub closed spec fn breakpoint_order(self) -> Seq<u16> {
        into_iter_hash_keys(spec_hash_keys_iter(&self.breakpoints))
    }

    /// The breakpoints.
    pub closed spec fn breakpoints(self) -> Set<u16> {
        self.breakpoints@
    }

    /// Whether the CPU runs.
    pub closed spec fn running(self) -> bool {
        self.running
    }

    /// The size of the ROM image loaded at address 0.
    pub closed spec fn rom_size(self) -> nat {
        self.rom_size as nat
    }

    /// The top of RAM that a power cycle clears up to.
    pub closed spec fn ram_size(self) -> nat {
        self.ram_size as nat
    }

    /// The machine's invariant: the bus is the full 64K address space, no
    /// breakpoint is listed twice, and RAM ends inside the address space.
    pub closed spec fn wf(self) -> bool {
        &&& self.bus.memory().len() == 0x10000
        &&& self.ram_size < 0x10000
    }

    /// The bus, to read from.
    pub fn bus(&self) -> (b: &TrsBus)
        ensures
            *b == self.bus_state(),
    {
        &self.bus
    }

    /// The bus, to run the CPU or the keyboard against: the machine is
    /// unchanged but for the bus, and stays well formed as long as the bus
    /// keeps its 64K address space.
    pub fn bus_mut(&mut self) -> (b: &mut TrsBus)
        requires
            old(self).wf(),
        ensures
            *b == old(self).bus_state(),
            final(self).bus_state() == *final(b),
            final(self).breakpoint_order() == old(self).breakpoint_order(),
            final(self).breakpoints() == old(self).breakpoints(),
            final(self).running() == old(self).running(),
            final(self).rom_size() == old(self).rom_size(),
            final(self).ram_size() == old(self).ram_size(),
            final(b).memory().len() == 0x10000 ==> final(self).wf(),
    {
        &mut self.bus
    }

    /// A machine running the ROM image `rom` (loaded at 0 and made
    /// read-only), with RAM up to `ram_size`.
    pub fn new(rom: &[u8], ram_size: u16, debug_io: bool) -> (m: Machine)
        ensures
            m.wf(),
            m.running(),
            m.breakpoints() == Set::<u16>::empty(),
            m.rom_size() == rom@.len(),
            m.ram_size() == ram_size,
            m.bus_state().memory() == crate::bus::loaded(
                Seq::new(0x10000, |i: int| 0u8), None, rom@, 0, rom@.len()),
            m.bus_state().rom() == Some((0u16, #[verifier::truncate] (rom@.len() as u16))),
            m.bus_state().debug_io == debug_io,
            m.bus_state().tape.bits() == Seq::<u8>::empty(),
            m.bus_state().tape.position() == 0,
    {
        let mut bus = TrsBus::new(0xFFFF);
        assert(bus.memory() =~= Seq::new(0x10000, |i: int| 0u8));
        bus.debug_io = debug_io;
        let rom_size = bus.load_bytes(rom, 0);
        bus.set_romspace(0, #[verifier::truncate] (rom_size as u16));
        proof { lemma_loaded_len(Seq::new(0x10000, |i: int| 0u8), None, rom@, 0, rom@.len()); }
        let m = Machine { bus, breakpoints: HashSet::new(), running: true, rom_size, ram_size: ram_size as usize };
        assert(m.breakpoints() =~= Set::<u16>::empty());
        m
    }

    pub fn start(&mut self)
        ensures
            final(self).running(),
            final(self).bus_state() == old(self).bus_state(),
            final(self).breakpoint_order() == old(self).breakpoint_order(),
            final(self).breakpoints() == old(self).breakpoints(),
            final(self).rom_size() == old(self).rom_size(),
            final(self).ram_size() == old(self).ram_size(),
            final(self).wf() == old(self).wf(),
    {
        self.running = true;
    }

    pub fn stop(&mut self)
        ensures
            !final(self).running(),
            final(self).bus_state() == old(self).bus_state(),
            final(self).breakpoint_order() == old(self).breakpoint_order(),
            final(self).breakpoints() == old(self).breakpoints(),
            final(self).rom_size() == old(self).rom_size(),
            final(self).ram_size() == old(self).ram_size(),
            final(self).wf() == old(self).wf(),
    {
        self.running = false;
    }

    pub fn is_running(&self) -> (r: bool)
        ensures
            r == self.running(),
    {
        self.running
    }

    /// Whether execution must stop with the program counter at `pc`.
    pub fn is_breakpoint(&self, pc: u16) -> (r: bool)
        ensures
            r == self.breakpoints().contains(pc),
    {
        self.breakpoints.contains(&pc)
    }

    /// The status report of the cassette reader.
    pub fn tape_status(&self) -> (s: String)
        ensures
            s@ == status_text(self.bus_state().tape.position(), self.bus_state().tape.bits().len()),
    {
        self.bus.tape.status()
    }

    /// Runs a monitor command. Arguments that should be hexadecimal and are
    /// not make it fail with the conversion error, changing nothing; what
    /// needs the CPU is left to the frontend in the outcome.
    pub fn process_command(&mut self, msg: MonitorMessage) -> (r: Result<CommandOutcome, ConversionError>)
        requires
            old(self).wf(),
        ensures
            final(self).wf(),
            final(self).rom_size() == old(self).rom_size(),
            final(self).ram_size() == old(self).ram_size(),
            final(self).bus_state().rom() == old(self).bus_state().rom(),
            final(self).bus_state().debug_io == old(self).bus_state().debug_io,
            ({
                let (cmd, arg, arg2) = msg;
                let before = *old(self);
                let after = *final(self);
                let mem = before.bus_state().memory();
                let same_bus = after.bus_state() == before.bus_state();
                let same_bps = after.breakpoint_order() == before.breakpoint_order()
                    && after.breakpoints() == before.breakpoints();
                let same_run = after.running() == before.running();
                match cmd {
                    MonitorCmd::Help => {
                        &&& same_bus &&& same_bps &&& same_run
                        &&& r matches Ok(CommandOutcome::Done { output })
                        &&& output@ == "Version "@ + VERSION@ + "\n"@ + help_text()
                    },
                    MonitorCmd::Reset => {
                        &&& same_bus &&& same_bps &&& after.running()
                        &&& r matches Ok(CommandOutcome::SetPc { pc, output })
                        &&& pc == 0 &&& output@ == "Reset done !"@
                    },
                    MonitorCmd::PowerCycle => {
                        &&& same_bps &&& after.running()
                        &&& after.bus_state().tape == before.bus_state().tape
                        &&& after.bus_state().memory() == Seq::new(0x10000, |i: int|
                            if before.rom_size() <= i <= before.ram_size() { 0u8 } else { mem[i] })
                        &&& r matches Ok(CommandOutcome::SetPc { pc, output })
                        &&& pc == 0 &&& output@ == "Powercycle done !"@
                    },
                    MonitorCmd::Tape => {
                        &&& same_bps &&& same_run
                        &&& if arg@ == "rewind"@ {
                            &&& after.bus_state().memory() == mem
                            &&& after.bus_state().tape.tape() == before.bus_state().tape.tape()
                            &&& after.bus_state().tape.bits() == before.bus_state().tape.bits()
                            &&& after.bus_state().tape.position() == 0
                            &&& r matches Ok(CommandOutcome::Done { output })
                            &&& output@ == "Tape rewound !"@
                        } else {
                            &&& same_bus
                            &&& r matches Ok(CommandOutcome::LoadTape { name })
                            &&& name@ == arg@
                        }
                    },
                    MonitorCmd::Disassemble => {
                        &&& same_bus &&& same_bps &&& same_run
                        &&& match spec_to_u16(arg@) {
                            Err(e) => r == Err::<CommandOutcome, ConversionError>(e),
                            Ok(a) => {
                                &&& r matches Ok(CommandOutcome::Done { output })
                                &&& output@ == listing(mem, a, 21)
                            },
                        }
                    },
                    MonitorCmd::ReadMem => {
                        &&& same_bus &&& same_bps &&& same_run
                        &&& match spec_to_u16(arg@) {
                            Err(e) => r == Err::<CommandOutcome, ConversionError>(e),
                            Ok(a) => {
                                &&& r matches Ok(CommandOutcome::Done { output })
                                &&& output@ == hex_upper(a as nat, 4) + "    "@ + hex_upper(read_at(mem, a) as nat, 2)
                            },
                        }
                    },
                    MonitorCmd::WriteMem => {
                        &&& same_bps &&& same_run
                        &&& after.bus_state().tape == before.bus_state().tape
                        &&& match (spec_to_u16(arg@), spec_to_u8(arg2@)) {
                            (Err(e), _) => same_bus && r == Err::<CommandOutcome, ConversionError>(e),
                            (Ok(_), Err(e)) => same_bus && r == Err::<CommandOutcome, ConversionError>(e),
                            (Ok(a), Ok(v)) => {
                                let m2 = written(mem, before.bus_state().rom(), a, v);
                                &&& after.bus_state().memory() == m2
                                &&& r matches Ok(CommandOutcome::Done { output })
                                &&& output@ == hex_upper(a as nat, 4) + " -> "@ + hex_upper(read_at(m2, a) as nat, 2)
                            },
                        }
                    },
                    MonitorCmd::Jump => {
                        &&& same_bus &&& same_bps &&& same_run
                        &&& match spec_to_u16(arg@) {
                            Err(e) => r == Err::<CommandOutcome, ConversionError>(e),
                            Ok(a) => {
                                &&& r matches Ok(CommandOutcome::SetPc { pc, output })
                                &&& pc == a &&& output@ == "Jumped to "@ + word_text(a)
                            },
                        }
                    },
                    MonitorCmd::ListBreakpoints => {
                        &&& same_bus &&& same_bps &&& same_run
                        &&& r matches Ok(CommandOutcome::Done { output })
                        &&& output@ == if before.breakpoint_order().len() == 0 { "No breakpoints !"@ }
                            else { breakpoint_lines(before.breakpoint_order()) }
                        &&& before.breakpoint_order().no_duplicates()
                        &&& before.breakpoint_order().to_set() == before.breakpoints()
                    },
                    MonitorCmd::AddBreakpoint => {
                        &&& same_bus &&& same_run
                        &&& match spec_to_u16(arg@) {
                            Err(e) => same_bps && r == Err::<CommandOutcome, ConversionError>(e),
                            Ok(a) => {
                                &&& after.breakpoints() == before.breakpoints().insert(a)
                                &&& r matches Ok(CommandOutcome::Done { output })
                                &&& output@ == "New breakpoint at "@ + word_text(a)
                            },
                        }
                    },
                    MonitorCmd::RemoveBreakpoint => {
                        &&& same_bus &&& same_run
                        &&& match spec_to_u16(arg@) {
                            Err(e) => same_bps && r == Err::<CommandOutcome, ConversionError>(e),
                            Ok(a) => {
                                &&& after.breakpoints() == before.breakpoints().remove(a)
                                &&& r matches Ok(CommandOutcome::Done { output })
                                &&& output@ == if before.breakpoints().contains(a) {
                                    "Breakpoint at "@ + word_text(a) + " removed"@ } else { Seq::empty() }
                            },
                        }
                    },
                    MonitorCmd::Pause => {
                        &&& same_bus &&& same_bps &&& !after.running()
                        &&& r matches Ok(CommandOutcome::Done { output }) &&& output@ == "Paused."@
                    },
                    MonitorCmd::Resume => {
                        &&& same_bus &&& same_bps &&& after.running()
                        &&& r matches Ok(CommandOutcome::Done { output }) &&& output@ == "Resumed."@
                    },
                    MonitorCmd::Step => {
                        &&& same_bus &&& same_bps &&& same_run
                        &&& r matches Ok(CommandOutcome::Step)
                    },
                    MonitorCmd::Registers => {
                        &&& same_bus &&& same_bps &&& same_run
                        &&& r matches Ok(CommandOutcome::Registers)
                    },
                    MonitorCmd::Hardware => {
                        &&& same_bus &&& same_bps &&& same_run
                        &&& r matches Ok(CommandOutcome::Done { output })
                        &&& output@ == status_text(before.bus_state().tape.position(),
                            before.bus_state().tape.bits().len())
                    },
                    MonitorCmd::Unknown => {
                        &&& same_bus &&& same_bps &&& same_run
                        &&& r matches Ok(CommandOutcome::Done { output })
                        &&& output@ == "Unknown command."@
                    },
                }
            }),
    {
        let (command, arg, arg2) = msg;
        let mut out = String::new();
        match command {
            MonitorCmd::Help => {
                push_str(&mut out, "Version ");
                push_str(&mut out, VERSION);
                push_str(&mut out, "\n");
                push_str(&mut out, HELP);
                Ok(CommandOutcome::Done { output: out })
            },
            MonitorCmd::Reset => {
                self.stop();
                self.start();
                push_str(&mut out, "Reset done !");
                Ok(CommandOutcome::SetPc { pc: 0, output: out })
            },
            MonitorCmd::PowerCycle => {
                self.stop();
                self.bus.clear_mem_slice(self.rom_size, self.ram_size);
                self.start();
                push_str(&mut out, "Powercycle done !");
                Ok(CommandOutcome::SetPc { pc: 0, output: out })
            },
            MonitorCmd::Tape => {
                if str_is(&arg, "rewind") {
                    self.bus.tape.rewind();
                    push_str(&mut out, "Tape rewound !");
                    Ok(CommandOutcome::Done { output: out })
                } else {
                    Ok(CommandOutcome::LoadTape { name: arg })
                }
            },
            MonitorCmd::Disassemble => {
                let mut a = match arg.to_u16() {
                    Ok(a) => a,
                    Err(e) => return Err(e),
                };
                let ghost mem = self.bus.memory();
                let ghost start = a;
                let mut n: u8 = 0;
                while n < 21
                    invariant
                        n <= 21,
                        self.bus.memory() == mem,
                        a == instruction_address(mem, start, n as nat),
                        out@ == listing(mem, start, n as nat),
                    decreases 21 - n,
                {
                    let ghost a0 = a;
                    let d = self.bus.disassemble(a);
                    push_hex(&mut out, a as u64, 4);
                    push_str(&mut out, "    ");
                    push_str(&mut out, d.0.as_str());
                    push_str(&mut out, "\n");
                    let len = d.1;
                    a = a.wrapping_add(len as u16);
                    assert(a == ((a0 + len) % 0x10000) as u16) by (bit_vector)
                        requires a == a0.wrapping_add(len as u16);
                    assert(out@ =~= listing(mem, start, (n + 1) as nat));
                    n += 1;
                }
                Ok(CommandOutcome::Done { output: out })
            },
            MonitorCmd::ReadMem => {
                let a = match arg.to_u16() {
                    Ok(a) => a,
                    Err(e) => return Err(e),
                };
                push_hex(&mut out, a as u64, 4);
                push_str(&mut out, "    ");
                push_hex(&mut out, self.bus.read_byte(a) as u64, 2);
                Ok(CommandOutcome::Done { output: out })
            },
            MonitorCmd::WriteMem => {
                let a = match arg.to_u16() {
                    Ok(a) => a,
                    Err(e) => return Err(e),
                };
                let v = match arg2.to_u8() {
                    Ok(v) => v,
                    Err(e) => return Err(e),
                };
                self.bus.write_byte(a, v);
                proof { lemma_written_len(old(self).bus.memory(), old(self).bus.rom(), a, v); }
                push_hex(&mut out, a as u64, 4);
                push_str(&mut out, " -> ");
                push_hex(&mut out, self.bus.read_byte(a) as u64, 2);
                Ok(CommandOutcome::Done { output: out })
            },
            MonitorCmd::Jump => {
                let a = match arg.to_u16() {
                    Ok(a) => a,
                    Err(e) => return Err(e),
                };
                push_str(&mut out, "Jumped to ");
                push_word(&mut out, a);
                Ok(CommandOutcome::SetPc { pc: a, output: out })
            },
            MonitorCmd::ListBreakpoints => {
                let list = self.breakpoint_list();
                if list.len() == 0 {
                    push_str(&mut out, "No breakpoints !");
                } else {
                    let mut i: usize = 0;
                    while i < list.len()
                        invariant
                            i <= list@.len(),
                            out@ == breakpoint_lines(list@.subrange(0, i as int)),
                        decreases list@.len() - i,
                    {
                        push_word(&mut out, list[i]);
                        push_str(&mut out, "\n");
                        assert(list@.subrange(0, i + 1).drop_last() =~= list@.subrange(0, i as int));
                        i += 1;
                    }
                    assert(list@.subrange(0, list@.len() as int) =~= list@);
                }
                Ok(CommandOutcome::Done { output: out })
            },
            MonitorCmd::AddBreakpoint => {
                let a = match arg.to_u16() {
                    Ok(a) => a,
                    Err(e) => return Err(e),
                };
                self.add_breakpoint(a);
                push_str(&mut out, "New breakpoint at ");
                push_word(&mut out, a);
                Ok(CommandOutcome::Done { output: out })
            },
            MonitorCmd::RemoveBreakpoint => {
                let a = match arg.to_u16() {
                    Ok(a) => a,
                    Err(e) => return Err(e),
                };
                if self.remove_breakpoint(a) {
                    push_str(&mut out, "Breakpoint at ");
                    push_word(&mut out, a);
                    push_str(&mut out, " removed");
                }
                Ok(CommandOutcome::Done { output: out })
            },
            MonitorCmd::Pause => {
                self.stop();
                push_str(&mut out, "Paused.");
                Ok(CommandOutcome::Done { output: out })
            },
            MonitorCmd::Resume => {
                self.start();
                push_str(&mut out, "Resumed.");
                Ok(CommandOutcome::Done { output: out })
            },
            MonitorCmd::Step => Ok(CommandOutcome::Step),
            MonitorCmd::Registers => Ok(CommandOutcome::Registers),
            MonitorCmd::Hardware => {
                let s = self.bus.tape.status();
                Ok(CommandOutcome::Done { output: s })
            },
            MonitorCmd::Unknown => {
                push_str(&mut out, "Unknown command.");
                Ok(CommandOutcome::Done { output: out })
            },
        }
    }

    /// What the `n` command reports once the frontend has executed one
    /// instruction: the new program counter and the instruction there.
    pub fn step_report(&self, pc: u16) -> (s: String)
        ensures
            s@ == hex_upper(pc as nat, 4) + "    "@ + instruction(self.bus_state().memory(), pc).0,
    {
        let mut s = String::new();
        push_hex(&mut s, pc as u64, 4);
        push_str(&mut s, "    ");
        let d = self.bus.disassemble(pc);
        push_str(&mut s, d.0.as_str());
        s
    }

    /// Registers and flags as a display-ready block (the `r` command and the
    /// status panel), with the word at the stack pointer read from the bus.
    pub fn get_registers_string(&self, regs: &CpuRegisters) -> (s: String)
        ensures
            s@ == registers_text(*regs, word_at(self.bus_state().memory(), regs.sp)),
    {
        let mut s = String::new();
        push_line_pc(&mut s, regs);
        push_flags_szh(&mut s, regs);
        push_flags_pnc(&mut s, regs);
        push_line_pairs(&mut s, regs);
        push_line_alt(&mut s, regs);
        push_line_index(&mut s, regs);
        let top = self.bus.read_word(regs.sp);
        push_line_interrupts(&mut s, regs, top);
        assert(s@ =~= registers_text(*regs, word_at(self.bus.memory(), regs.sp)));
        s
    }

    /// Finishes a `tape` command once the frontend has looked for the file:
    /// `content` is what it read, or `None` if there was no such file.
    pub fn finish_tape_load(&mut self, content: Option<&[u8]>) -> (s: String)
        requires
            old(self).wf(),
            content matches Some(bytes) ==> 16 * bytes@.len() <= usize::MAX,
        ensures
            final(self).wf(),
            final(self).breakpoint_order() == old(self).breakpoint_order(),
            final(self).breakpoints() == old(self).breakpoints(),
            final(self).running() == old(self).running(),
            final(self).rom_size() == old(self).rom_size(),
            final(self).ram_size() == old(self).ram_size(),
            final(self).bus_state().memory() == old(self).bus_state().memory(),
            final(self).bus_state().rom() == old(self).bus_state().rom(),
            final(self).bus_state().debug_io == old(self).bus_state().debug_io,
            content matches Some(bytes) ==> {
                &&& final(self).bus_state().tape.tape() == bytes@
                &&& final(self).bus_state().tape.bits() == crate::cassette::tape_bits(bytes@)
                &&& final(self).bus_state().tape.position() == 0
                &&& s@ == "Tape loaded !"@
            },
            content is None ==> final(self).bus_state() == old(self).bus_state()
                && s@ == "File not found !"@,
    {
        let mut s = String::new();
        match content {
            Some(bytes) => {
                self.bus.tape.load_from_bytes(bytes);
                push_str(&mut s, "Tape loaded !");
            },
            None => {
                push_str(&mut s, "File not found !");
            },
        }
        s
    }

    /// Runs a command of the terminal console (one line of standard input,
    /// as `console::console_request` sends it): the command word and two
    /// arguments. What it prints is `output`, up to the point where a bad
    /// hexadecimal argument stops it (then `result` is that error); what it
    /// leaves to the frontend is in `result`.
    pub fn console(&mut self, msg: (String, String, String)) -> (r: TerminalReply)
        requires
            old(self).wf(),
        ensures
            final(self).wf(),
            final(self).rom_size() == old(self).rom_size(),
            final(self).ram_size() == old(self).ram_size(),
            final(self).bus_state().rom() == old(self).bus_state().rom(),
            final(self).bus_state().debug_io == old(self).bus_state().debug_io,
            ({
                let (cmd, arg, arg2) = msg;
                let before = *old(self);
                let after = *final(self);
                let mem = before.bus_state().memory();
                let same_bus = after.bus_state() == before.bus_state();
                let same_bps = after.breakpoint_order() == before.breakpoint_order()
                    && after.breakpoints() == before.breakpoints();
                let same_run = after.running() == before.running();
                let out = r.output@;
                if cmd@ == "help"@ {
                    &&& same_bus &&& same_bps &&& same_run
                    &&& out == "Version "@ + VERSION@ + "\n"@ + terminal_help_text() + "\n"@
                    &&& r.result == Ok::<TerminalEffect, ConversionError>(TerminalEffect::Nothing)
                } else if cmd@ == "reset"@ {
                    &&& same_bus &&& same_bps &&& after.running()
                    &&& out == "Reset done !\n"@
                    &&& r.result == Ok::<TerminalEffect, ConversionError>(TerminalEffect::SetPc(0))
                } else if cmd@ == "powercycle"@ {
                    &&& same_bps &&& after.running()
                    &&& after.bus_state().tape == before.bus_state().tape
                    &&& after.bus_state().memory() == Seq::new(0x10000, |i: int|
                        if before.rom_size() <= i <= before.ram_size() { 0u8 } else { mem[i] })
                    &&& out == "Powercycle done !\n"@
                    &&& r.result == Ok::<TerminalEffect, ConversionError>(TerminalEffect::SetPc(0))
                } else if cmd@ == "tape"@ {
                    &&& same_bps &&& same_run
                    &&& if arg@ == "rewind"@ {
                        &&& after.bus_state().memory() == mem
                        &&& after.bus_state().tape.tape() == before.bus_state().tape.tape()
                        &&& after.bus_state().tape.bits() == before.bus_state().tape.bits()
                        &&& after.bus_state().tape.position() == 0
                        &&& out == "Tape rewound !\n"@
                        &&& r.result == Ok::<TerminalEffect, ConversionError>(TerminalEffect::Nothing)
                    } else {
                        &&& same_bus
                        &&& out == Seq::<char>::empty()
                        &&& r.result matches Ok(TerminalEffect::LoadTape(name))
                        &&& name@ == arg@
                    }
                } else if cmd@ == "d"@ {
                    &&& same_bus &&& same_bps &&& same_run
                    &&& match spec_to_u16(arg@) {
                        Err(e) => out == Seq::<char>::empty() && r.result == Err::<TerminalEffect, ConversionError>(e),
                        Ok(a) => out == listing(mem, a, 21)
                            && r.result == Ok::<TerminalEffect, ConversionError>(TerminalEffect::Nothing),
                    }
                } else if cmd@ == "m"@ {
                    &&& same_bps &&& same_run
                    &&& after.bus_state().tape == before.bus_state().tape
                    &&& match spec_to_u16(arg@) {
                        Err(e) => same_bus && out == Seq::<char>::empty()
                            && r.result == Err::<TerminalEffect, ConversionError>(e),
                        Ok(a) => {
                            let shown = hex_upper(a as nat, 4) + "    "@ + hex_upper(read_at(mem, a) as nat, 2) + "\n"@;
                            if arg2@.len() == 0 {
                                &&& same_bus &&& out == shown
                                &&& r.result == Ok::<TerminalEffect, ConversionError>(TerminalEffect::Nothing)
                            } else {
                                match spec_to_u8(arg2@) {
                                    Err(e) => same_bus && out == shown
                                        && r.result == Err::<TerminalEffect, ConversionError>(e),
                                    Ok(v) => {
                                        let m2 = written(mem, before.bus_state().rom(), a, v);
                                        &&& after.bus_state().memory() == m2
                                        &&& out == shown + hex_upper(a as nat, 4) + " -> "@
                                            + hex_upper(read_at(m2, a) as nat, 2) + "\n"@
                                        &&& r.result == Ok::<TerminalEffect, ConversionError>(TerminalEffect::Nothing)
                                    },
                                }
                            }
                        },
                    }
                } else if cmd@ == "j"@ {
                    &&& same_bus &&& same_bps &&& same_run
                    &&& out == Seq::<char>::empty()
                    &&& match spec_to_u16(arg@) {
                        Err(e) => r.result == Err::<TerminalEffect, ConversionError>(e),
                        Ok(a) => r.result == Ok::<TerminalEffect, ConversionError>(TerminalEffect::SetPc(a)),
                    }
                } else if cmd@ == "b"@ {
                    &&& same_bus &&& same_run
                    &&& r.result == Ok::<TerminalEffect, ConversionError>(TerminalEffect::Nothing)
                    &&& match spec_to_u16(arg@) {
                        Err(_) => same_bps && out == (if before.breakpoint_order().len() == 0 {
                            "No breakpoints !\n"@ } else { Seq::empty() }) + breakpoint_lines(before.breakpoint_order())
                            && before.breakpoint_order().no_duplicates()
                            && before.breakpoint_order().to_set() == before.breakpoints(),
                        Ok(a) => after.breakpoints() == before.breakpoints().insert(a)
                            && out == "New breakpoint at "@ + word_text(a) + "\n"@,
                    }
                } else if cmd@ == "f"@ {
                    &&& same_bus &&& same_run
                    &&& match spec_to_u16(arg@) {
                        Err(e) => same_bps && out == Seq::<char>::empty()
                            && r.result == Err::<TerminalEffect, ConversionError>(e),
                        Ok(a) => {
                            &&& after.breakpoints() == before.breakpoints().remove(a)
                            &&& r.result == Ok::<TerminalEffect, ConversionError>(TerminalEffect::Nothing)
                            &&& out == if before.breakpoints().contains(a) {
                                "Breakpoint at "@ + word_text(a) + " removed\n"@ } else { Seq::empty() }
                        },
                    }
                } else if cmd@ == "g"@ {
                    &&& same_bus &&& same_bps &&& after.running()
                    &&& out == Seq::<char>::empty()
                    &&& r.result == Ok::<TerminalEffect, ConversionError>(TerminalEffect::Nothing)
                } else if cmd@ == "r"@ {
                    &&& same_bus &&& same_bps &&& same_run
                    &&& out == Seq::<char>::empty()
                    &&& r.result == Ok::<TerminalEffect, ConversionError>(TerminalEffect::Registers)
                } else {
                    &&& same_bus &&& same_bps &&& same_run
                    &&& out == Seq::<char>::empty()
                    &&& r.result == Ok::<TerminalEffect, ConversionError>(TerminalEffect::Nothing)
                }
            }),
    {
        let (command, arg, arg2) = msg;
        let mut out = String::new();
        if str_is(&command, "help") {
            push_str(&mut out, "Version ");
            push_str(&mut out, VERSION);
            push_str(&mut out, "\n");
            push_str(&mut out, TERMINAL_HELP);
            push_str(&mut out, "\n");
            TerminalReply { output: out, result: Ok(TerminalEffect::Nothing) }
        } else if str_is(&command, "reset") {
            self.stop();
            self.start();
            push_str(&mut out, "Reset done !\n");
            TerminalReply { output: out, result: Ok(TerminalEffect::SetPc(0)) }
        } else if str_is(&command, "powercycle") {
            self.stop();
            self.bus.clear_mem_slice(self.rom_size, self.ram_size);
            self.start();
            push_str(&mut out, "Powercycle done !\n");
            TerminalReply { output: out, result: Ok(TerminalEffect::SetPc(0)) }
        } else if str_is(&command, "tape") {
            if str_is(&arg, "rewind") {
                self.bus.tape.rewind();
                push_str(&mut out, "Tape rewound !\n");
                TerminalReply { output: out, result: Ok(TerminalEffect::Nothing) }
            } else {
                TerminalReply { output: out, result: Ok(TerminalEffect::LoadTape(arg)) }
            }
        } else if str_is(&command, "d") {
            match arg.to_u16() {
                Err(e) => TerminalReply { output: out, result: Err(e) },
                Ok(a) => {
                    out = self.listing_text(a);
                    TerminalReply { output: out, result: Ok(TerminalEffect::Nothing) }
                },
            }
        } else if str_is(&command, "m") {
            match arg.to_u16() {
                Err(e) => TerminalReply { output: out, result: Err(e) },
                Ok(a) => {
                    push_hex(&mut out, a as u64, 4);
                    push_str(&mut out, "    ");
                    push_hex(&mut out, self.bus.read_byte(a) as u64, 2);
                    push_str(&mut out, "\n");
                    if string_is_empty(&arg2) {
                        TerminalReply { output: out, result: Ok(TerminalEffect::Nothing) }
                    } else {
                        match arg2.to_u8() {
                            Err(e) => TerminalReply { output: out, result: Err(e) },
                            Ok(v) => {
                                self.bus.write_byte(a, v);
                                proof { lemma_written_len(old(self).bus.memory(), old(self).bus.rom(), a, v); }
                                push_hex(&mut out, a as u64, 4);
                                push_str(&mut out, " -> ");
                                push_hex(&mut out, self.bus.read_byte(a) as u64, 2);
                                push_str(&mut out, "\n");
                                TerminalReply { output: out, result: Ok(TerminalEffect::Nothing) }
                            },
                        }
                    }
                },
            }
        } else if str_is(&command, "j") {
            match arg.to_u16() {
                Err(e) => TerminalReply { output: out, result: Err(e) },
                Ok(a) => TerminalReply { output: out, result: Ok(TerminalEffect::SetPc(a)) },
            }
        } else if str_is(&command, "b") {
            match arg.to_u16() {
                Err(_) => {
                    let list = self.breakpoint_list();
                    if list.len() == 0 {
                        push_str(&mut out, "No breakpoints !\n");
                    }
                    let ghost prefix = out@;
                    let mut i: usize = 0;
                    while i < list.len()
                        invariant
                            i <= list@.len(),
                            out@ == prefix + breakpoint_lines(list@.subrange(0, i as int)),
                        decreases list@.len() - i,
                    {
                        push_word(&mut out, list[i]);
                        push_str(&mut out, "\n");
                        assert(list@.subrange(0, i + 1).drop_last() =~= list@.subrange(0, i as int));
                        i += 1;
                    }
                    assert(list@.subrange(0, list@.len() as int) =~= list@);
                    TerminalReply { output: out, result: Ok(TerminalEffect::Nothing) }
                },
                Ok(a) => {
                    self.add_breakpoint(a);
                    push_str(&mut out, "New breakpoint at ");
                    push_word(&mut out, a);
                    push_str(&mut out, "\n");
                    TerminalReply { output: out, result: Ok(TerminalEffect::Nothing) }
                },
            }
        } else if str_is(&command, "f") {
            match arg.to_u16() {
                Err(e) => TerminalReply { output: out, result: Err(e) },
                Ok(a) => {
                    if self.remove_breakpoint(a) {
                        push_str(&mut out, "Breakpoint at ");
                        push_word(&mut out, a);
                        push_str(&mut out, " removed\n");
                    }
                    TerminalReply { output: out, result: Ok(TerminalEffect::Nothing) }
                },
            }
        } else if str_is(&command, "g") {
            self.start();
            TerminalReply { output: out, result: Ok(TerminalEffect::Nothing) }
        } else if str_is(&command, "r") {
            TerminalReply { output: out, result: Ok(TerminalEffect::Registers) }
        } else {
            TerminalReply { output: out, result: Ok(TerminalEffect::Nothing) }
        }
    }

    /// The listing of 21 instructions from `start` on.
    fn listing_text(&self, start: u16) -> (out: String)
        ensures
            out@ == listing(self.bus.memory(), start, 21),
    {
        let mut out = String::new();
        let ghost mem = self.bus.memory();
        let mut a = start;
        let mut n: u8 = 0;
        while n < 21
            invariant
                n <= 21,
                self.bus.memory() == mem,
                a == instruction_address(mem, start, n as nat),
                out@ == listing(mem, start, n as nat),
            decreases 21 - n,
        {
            let ghost a0 = a;
            let d = self.bus.disassemble(a);
            push_hex(&mut out, a as u64, 4);
            push_str(&mut out, "    ");
            push_str(&mut out, d.0.as_str());
            push_str(&mut out, "\n");
            let len = d.1;
            a = a.wrapping_add(len as u16);
            assert(a == ((a0 + len) % 0x10000) as u16) by (bit_vector)
                requires a == a0.wrapping_add(len as u16);
            assert(out@ =~= listing(mem, start, (n + 1) as nat));
            n += 1;
        }
        out
    }

    /// Adds breakpoint `a` (once).
    fn add_breakpoint(&mut self, a: u16)
        requires
            old(self).wf(),
        ensures
            final(self).wf(),
            final(self).bus == old(self).bus,
            final(self).running == old(self).running,
            final(self).rom_size == old(self).rom_size,
            final(self).ram_size == old(self).ram_size,
            final(self).breakpoints() == old(self).breakpoints().insert(a),
    {
        self.breakpoints.insert(a);
    }

    /// Removes breakpoint `a`; whether it was set.
    fn remove_breakpoint(&mut self, a: u16) -> (was_set: bool)
        requires
            old(self).wf(),
        ensures
            final(self).wf(),
            final(self).bus == old(self).bus,
            final(self).running == old(self).running,
            final(self).rom_size == old(self).rom_size,
            final(self).ram_size == old(self).ram_size,
            final(self).breakpoints() == old(self).breakpoints().remove(a),
            was_set == old(self).breakpoints().contains(a),
    {
        self.breakpoints.remove(&a)
    }

    /// The breakpoints, in the order the set hands them out.
    fn breakpoint_list(&self) -> (v: Vec<u16>)
        ensures
            v@ == self.breakpoint_order(),
            v@.no_duplicates(),
            v@.to_set() == self.breakpoints(),
    {
        let mut v: Vec<u16> = Vec::new();
        for b in it: self.breakpoints.iter()
            invariant
                v@.len() == it.index(),
                forall|i: int| 0 <= i < it.index() ==> v@[i] == *it.seq()[i],
        {
            v.push(*b);
        }
        assert(v@ =~= self.breakpoint_order());
        v
    }

    /// The register block that the terminal console's `r` prints, with the
    /// word at the stack pointer read from the bus.
    pub fn terminal_registers_string(&self, regs: &CpuRegisters) -> (s: String)
        ensures
            s@ == terminal_registers_text(*regs, word_at(self.bus_state().memory(), regs.sp)),
    {
        let mut s = String::new();
        push_terminal_registers_top(&mut s, regs);
        let top = self.bus.read_word(regs.sp);
        push_terminal_registers_bottom(&mut s, regs, top);
        s
    }
}

/// The text after `Version x.y.z` in the `help` output.
pub const HELP: &'static str = "\nCommands:\n    reset           reboots the TRS-80\n    powercycle, pc  reboots the TRS-80 and clears RAM\n    tape rewind     \"rewinds\" the tape\n    tape [file]     \"inserts\" a .cas tape file\n\nMonitor commands:\n    d 0x0000        disassembles code at 0x0000 and the 20 next\n                    instructions\n    m 0xeeee        displays memory content at address 0xeeee\n    m 0xeeee 0xaa   sets memory address 0xeeee to the 0xaa value\n    j 0x0000        jumps to 0x0000 address\n    b               displays set breakpoints\n    b 0x0002        sets a breakpoint at address 0x0002\n    f 0x0002        \"frees\" (deletes) breakpoint at address 0x0002\n    p               pauses execution immediately\n    g               resumes execution (after a breakpoint or \"p\")\n    n               executes a single instruction (usually while paused)\n    r               displays the contents of flags and registers\n    hw              displays hardware peripheral status (tape)";

/// The help text of the terminal console, after `Version x.y.z`.
pub const TERMINAL_HELP: &'static str = "\nCommands:\n    reset           reboots the TRS-80\n    powercycle      reboots the TRS-80 and clears RAM\n    tape rewind     \"rewinds\" the tape\n    tape [file]     \"inserts\" a .cas tape file\n    \nMonitor commands:\n    d 0x0000        disassembles code at 0x0000 and the 20 next\n                    instructions\n    m 0xeeee        displays memory content at address 0xeeee\n    m 0xeeee 0xaa   sets memory address 0xeeee to the 0xaa value\n    j 0x0000        jumps to 0x0000 address\n    b               displays set breakpoints\n    b 0x0002        sets a breakpoint at address 0x0002\n    f 0x0002        \"frees\" (deletes) breakpoint at address 0x0002\n    g               resumes execution after a breakpoint has been used to\n                    halt execution\n    r               displays the contents of flags and registers";

/// Whether the text `s` is `t`.
fn str_is(s: &String, t: &str) -> (r: bool)
    ensures
        r == (s@ == t@),
{
    let a = crate::text::str_chars(s.as_str());
    let b = crate::text::str_chars(t);
    if a.len() != b.len() {
        return false;
    }
    let mut i: usize = 0;
    while i < a.len()
        invariant
            i <= a@.len(),
            a@.len() == b@.len(),
            a@ == s@,
            b@ == t@,
            forall|j: int| 0 <= j < i ==> a@[j] == b@[j],
        decreases a@.len() - i,
    {
        if a[i] != b[i] {
            return false;
        }
        i += 1;
    }
    assert(a@ =~= b@);
    true
}

proof fn lemma_written_len(memory: Seq<u8>, rom: Option<(u16, u16)>, a: u16, v: u8)
    ensures
        written(memory, rom, a, v).len() == memory.len(),
{
}

proof fn lemma_loaded_len(memory: Seq<u8>, rom: Option<(u16, u16)>, bytes: Seq<u8>, org: u16, n: nat)
    requires
        n <= bytes.len(),
    ensures
        crate::bus::loaded(memory, rom, bytes, org, n).len() == memory.len(),
    decreases n,
{
    if n > 0 {
        lemma_loaded_len(memory, rom, bytes, org, (n - 1) as nat);
    }
}

} // verus!
