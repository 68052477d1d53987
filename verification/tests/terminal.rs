use trust_80::hexconversion::ConversionError;
use trust_80::machine::{CpuRegisters, Machine, TerminalEffect, TerminalReply, VERSION};

fn send(m: &mut Machine, cmd: &str, arg: &str, arg2: &str) -> TerminalReply {
    m.console((cmd.to_string(), arg.to_string(), arg2.to_string()))
}

fn printed(m: &mut Machine, cmd: &str, arg: &str, arg2: &str) -> String {
    let r = send(m, cmd, arg, arg2);
    assert!(r.result.is_ok(), "{cmd} {arg} {arg2}");
    r.output
}

#[test]
fn terminal_help_prints_version_and_commands() {
    let mut m = Machine::new(&[], 0xBFFF, false);
    let out = printed(&mut m, "help", "", "");
    assert!(out.starts_with(&format!("Version {VERSION}\n\nCommands:\n")), "{out}");
    assert!(out.ends_with("r               displays the contents of flags and registers\n"));
}

#[test]
fn terminal_reset_and_powercycle() {
    let mut m = Machine::new(&[0x11], 0x7FFF, false);
    printed(&mut m, "m", "0x5000", "0x42");
    m.stop();
    let r = send(&mut m, "reset", "", "");
    assert_eq!(r.output, "Reset done !\n");
    assert_eq!(r.result, Ok(TerminalEffect::SetPc(0)));
    assert!(m.is_running());
    assert_eq!(m.bus().read_byte(0x5000), 0x42);
    let r = send(&mut m, "powercycle", "", "");
    assert_eq!(r.output, "Powercycle done !\n");
    assert_eq!(r.result, Ok(TerminalEffect::SetPc(0)));
    assert_eq!(m.bus().read_byte(0x5000), 0);
    assert_eq!(m.bus().read_byte(0), 0x11);
}

#[test]
fn terminal_memory_and_jump() {
    let mut m = Machine::new(&[0xAA], 0xBFFF, false);
    assert_eq!(printed(&mut m, "m", "0x4000", ""), "4000    00\n");
    assert_eq!(printed(&mut m, "m", "0x4000", "0x7f"), "4000    00\n4000 -> 7F\n");
    assert_eq!(printed(&mut m, "m", "0x0000", "0x01"), "0000    AA\n0000 -> AA\n");
    let r = send(&mut m, "m", "4000", "");
    assert_eq!(r.output, "");
    assert_eq!(r.result, Err(ConversionError::InvalidWordFormat));
    let r = send(&mut m, "m", "0x4000", "7f");
    assert_eq!(r.output, "4000    7F\n");
    assert_eq!(r.result, Err(ConversionError::InvalidByteFormat));
    let r = send(&mut m, "j", "0x1234", "");
    assert_eq!(r.output, "");
    assert_eq!(r.result, Ok(TerminalEffect::SetPc(0x1234)));
    assert_eq!(send(&mut m, "j", "x", "").result, Err(ConversionError::InvalidWordFormat));
}

#[test]
fn terminal_breakpoints() {
    let mut m = Machine::new(&[], 0xBFFF, false);
    assert_eq!(printed(&mut m, "b", "", ""), "No breakpoints !\n");
    assert_eq!(printed(&mut m, "b", "0x0002", ""), "New breakpoint at 0x0002\n");
    assert_eq!(printed(&mut m, "b", "0xbeef", ""), "New breakpoint at 0xBEEF\n");
    let listed = printed(&mut m, "b", "", "");
    assert!(listed == "0x0002\n0xBEEF\n" || listed == "0xBEEF\n0x0002\n", "{listed}");
    assert_eq!(printed(&mut m, "f", "0x0002", ""), "Breakpoint at 0x0002 removed\n");
    assert_eq!(printed(&mut m, "f", "0x0002", ""), "");
    assert_eq!(send(&mut m, "f", "2", "").result, Err(ConversionError::InvalidWordFormat));
    assert!(m.is_breakpoint(0xBEEF));
    assert!(!m.is_breakpoint(0x0002));
}

#[test]
fn terminal_tape_go_and_unknown() {
    let mut m = Machine::new(&[], 0xBFFF, false);
    let r = send(&mut m, "tape", "game.cas", "");
    assert_eq!(r.output, "");
    assert_eq!(r.result, Ok(TerminalEffect::LoadTape("game.cas".to_string())));
    assert_eq!(m.finish_tape_load(Some(&[0xFF])), "Tape loaded !");
    m.bus_mut().read_io(0xFF);
    assert_eq!(printed(&mut m, "tape", "rewind", ""), "Tape rewound !\n");
    assert_eq!(m.tape_status(), "Tape: position 0/16 bits");
    m.stop();
    assert_eq!(printed(&mut m, "g", "", ""), "");
    assert!(m.is_running());
    assert_eq!(printed(&mut m, "p", "", ""), "");
    assert!(m.is_running());
}

#[test]
fn terminal_disassembly_lists_twenty_one_lines() {
    let mut m = Machine::new(&[], 0xBFFF, false);
    let out = printed(&mut m, "d", "0x4000", "");
    let lines: Vec<&str> = out.lines().collect();
    assert_eq!(lines.len(), 21);
    assert!(lines[0].starts_with("4000    ") && lines[0].ends_with("NOP"));
    assert!(lines[20].starts_with("4014    ") && lines[20].ends_with("NOP"));
    let r = send(&mut m, "d", "", "");
    assert_eq!(r.output, "");
    assert_eq!(r.result, Err(ConversionError::InvalidWordFormat));
}

#[test]
fn terminal_register_block() {
    let mut m = Machine::new(&[], 0xBFFF, false);
    m.bus_mut().write_byte(0x4200, 0x34);
    m.bus_mut().write_byte(0x4201, 0x12);
    let regs = CpuRegisters {
        pc: 0x0A0B,
        sp: 0x4200,
        flag_s: true,
        flag_z: false,
        flag_h: true,
        flag_p: false,
        flag_n: false,
        flag_c: true,
        bc: 0x1122,
        de: 0x3344,
        hl: 0xABCD,
        af: 0x7F00,
        alt_bc: 0,
        alt_de: 0,
        alt_hl: 0,
        alt_af: 0,
        ixh: 0,
        ixl: 0,
        iyh: 0,
        iyl: 0,
        iff1: false,
        iff2: false,
        im: 0,
        pending_int: false,
        pending_nmi: false,
    };
    assert_eq!(send(&mut m, "r", "", "").result, Ok(TerminalEffect::Registers));
    let expected = format!(
        "PC :{:#06X}\tSP : {:#06X}\nS : {}\tZ : {}\tH : {}\tP : {}\tN : {}\tC : {}\nB : {:#04X}\tC : {:#04X}\nD : {:#04X}\tE : {:#04X}\nH : {:#04X}\tL : {:#04X}\nA : {:#04X}\t(SP) : {:#06X}\n",
        0x0A0B, 0x4200, 1, 0, 1, 0, 0, 1, 0x11, 0x22, 0x33, 0x44, 0xAB, 0xCD, 0x7F, 0x1234
    );
    assert_eq!(m.terminal_registers_string(&regs), expected);
}
