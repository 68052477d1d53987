use trust_80::hexconversion::ConversionError;
use trust_80::machine::{emulated_duration, tick_budget, CommandOutcome, CpuRegisters, Machine, VERSION};
use trust_80::monitor::{parse_command, MonitorCmd};

fn run(m: &mut Machine, line: &str) -> Result<CommandOutcome, ConversionError> {
    m.process_command(parse_command(line))
}

fn output(m: &mut Machine, line: &str) -> String {
    match run(m, line) {
        Ok(CommandOutcome::Done { output }) => output,
        Ok(CommandOutcome::SetPc { output, .. }) => output,
        _ => panic!("no output for {line}"),
    }
}

#[test]
fn pacing_converts_real_time_to_ticks() {
    assert_eq!(emulated_duration(0), 0);
    assert_eq!(emulated_duration(1000), 565_000);
    assert_eq!(tick_budget(565 * 10 + 300), (10, false));
    assert_eq!(tick_budget(177_000 * 565), (177_000, false));
    assert_eq!(tick_budget(177_000 * 565 + 1), (177_000, true));
    assert_eq!(tick_budget(u64::MAX), (177_000, true));
}

#[test]
fn new_machine_loads_and_protects_its_rom() {
    let mut m = Machine::new(&[0xC3, 0x00, 0x10], 0xBFFF, false);
    assert!(m.is_running());
    assert_eq!(m.bus().read_byte(0), 0xC3);
    m.bus_mut().write_byte(1, 0x55);
    assert_eq!(m.bus().read_byte(1), 0x00);
    assert_eq!(output(&mut m, "m 0x0002"), "0002    10");
}

#[test]
fn help_starts_with_the_version() {
    let mut m = Machine::new(&[], 0xBFFF, false);
    let out = output(&mut m, "help");
    assert!(out.starts_with(&format!("Version {VERSION}\n\nCommands:")), "{out}");
    assert!(out.ends_with("hw              displays hardware peripheral status (tape)"));
}

#[test]
fn reset_and_jump_move_the_program_counter() {
    let mut m = Machine::new(&[], 0xBFFF, false);
    m.stop();
    match run(&mut m, "reset") {
        Ok(CommandOutcome::SetPc { pc, output }) => {
            assert_eq!(pc, 0);
            assert_eq!(output, "Reset done !");
        }
        _ => panic!(),
    }
    assert!(m.is_running());
    match run(&mut m, "j 0x1a2b") {
        Ok(CommandOutcome::SetPc { pc, output }) => {
            assert_eq!(pc, 0x1A2B);
            assert_eq!(output, "Jumped to 0x1A2B");
        }
        _ => panic!(),
    }
    assert!(matches!(run(&mut m, "j 1a2b"), Err(ConversionError::InvalidWordFormat)));
}

#[test]
fn memory_commands() {
    let mut m = Machine::new(&[0xAA; 4], 0xBFFF, false);
    assert_eq!(output(&mut m, "m 0x4000 0x7f"), "4000 -> 7F");
    assert_eq!(output(&mut m, "m 0x4000"), "4000    7F");
    // ROM stays as it was.
    assert_eq!(output(&mut m, "m 0x0001 0x00"), "0001 -> AA");
    assert!(matches!(run(&mut m, "m 0x4000 7f"), Err(ConversionError::InvalidByteFormat)));
    assert!(matches!(run(&mut m, "m 0x4000 0x100"), Err(ConversionError::ParseIntError)));
    assert_eq!(output(&mut m, "m 0x4000"), "4000    7F");
}

#[test]
fn powercycle_clears_ram_only() {
    let mut m = Machine::new(&[0x11, 0x22], 0x7FFF, false);
    output(&mut m, "m 0x5000 0x42");
    output(&mut m, "m 0x9000 0x43");
    m.stop();
    assert_eq!(output(&mut m, "powercycle"), "Powercycle done !");
    assert!(m.is_running());
    assert_eq!(output(&mut m, "m 0x5000"), "5000    00");
    assert_eq!(output(&mut m, "m 0x9000"), "9000    43");
    assert_eq!(output(&mut m, "m 0x0000"), "0000    11");
}

#[test]
fn breakpoints() {
    let mut m = Machine::new(&[], 0xBFFF, false);
    assert_eq!(output(&mut m, "b"), "No breakpoints !");
    assert_eq!(output(&mut m, "b 0x0002"), "New breakpoint at 0x0002");
    assert_eq!(output(&mut m, "b 0xbeef"), "New breakpoint at 0xBEEF");
    assert_eq!(output(&mut m, "b 0x0002"), "New breakpoint at 0x0002");
    assert!(m.is_breakpoint(0xBEEF));
    assert!(!m.is_breakpoint(0x0003));
    let listed = output(&mut m, "b");
    assert!(listed == "0x0002\n0xBEEF\n" || listed == "0xBEEF\n0x0002\n", "{listed}");
    assert_eq!(output(&mut m, "f 0x0002"), "Breakpoint at 0x0002 removed");
    assert_eq!(output(&mut m, "f 0x0002"), "");
    assert_eq!(output(&mut m, "b"), "0xBEEF\n");
}

#[test]
fn pause_resume_and_unknown() {
    let mut m = Machine::new(&[], 0xBFFF, false);
    assert_eq!(output(&mut m, "p"), "Paused.");
    assert!(!m.is_running());
    assert_eq!(output(&mut m, "g"), "Resumed.");
    assert!(m.is_running());
    assert_eq!(output(&mut m, "xyzzy"), "Unknown command.");
}

#[test]
fn disassembly_lists_twenty_one_instructions() {
    let mut m = Machine::new(&[], 0xBFFF, false);
    let out = output(&mut m, "d 0x4000");
    let lines: Vec<&str> = out.lines().collect();
    assert_eq!(lines.len(), 21);
    assert!(lines[0].starts_with("4000    "));
    assert!(lines[0].ends_with("NOP"));
    assert!(lines[20].starts_with("4014    "));
    assert!(matches!(run(&mut m, "d"), Err(ConversionError::InvalidWordFormat)));
}

#[test]
fn tape_commands() {
    let mut m = Machine::new(&[], 0xBFFF, false);
    assert_eq!(output(&mut m, "hw"), "Tape: no tape inserted");
    match run(&mut m, "tape game.cas") {
        Ok(CommandOutcome::LoadTape { name }) => assert_eq!(name, "game.cas"),
        _ => panic!(),
    }
    assert_eq!(m.finish_tape_load(Some(&[1, 2])), "Tape loaded !");
    assert_eq!(output(&mut m, "hw"), "Tape: position 0/32 bits");
    m.bus_mut().read_io(0xFF);
    assert_eq!(output(&mut m, "hw"), "Tape: position 1/32 bits");
    assert_eq!(output(&mut m, "tape rewind"), "Tape rewound !");
    assert_eq!(m.tape_status(), "Tape: position 0/32 bits");
    assert_eq!(m.finish_tape_load(None), "File not found !");
    assert_eq!(m.tape_status(), "Tape: position 0/32 bits");
}

#[test]
fn step_and_registers_are_left_to_the_cpu() {
    let mut m = Machine::new(&[0x00], 0xBFFF, false);
    assert!(matches!(run(&mut m, "n"), Ok(CommandOutcome::Step)));
    assert!(matches!(run(&mut m, "r"), Ok(CommandOutcome::Registers)));
    assert!(m.step_report(0).starts_with("0000    "));
    assert!(m.step_report(0).ends_with("NOP"));
    assert_eq!(parse_command("r").0, MonitorCmd::Registers);
}

#[test]
fn register_block_layout() {
    let mut m = Machine::new(&[], 0xBFFF, false);
    m.bus_mut().write_byte(0x4200, 0x34);
    m.bus_mut().write_byte(0x4201, 0x12);
    let regs = CpuRegisters {
        pc: 0x0A0B,
        sp: 0x4200,
        flag_s: true,
        flag_z: false,
        flag_h: true,
        flag_p: false,
        flag_n: false,
        flag_c: true,
        bc: 0x1111,
        de: 0x2222,
        hl: 0xABCD,
        af: 0x00FF,
        alt_bc: 1,
        alt_de: 2,
        alt_hl: 3,
        alt_af: 4,
        ixh: 0x0F,
        ixl: 0xF0,
        iyh: 0,
        iyl: 0xFF,
        iff1: true,
        iff2: false,
        im: 1,
        pending_int: false,
        pending_nmi: true,
    };
    let expected = "PC :0x0A0B   SP : 0x4200\n\
                    S : 1  Z : 0  H : 1  P : 0  N : 0  C : 1\n\
                    BC : 0x1111  DE : 0x2222  HL : 0xABCD  AF : 0x00FF\n\
                    BC': 0x0001  DE': 0x0002  HL': 0x0003  AF': 0x0004\n\
                    IXH : 0x0F  IXL : 0xF0  IYH : 0x00  IYL : 0xFF\n\
                    (SP) : 0x1234  IFF1 : true   IFF2 : false  IM : 1  Pending INT : false  Pending NMI : true ";
    assert_eq!(m.get_registers_string(&regs), expected);
    let formatted = format!(
        "PC :{:#06X}   SP : {:#06X}\n\
         S : {}  Z : {}  H : {}  P : {}  N : {}  C : {}\n\
         BC : {:#06X}  DE : {:#06X}  HL : {:#06X}  AF : {:#06X}\n\
         BC': {:#06X}  DE': {:#06X}  HL': {:#06X}  AF': {:#06X}\n\
         IXH : {:#04X}  IXL : {:#04X}  IYH : {:#04X}  IYL : {:#04X}\n\
         (SP) : {:#06X}  IFF1 : {:<5}  IFF2 : {:<5}  IM : {}  Pending INT : {:<5}  Pending NMI : {:<5}",
        regs.pc, regs.sp, 1, 0, 1, 0, 0, 1, regs.bc, regs.de, regs.hl, regs.af, regs.alt_bc,
        regs.alt_de, regs.alt_hl, regs.alt_af, regs.ixh, regs.ixl, regs.iyh, regs.iyl, 0x1234,
        regs.iff1, regs.iff2, regs.im, regs.pending_int, regs.pending_nmi
    );
    assert_eq!(m.get_registers_string(&regs), formatted);
}

#[test]
fn a_breakpoint_set_twice_is_listed_once() {
    let mut m = Machine::new(&[], 0x8000, false);
    assert_eq!(output(&mut m, "b"), "No breakpoints !");
    assert_eq!(output(&mut m, "b 0x0002"), "New breakpoint at 0x0002");
    assert_eq!(output(&mut m, "b 0x0002"), "New breakpoint at 0x0002");
    assert_eq!(output(&mut m, "b"), "0x0002\n");
}
