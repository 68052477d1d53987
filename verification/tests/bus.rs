use trust_80::bus::TrsBus;

#[test]
fn reads_back_what_was_written() {
    let mut bus = TrsBus::new(0xFFFF);
    assert_eq!(bus.read_byte(0x4000), 0);
    bus.write_byte(0x4000, 0x3E);
    assert_eq!(bus.read_byte(0x4000), 0x3E);
    bus.write_byte(0x4001, 0x12);
    assert_eq!(bus.read_word(0x4000), 0x123E);
}

#[test]
fn rom_space_ignores_writes() {
    let mut bus = TrsBus::new(0xFFFF);
    bus.write_byte(0x0000, 0xFF);
    bus.set_romspace(0x0000, 0x000F);
    bus.write_byte(0x0000, 0x00);
    bus.write_byte(0x000F, 0x11);
    bus.write_byte(0x0010, 0x22);
    assert_eq!(bus.read_byte(0x0000), 0xFF);
    assert_eq!(bus.read_byte(0x000F), 0x00);
    assert_eq!(bus.read_byte(0x0010), 0x22);
}

#[test]
fn small_bus_reads_zero_past_its_end() {
    let mut bus = TrsBus::new(0x7FFF);
    bus.write_byte(0x8000, 0xFF);
    assert_eq!(bus.read_byte(0x8000), 0);
}

#[test]
fn load_bytes_wraps_round() {
    let mut bus = TrsBus::new(0xFFFF);
    assert_eq!(bus.load_bytes(&[1, 2, 3], 0xFFFE), 3);
    assert_eq!(bus.read_byte(0xFFFE), 1);
    assert_eq!(bus.read_byte(0xFFFF), 2);
    assert_eq!(bus.read_byte(0x0000), 3);
}

#[test]
fn slices_include_both_ends() {
    let mut bus = TrsBus::new(0x000F);
    for m in 0..=15u16 {
        bus.write_byte(m, 0xFF);
    }
    assert_eq!(bus.read_mem_slice(2, 4), vec![0xFF, 0xFF, 0xFF]);
    bus.clear_mem_slice(0x0000, 0x000E);
    assert_eq!(bus.read_byte(0x000E), 0x00);
    assert_eq!(bus.read_byte(0x000F), 0xFF);
}

#[test]
fn disassembles_what_is_in_memory() {
    let mut bus = TrsBus::new(0xFFFF);
    bus.write_byte(0x0100, 0x00);
    let (text, len) = bus.disassemble(0x0100);
    assert_eq!(len, 1);
    assert!(text.ends_with("NOP"), "{text}");
    bus.write_byte(0x0200, 0x3E);
    bus.write_byte(0x0201, 0x0F);
    let (text, len) = bus.disassemble(0x0200);
    assert_eq!(len, 2);
    assert!(text.starts_with("3E 0F"), "{text}");
}

#[test]
fn a_run_of_index_prefixes_too_long_to_decode_is_reported() {
    let mut bus = TrsBus::new(0xFFFF);
    for a in 0x4000u16..0x4000 + 252 {
        bus.write_byte(a, if a % 2 == 0 { 0xDD } else { 0xFD });
    }
    assert_eq!(bus.disassemble(0x4000), ("DD/FD prefixes only".to_string(), 1));
    // One prefix fewer: the run ends in reach, and the decoder takes it all.
    let (_, len) = bus.disassemble(0x4001);
    assert_eq!(len, 252);
}

#[test]
fn memory_full_of_prefixes_does_not_hang_the_disassembler() {
    let mut bus = TrsBus::new(0xFFFF);
    for a in 0..=0xFFFFu16 {
        bus.write_byte(a, 0xDD);
    }
    assert_eq!(bus.disassemble(0x1234), ("DD/FD prefixes only".to_string(), 1));
}
