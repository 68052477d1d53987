use trust_80::bus::TrsBus;
use trust_80::cassette::CassetteReader;

#[test]
fn empty_reader_reads_zero_and_reports_no_tape() {
    let mut t = CassetteReader::new();
    assert_eq!(t.read(), 0);
    assert_eq!(t.status(), "Tape: no tape inserted");
}

#[test]
fn bytes_play_back_msb_first_with_sync_pulses() {
    let mut t = CassetteReader::default();
    t.load_from_bytes(&[0xA5]);
    let pulses: Vec<u8> = (0..16).map(|_| t.read()).collect();
    // 0xA5 = 1010_0101
    let expected = [1, 1, 1, 0, 1, 1, 1, 0, 1, 0, 1, 1, 1, 0, 1, 1];
    let expected: Vec<u8> = expected.iter().map(|b| b << 7).collect();
    assert_eq!(pulses, expected);
    assert_eq!(t.status(), "Tape: position 16/16 bits");
    assert_eq!(t.read(), 0);
    assert_eq!(t.status(), "Tape: position 16/16 bits");
}

#[test]
fn rewind_starts_over() {
    let mut t = CassetteReader::new();
    t.load_from_bytes(&[0x00, 0xFF]);
    assert_eq!(t.status(), "Tape: position 0/32 bits");
    t.read();
    t.read();
    assert_eq!(t.read(), 0x80);
    assert_eq!(t.status(), "Tape: position 3/32 bits");
    t.rewind();
    assert_eq!(t.status(), "Tape: position 0/32 bits");
    assert_eq!(t.read(), 0x80);
}

#[test]
fn loading_replaces_the_previous_tape() {
    let mut t = CassetteReader::new();
    t.load_from_bytes(&[1, 2, 3]);
    t.read();
    t.load_from_bytes(&[9]);
    assert_eq!(t.status(), "Tape: position 0/16 bits");
}

#[test]
fn cassette_port_is_decoded_on_the_low_byte() {
    let mut bus = TrsBus::new(0xFFFF);
    bus.tape.load_from_bytes(&[0x80]);
    assert_eq!(bus.read_io(0x12FE), 0xFF);
    assert_eq!(bus.tape.status(), "Tape: position 0/16 bits");
    assert_eq!(bus.read_io(0x34FF), 0x80);
    assert_eq!(bus.read_io(0x00FF), 0x80);
    assert_eq!(bus.tape.status(), "Tape: position 2/16 bits");
}

#[test]
fn pulses_read_as_zero_or_0x80_and_rewind_replays_them() {
    let mut r = trust_80::cassette::CassetteReader::new();
    r.load_from_bytes(&[0xA5, 0x00]);
    let first: Vec<u8> = (0..40).map(|_| r.read()).collect();
    assert!(first.iter().all(|&p| p == 0 || p == 0x80));
    assert_eq!(&first[32..], &[0; 8]);
    r.rewind();
    let again: Vec<u8> = (0..40).map(|_| r.read()).collect();
    assert_eq!(first, again);
}
