use trust_80::hexconversion::{ConversionError, HexStringToUnsigned};
use trust_80::monitor::{parse_command, submitted_command, MonitorCmd};

#[test]
fn parses_the_documented_commands() {
    let (c, a, b) = parse_command("d 0x0000");
    assert_eq!(c, MonitorCmd::Disassemble);
    assert_eq!(a, "0x0000");
    assert_eq!(b, "");

    assert_eq!(parse_command("m 0xeeee").0, MonitorCmd::ReadMem);
    let (c, a, b) = parse_command("m 0xeeee 0xaa");
    assert_eq!(c, MonitorCmd::WriteMem);
    assert_eq!((a.as_str(), b.as_str()), ("0xeeee", "0xaa"));
    assert_eq!(parse_command("j 0x0000").0, MonitorCmd::Jump);
    assert_eq!(parse_command("b").0, MonitorCmd::ListBreakpoints);
    assert_eq!(parse_command("b 0x0002").0, MonitorCmd::AddBreakpoint);
    assert_eq!(parse_command("f 0x0002").0, MonitorCmd::RemoveBreakpoint);
    assert_eq!(parse_command("p").0, MonitorCmd::Pause);
    assert_eq!(parse_command("g").0, MonitorCmd::Resume);
    assert_eq!(parse_command("n").0, MonitorCmd::Step);
    assert_eq!(parse_command("r").0, MonitorCmd::Registers);
    assert_eq!(parse_command("hw").0, MonitorCmd::Hardware);
    assert_eq!(parse_command("reset").0, MonitorCmd::Reset);
    assert_eq!(parse_command("powercycle").0, MonitorCmd::PowerCycle);
    assert_eq!(parse_command("pc").0, MonitorCmd::PowerCycle);
    assert_eq!(parse_command("help").0, MonitorCmd::Help);
    assert_eq!(parse_command("h").0, MonitorCmd::Help);
    let (c, a, _) = parse_command("tape rewind");
    assert_eq!(c, MonitorCmd::Tape);
    assert_eq!(a, "rewind");
}

#[test]
fn splits_on_any_white_space() {
    let (c, a, b) = parse_command("  m\t0x10 \u{3000} 0x20   extra ");
    assert_eq!(c, MonitorCmd::WriteMem);
    assert_eq!(a, "0x10");
    assert_eq!(b, "0x20");
}

#[test]
fn unknown_and_empty_lines() {
    assert_eq!(parse_command("frobnicate").0, MonitorCmd::Unknown);
    assert_eq!(parse_command("HELP").0, MonitorCmd::Unknown);
    let (c, a, b) = parse_command("");
    assert_eq!(c, MonitorCmd::Unknown);
    assert_eq!((a.as_str(), b.as_str()), ("", ""));
}

#[test]
fn hex_words_and_bytes() {
    assert_eq!("0x0000".to_string().to_u16(), Ok(0));
    assert_eq!("0xeeee".to_string().to_u16(), Ok(0xeeee));
    assert_eq!("0xFfFf".to_string().to_u16(), Ok(0xffff));
    assert_eq!("0x+1f".to_string().to_u16(), Ok(0x1f));
    assert_eq!("0xaa".to_string().to_u8(), Ok(0xaa));
    assert_eq!("0x7".to_string().to_u8(), Ok(7));
}

#[test]
fn hex_errors() {
    assert_eq!("1234".to_string().to_u16(), Err(ConversionError::InvalidWordFormat));
    assert_eq!("0X12".to_string().to_u16(), Err(ConversionError::InvalidWordFormat));
    assert_eq!("12".to_string().to_u8(), Err(ConversionError::InvalidByteFormat));
    assert_eq!("0x".to_string().to_u16(), Err(ConversionError::ParseIntError));
    assert_eq!("0x+".to_string().to_u16(), Err(ConversionError::ParseIntError));
    assert_eq!("0x-1".to_string().to_u16(), Err(ConversionError::ParseIntError));
    assert_eq!("0x10000".to_string().to_u16(), Err(ConversionError::ParseIntError));
    assert_eq!("0x100".to_string().to_u8(), Err(ConversionError::ParseIntError));
    assert_eq!("0xg1".to_string().to_u8(), Err(ConversionError::ParseIntError));
}

#[test]
fn conversion_error_messages() {
    assert_eq!(
        ConversionError::InvalidWordFormat.to_string(),
        "ConversionError : Word string does not start with 0x"
    );
    assert_eq!(
        ConversionError::InvalidByteFormat.to_string(),
        "ConversionError : Byte string does not start with 0x"
    );
    assert_eq!(
        ConversionError::ParseIntError.to_string(),
        "ConversionError : Error while parsing from_str_radix"
    );
}

#[test]
fn blank_console_lines_are_not_sent() {
    assert_eq!(submitted_command(""), None);
    assert_eq!(submitted_command("  \t \u{3000}"), None);
    let (cmd, arg, arg2) = submitted_command("  m 0x4000  0x12 ").unwrap();
    assert_eq!(cmd, MonitorCmd::WriteMem);
    assert_eq!(arg, "0x4000");
    assert_eq!(arg2, "0x12");
    assert_eq!(submitted_command("help").unwrap().0, MonitorCmd::Help);
}

#[test]
fn spacing_never_changes_a_command() {
    let spaced = parse_command("  m\t0x4000    0x12 \t");
    let plain = parse_command("m 0x4000 0x12");
    assert_eq!(spaced.0, plain.0);
    assert_eq!(spaced.1, plain.1);
    assert_eq!(spaced.2, plain.2);
}
