use trust_80::config::{replace_section, ConfigError};

#[test]
fn replaces_a_section_in_place_of_its_old_body() {
    let content = "# my settings\n[memory]\nrom = \"rom.bin\"\n\n[display]\ndefault_zoom = \"x2\"\n\n[debug]\niodevices = false\n";
    let out = replace_section(content, "display", "default_zoom = \"half\"\n");
    assert_eq!(
        out,
        "# my settings\n[memory]\nrom = \"rom.bin\"\n\n[debug]\niodevices = false\n\n[display]\ndefault_zoom = \"half\"\n"
    );
}

#[test]
fn appends_a_missing_section() {
    let out = replace_section("[memory]\nram = 49151", "crt", "mask_min = 0.5  \n\n");
    assert_eq!(out, "[memory]\nram = 49151\n\n[crt]\nmask_min = 0.5\n");
}

#[test]
fn empty_file_gets_just_the_section() {
    assert_eq!(replace_section("", "display", "a = 1"), "[display]\na = 1\n");
    assert_eq!(replace_section("\n  \n", "display", ""), "[display]\n\n");
}

#[test]
fn header_is_matched_after_trimming_and_crlf_is_dropped() {
    let content = "  [display]  \r\nold = 1\r\n[other]\r\nkeep = 2\r\n";
    assert_eq!(replace_section(content, "display", "new = 3"), "[other]\nkeep = 2\n\n[display]\nnew = 3\n");
}

#[test]
fn replacing_twice_gives_the_same_text() {
    let content = "[a]\nx = 1\n[display]\ndefault_zoom = \"x2\"\n[b]\ny = 2\n";
    let once = replace_section(content, "display", "default_zoom = \"half\"");
    let twice = replace_section(&once, "display", "default_zoom = \"half\"");
    assert_eq!(once, twice);
}

#[test]
fn config_error_messages() {
    assert_eq!(ConfigError::ConfigFile.to_string(), "Can't load config file");
    assert_eq!(ConfigError::ConfigFileFmt.to_string(), "Bad config file format");
    assert_eq!(ConfigError::IOError.to_string(), "I/O error");
}

#[test]
fn a_body_that_opens_another_section_is_not_rewritten_alike() {
    // The `[x]` line of the body ends the section when the text is read back.
    let once = replace_section("", "display", "a = 1\n[x]\nb = 2");
    let twice = replace_section(&once, "display", "a = 1\n[x]\nb = 2");
    assert_eq!(once, "[display]\na = 1\n[x]\nb = 2\n");
    assert_eq!(twice, "[x]\nb = 2\n\n[display]\na = 1\n[x]\nb = 2\n");
}
