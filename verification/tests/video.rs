use trust_80::bus::TrsBus;
use trust_80::video::{
    render, render_row, Screen, CELL_H, CELL_W, CHARSET_BYTES, GLYPH_SIZE, LINE_BYTES, SCREEN_BYTES,
};

/// A character set where glyph `code` has alpha `code` everywhere, except
/// glyph 0x41 which has alpha 255 in its top-left pixel and 0 elsewhere.
fn charset() -> Vec<u8> {
    let mut cs = vec![0u8; CHARSET_BYTES];
    for code in 0..256usize {
        for k in 0..GLYPH_SIZE {
            cs[code * GLYPH_SIZE + k] = code as u8;
        }
    }
    for k in 0..GLYPH_SIZE {
        cs[0x41 * GLYPH_SIZE + k] = 0;
    }
    cs[0x41 * GLYPH_SIZE] = 255;
    cs
}

fn pixel(buf: &[u8], x: usize, y: usize) -> (u8, u8, u8) {
    let i = y * LINE_BYTES + x * 3;
    (buf[i], buf[i + 1], buf[i + 2])
}

#[test]
fn a_full_alpha_pixel_takes_the_text_colour() {
    let mut bus = TrsBus::new(0xFFFF);
    bus.write_byte(0x3C00 + 64 + 2, 0x41); // row 1, column 2
    let cs = charset();
    let mut buf = vec![7u8; SCREEN_BYTES];
    render_row(&bus, 1, &mut buf, &cs);
    assert_eq!(pixel(&buf, 2 * CELL_W, CELL_H), (219, 220, 250));
    assert_eq!(pixel(&buf, 2 * CELL_W + 1, CELL_H), (0, 0, 0));
    // Rows other than row 1 are untouched.
    assert_eq!(pixel(&buf, 0, 0), (7, 7, 7));
    assert_eq!(pixel(&buf, 0, 2 * CELL_H), (7, 7, 7));
}

#[test]
fn alpha_scales_each_component() {
    let mut bus = TrsBus::new(0xFFFF);
    bus.write_byte(0x3C00, 128);
    let cs = charset();
    let mut buf = vec![0u8; SCREEN_BYTES];
    render(&bus, &mut buf, &cs);
    assert_eq!(pixel(&buf, 5, 5), ((219 * 128 / 255) as u8, (220 * 128 / 255) as u8, (250 * 128 / 255) as u8));
    // Code 0 everywhere else: alpha 0.
    assert_eq!(pixel(&buf, CELL_W, 0), (0, 0, 0));
}

#[test]
fn screen_follows_the_video_ram() {
    let mut bus = TrsBus::new(0xFFFF);
    let cs = charset();
    let mut screen = Screen::new(cs.clone());
    screen.draw(&bus);
    assert_eq!(pixel(screen.frame(), 0, 0), (0, 0, 0));
    bus.write_byte(0x3C00 + 15 * 64 + 63, 255);
    screen.draw(&bus);
    assert_eq!(pixel(screen.frame(), 63 * CELL_W + 3, 15 * CELL_H + 4), (219, 220, 250));
    let mut expected = vec![0u8; SCREEN_BYTES];
    render(&bus, &mut expected, &cs);
    assert_eq!(screen.frame(), expected.as_slice());
}
