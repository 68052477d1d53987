//! Turns the video RAM (64 columns x 16 rows of character codes at 0x3C00)
//! into an RGB24 picture, one glyph bitmap per character, and keeps a frame
//! up to date by redrawing only the text rows that changed.
//!
//! A glyph is `CELL_W x CELL_H` alpha values, row by row; the character set
//! holds 256 of them back to back, glyph `code` first at `code * GLYPH_SIZE`.

use vstd::prelude::*;
use crate::bus::{TrsBus, read_at};

verus! {

pub const COLS: usize = 64;
pub const ROWS: usize = 16;
/// A character cell's width in pixels.
pub const CELL_W: usize = 18;
/// A character cell's height in pixels.
pub const CELL_H: usize = 54;
pub const SCREEN_WIDTH: usize = 1152;
pub const SCREEN_HEIGHT: usize = 864;
/// One picture line, in bytes.
pub const LINE_BYTES: usize = 3456;
/// The whole picture, in bytes.
pub const SCREEN_BYTES: usize = 2985984;
/// One glyph, in bytes.
pub const GLYPH_SIZE: usize = 972;
/// The whole character set, in bytes.
pub const CHARSET_BYTES: usize = 248832;
/// Where the video RAM starts.
pub const VRAM_START: u16 = 0x3C00;

/// The text colour's component `c` (red, green, blue).
pub open spec fn text_color(c: int) -> int {
    if c == 0 { 219 } else if c == 1 { 220 } else { 250 }
}

/// A colour component shaded by a glyph's alpha value.
pub open spec fn shade(color: int, alpha: u8) -> u8 {
    ((color * alpha) / 255) as u8
}

/// The picture byte at `i` when the character codes of the screen, row by
/// row, are `codes`: byte `i` is colour component `i % 3` of the pixel at
/// `(x, y)`, whose cell and place in the cell give the glyph's alpha.
pub open spec fn frame_byte(codes: Seq<u8>, charset: Seq<u8>, i: int) -> u8 {
    let y = i / LINE_BYTES as int;
    let x = (i % LINE_BYTES as int) / 3;
    let c = i % 3;
    let code = codes[(y / CELL_H as int) * COLS as int + x / CELL_W as int];
    shade(text_color(c), charset[code * GLYPH_SIZE as int + (y % CELL_H as int) * CELL_W as int + x % CELL_W as int])
}

/// The character codes on screen, as the video RAM holds them.
pub open spec fn vram_codes(memory: Seq<u8>) -> Seq<u8> {
    Seq::new(1024, |k: int| read_at(memory, (VRAM_START as int + k) as u16))
}

/// The text row that picture byte `i` belongs to.
pub open spec fn text_row_of(i: int) -> int {
    i / (LINE_BYTES as int * CELL_H as int)
}

proof fn lemma_index(y: int, x: int, c: int)
    requires
        0 <= y < 864,
        0 <= x < 1152,
        0 <= c < 3,
    ensures
        (y * 3456 + x * 3 + c) / 3456 == y,
        ((y * 3456 + x * 3 + c) % 3456) / 3 == x,
        (y * 3456 + x * 3 + c) % 3 == c,
        (y * 3456 + x * 3 + c) / 186624int == y / 54,
{
    assert((y * 3456 + x * 3 + c) / 3456 == y) by (nonlinear_arith)
        requires 0 <= x < 1152, 0 <= c < 3;
    assert((y * 3456 + x * 3 + c) % 3456 == x * 3 + c) by (nonlinear_arith)
        requires 0 <= x < 1152, 0 <= c < 3;
    assert((y * 3456 + x * 3 + c) % 3 == c) by (nonlinear_arith)
        requires 0 <= c < 3;
    assert((x * 3 + c) / 3 == x) by (nonlinear_arith)
        requires 0 <= c < 3;
    assert((y * 3456 + x * 3 + c) / 186624int == y / 54) by (nonlinear_arith)
        requires 0 <= y, 0 <= x < 1152, 0 <= c < 3;
}

/// Renders text row `row` (0..ROWS) of the video RAM into `buf`, an RGB24
/// picture of `SCREEN_BYTES` bytes; the other rows are left as they were.
#[verifier::spinoff_prover]
#[verifier::rlimit(40)]
pub fn render_row(bus: &TrsBus, row: usize, buf: &mut [u8], charset: &[u8])
    requires
        row < ROWS,
        old(buf)@.len() == SCREEN_BYTES,
        charset@.len() == CHARSET_BYTES,
    ensures
        final(buf)@.len() == SCREEN_BYTES,
        forall|i: int| 0 <= i < SCREEN_BYTES ==> #[trigger] final(buf)@[i] == if text_row_of(i) == row {
            frame_byte(vram_codes(bus.memory()), charset@, i)
        } else {
            old(buf)@[i]
        },
{
    let ghost codes_all = vram_codes(bus.memory());
    let mut codes: Vec<u8> = Vec::new();
    let mut col: usize = 0;
    while col < COLS
        invariant
            col <= COLS,
            row < ROWS,
            codes@.len() == col,
            codes_all == vram_codes(bus.memory()),
            forall|k: int| 0 <= k < col ==> codes@[k] == codes_all[row * 64 + k],
        decreases COLS - col,
    {
        codes.push(bus.read_byte(VRAM_START + (row * COLS + col) as u16));
        col += 1;
    }
    let y0 = row * CELL_H;
    let start: usize = y0 * LINE_BYTES;
    let mut y = y0;
    while y < y0 + CELL_H
        invariant
            row < ROWS,
            y0 == row * CELL_H,
            start == y0 * LINE_BYTES,
            y0 <= y <= y0 + CELL_H,
            buf@.len() == SCREEN_BYTES,
            charset@.len() == CHARSET_BYTES,
            codes@.len() == COLS,
            forall|k: int| 0 <= k < 64 ==> codes@[k] == codes_all[row * 64 + k],
            forall|i: int| 0 <= i < SCREEN_BYTES ==> #[trigger] buf@[i] == if start <= i < y * LINE_BYTES {
                frame_byte(codes_all, charset@, i)
            } else {
                old(buf)@[i]
            },
        decreases y0 + CELL_H - y,
    {
        let gy = y - y0;
        let mut x: usize = 0;
        while x < SCREEN_WIDTH
            invariant
                row < ROWS,
                y0 == row * CELL_H,
                start == y0 * LINE_BYTES,
                y0 <= y < y0 + CELL_H,
                gy == y - y0,
                x <= SCREEN_WIDTH,
                buf@.len() == SCREEN_BYTES,
                charset@.len() == CHARSET_BYTES,
                codes@.len() == COLS,
                forall|k: int| 0 <= k < 64 ==> codes@[k] == codes_all[row * 64 + k],
                forall|i: int| 0 <= i < SCREEN_BYTES ==> #[trigger] buf@[i] == if start <= i < y * LINE_BYTES + x * 3 {
                    frame_byte(codes_all, charset@, i)
                } else {
                    old(buf)@[i]
                },
            decreases SCREEN_WIDTH - x,
        {
            let code = codes[x / CELL_W];
            let a = charset[code as usize * GLYPH_SIZE + gy * CELL_W + x % CELL_W] as u16;
            let dst = y * LINE_BYTES + x * 3;
            let ghost before = buf@;
            buf[dst] = ((219u16 * a) / 255) as u8;
            buf[dst + 1] = ((220u16 * a) / 255) as u8;
            buf[dst + 2] = ((250u16 * a) / 255) as u8;
            proof {
                assert forall|c: int| 0 <= c < 3 implies
                    #[trigger] buf@[dst + c] == frame_byte(codes_all, charset@, dst + c) by {
                    lemma_index(y as int, x as int, c);
                    assert((y as int) / 54 == row) by (nonlinear_arith)
                        requires y0 == row * 54, y0 <= y < y0 + 54;
                    assert((y as int) % 54 == gy) by (nonlinear_arith)
                        requires y0 == row * 54, y0 <= y < y0 + 54, gy == y - y0;
                }
            }
            x += 1;
        }
        y += 1;
    }
    proof {
        assert forall|i: int| 0 <= i < SCREEN_BYTES implies #[trigger] buf@[i] == if text_row_of(i) == row {
            frame_byte(vram_codes(bus.memory()), charset@, i)
        } else {
            old(buf)@[i]
        } by {
            assert((start <= i < (y0 + 54) * 3456) == (i / 186624int == row)) by (nonlinear_arith)
                requires start == y0 * 3456, y0 == row * 54, 0 <= i;
        }
    }
}

proof fn lemma_row_of(i: int)
    requires
        0 <= i < SCREEN_BYTES,
    ensures
        0 <= text_row_of(i) < 16,
        (i / 3456) / 54 == text_row_of(i),
        0 <= (i % 3456) / 3 < 1152,
        0 <= ((i % 3456) / 3) / 18 < 64,
        0 <= (i / 3456) % 54 < 54,
{
    assert(0 <= i / 186624int < 16) by (nonlinear_arith)
        requires 0 <= i < 2985984;
    assert((i / 3456) / 54 == i / 186624int) by (nonlinear_arith)
        requires 0 <= i;
    assert(0 <= (i % 3456) / 3 < 1152) by (nonlinear_arith)
        requires 0 <= i;
    assert(0 <= ((i % 3456) / 3) / 18 < 64) by (nonlinear_arith)
        requires 0 <= (i % 3456) / 3 < 1152;
}

/// Renders every text row of the video RAM into `buf`.
pub fn render(bus: &TrsBus, buf: &mut [u8], charset: &[u8])
    requires
        old(buf)@.len() == SCREEN_BYTES,
        charset@.len() == CHARSET_BYTES,
    ensures
        final(buf)@.len() == SCREEN_BYTES,
        forall|i: int| 0 <= i < SCREEN_BYTES ==>
            #[trigger] final(buf)@[i] == frame_byte(vram_codes(bus.memory()), charset@, i),
{
    let mut row: usize = 0;
    while row < ROWS
        invariant
            row <= ROWS,
            buf@.len() == SCREEN_BYTES,
            charset@.len() == CHARSET_BYTES,
            forall|i: int| 0 <= i < SCREEN_BYTES && text_row_of(i) < row ==>
                #[trigger] buf@[i] == frame_byte(vram_codes(bus.memory()), charset@, i),
        decreases ROWS - row,
    {
        render_row(bus, row, buf, charset);
        row += 1;
    }
    assert forall|i: int| 0 <= i < SCREEN_BYTES implies
        #[trigger] buf@[i] == frame_byte(vram_codes(bus.memory()), charset@, i) by {
        lemma_row_of(i);
    }
}

/// The picture of the character codes `codes`.
pub open spec fn picture_of(codes: Seq<u8>, charset: Seq<u8>) -> Seq<u8> {
    Seq::new(SCREEN_BYTES as nat, |i: int| frame_byte(codes, charset, i))
}

/// A frame kept up to date with the video RAM: each draw re-renders only
/// the text rows whose characters changed since the last draw.
pub struct Screen {
    frame: Vec<u8>,
    last_vram: Option<Vec<u8>>,
    charset: Vec<u8>,
}

impl Screen {
    /// The picture.
    pub closed spec fn picture(self) -> Seq<u8> {
        self.frame@
    }

    /// The character set drawn with.
    pub closed spec fn glyphs(self) -> Seq<u8> {
        self.charset@
    }

    /// The screen's invariant: the picture is that of the characters last
    /// drawn.
    pub closed spec fn wf(self) -> bool {
        &&& self.frame@.len() == SCREEN_BYTES
        &&& self.charset@.len() == CHARSET_BYTES
        &&& self.last_vram matches Some(v) ==> v@.len() == 1025 && self.frame@ == picture_of(v@, self.charset@)
    }

    /// A black screen, nothing drawn yet, using the character set `charset`.
    pub fn new(charset: Vec<u8>) -> (s: Screen)
        requires
            charset@.len() == CHARSET_BYTES,
        ensures
            s.wf(),
            s.glyphs() == charset@,
            s.picture() == Seq::new(SCREEN_BYTES as nat, |i: int| 0u8),
    {
        let s = Screen { frame: vec![0u8; SCREEN_BYTES], last_vram: None, charset };
        assert(s.frame@ =~= Seq::new(SCREEN_BYTES as nat, |i: int| 0u8));
        s
    }

    /// The picture, RGB24, `SCREEN_WIDTH x SCREEN_HEIGHT`.
    pub fn frame(&self) -> (r: &[u8])
        ensures
            r@ == self.picture(),
    {
        self.frame.as_slice()
    }

    /// Brings the picture up to date with the video RAM on `bus`.
    pub fn draw(&mut self, bus: &TrsBus)
        requires
            old(self).wf(),
            bus.memory().len() > 0x4000,
        ensures
            final(self).wf(),
            final(self).glyphs() == old(self).glyphs(),
            final(self).picture() == picture_of(vram_codes(bus.memory()), old(self).glyphs()),
    {
        let bytes = bus.read_mem_slice(0x3C00, 0x4000);
        let ghost codes = vram_codes(bus.memory());
        assert forall|k: int| 0 <= k < 1024 implies bytes@[k] == #[trigger] codes[k] by {}
        let mut frame: Vec<u8> = Vec::new();
        std::mem::swap(&mut frame, &mut self.frame);
        let ghost old_frame = frame@;
        let mut row: usize = 0;
        while row < ROWS
            invariant
                row <= ROWS,
                frame@.len() == SCREEN_BYTES,
                old_frame.len() == SCREEN_BYTES,
                self.charset@.len() == CHARSET_BYTES,
                self.charset == old(self).charset,
                self.last_vram == old(self).last_vram,
                old(self).wf(),
                old_frame == old(self).frame@,
                bytes@.len() == 1025,
                codes == vram_codes(bus.memory()),
                forall|k: int| 0 <= k < 1024 ==> bytes@[k] == #[trigger] codes[k],
                forall|i: int| 0 <= i < SCREEN_BYTES ==> #[trigger] frame@[i] == if text_row_of(i) < row {
                    frame_byte(codes, self.charset@, i)
                } else {
                    old_frame[i]
                },
            decreases ROWS - row,
        {
            let unchanged = match &self.last_vram {
                Some(prev) => same_row(prev, &bytes, row),
                None => false,
            };
            if !unchanged {
                render_row(bus, row, frame.as_mut_slice(), self.charset.as_slice());
            }
            proof {
                assert forall|i: int| 0 <= i < SCREEN_BYTES implies #[trigger] frame@[i] == if text_row_of(i) < row + 1 {
                    frame_byte(codes, self.charset@, i)
                } else {
                    old_frame[i]
                } by {
                    lemma_row_of(i);
                    if unchanged && text_row_of(i) == row {
                        let prev = self.last_vram->0@;
                        assert(old_frame[i] == picture_of(prev, self.charset@)[i]);
                        let col = ((i % 3456) / 3) / 18;
                        assert(prev[row * 64 + col] == bytes@[row * 64 + col]);
                    }
                }
            }
            row += 1;
        }
        proof {
            assert forall|i: int| 0 <= i < SCREEN_BYTES implies #[trigger] frame@[i] == frame_byte(bytes@, self.charset@, i) by {
                lemma_row_of(i);
                let col = ((i % 3456) / 3) / 18;
                let r = text_row_of(i);
                assert(0 <= r * 64 + col < 1024) by (nonlinear_arith)
                    requires 0 <= r < 16, 0 <= col < 64;
            }
            assert(frame@ =~= picture_of(bytes@, self.charset@));
            assert forall|i: int| 0 <= i < SCREEN_BYTES implies
                #[trigger] picture_of(bytes@, self.charset@)[i] == picture_of(codes, self.charset@)[i] by {
                lemma_row_of(i);
                let col = ((i % 3456) / 3) / 18;
                let r = text_row_of(i);
                assert(0 <= r * 64 + col < 1024) by (nonlinear_arith)
                    requires 0 <= r < 16, 0 <= col < 64;
            }
            assert(picture_of(bytes@, self.charset@) =~= picture_of(codes, self.charset@));
        }
        self.frame = frame;
        self.last_vram = Some(bytes);
    }
}

/// Whether text row `row` holds the same characters in `a` and `b`.
fn same_row(a: &Vec<u8>, b: &Vec<u8>, row: usize) -> (r: bool)
    requires
        row < ROWS,
        a@.len() == 1025,
        b@.len() == 1025,
    ensures
        r == forall|col: int| 0 <= col < 64 ==> #[trigger] a@[row * 64 + col] == b@[row * 64 + col],
{
    let mut col: usize = 0;
    while col < COLS
        invariant
            row < ROWS,
            a@.len() == 1025,
            b@.len() == 1025,
            col <= COLS,
            forall|c: int| 0 <= c < col ==> #[trigger] a@[row * 64 + c] == b@[row * 64 + c],
        decreases COLS - col,
    {
        if a[row * COLS + col] != b[row * COLS + col] {
            return false;
        }
        col += 1;
    }
    true
}

/// Glyphs are stored row by row, `CELL_W` alpha values per glyph row: where
/// the glyph of a cell has a single non-zero alpha, at offset `o`, the cell
/// is lit only at the pixel `o % CELL_W` across and `o / CELL_W` down from
/// its corner, in the text colour shaded by that alpha; every other pixel of
/// the cell is black.
pub proof fn lemma_glyphs_are_stored_row_by_row(
    codes: Seq<u8>,
    charset: Seq<u8>,
    col: int,
    row: int,
    dx: int,
    dy: int,
    c: int,
    o: int,
)
    requires
        codes.len() == COLS * ROWS,
        charset.len() == CHARSET_BYTES,
        0 <= col < COLS,
        0 <= row < ROWS,
        0 <= dx < CELL_W,
        0 <= dy < CELL_H,
        0 <= c < 3,
        0 <= o < GLYPH_SIZE,
        forall|t: int| 0 <= t < GLYPH_SIZE && t != o
            ==> #[trigger] charset[codes[row * COLS + col] * GLYPH_SIZE + t] == 0,
    ensures
        frame_byte(codes, charset, (row * CELL_H + dy) * LINE_BYTES + (col * CELL_W + dx) * 3 + c)
            == if dx == o % (CELL_W as int) && dy == o / (CELL_W as int) {
                shade(text_color(c), charset[codes[row * COLS + col] * GLYPH_SIZE + o])
            } else {
                0
            },
{
    let y = row * 54 + dy;
    let x = col * 18 + dx;
    lemma_index(y, x, c);
    let i = y * 3456 + x * 3 + c;
    assert(i == (row * CELL_H + dy) * LINE_BYTES + (col * CELL_W + dx) * 3 + c) by (nonlinear_arith)
        requires y == row * 54 + dy, x == col * 18 + dx, i == y * 3456 + x * 3 + c;
    assert(y / 54 == row && y % 54 == dy) by (nonlinear_arith)
        requires y == row * 54 + dy, 0 <= dy < 54;
    assert(x / 18 == col && x % 18 == dx) by (nonlinear_arith)
        requires x == col * 18 + dx, 0 <= dx < 18;
    let t = dy * 18 + dx;
    assert(0 <= t < 972) by (nonlinear_arith)
        requires 0 <= dy < 54, 0 <= dx < 18, t == dy * 18 + dx;
    assert((t == o) == (dx == o % 18 && dy == o / 18)) by (nonlinear_arith)
        requires 0 <= dy < 54, 0 <= dx < 18, t == dy * 18 + dx, 0 <= o;
    let g = codes[row * 64 + col];
    assert(charset[g * 972 + t] == 0 || t == o);
    assert(shade(text_color(c), 0) == 0);
}

} // verus!
