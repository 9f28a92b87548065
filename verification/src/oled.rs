//! Page-addressed monochrome framebuffer, rasterizer and display transport.
//!
//! The panel is addressed in 8 horizontal pages of 128 column bytes; bit
//! `b` of a cell is the pixel at vertical offset `b` within the page.  A
//! dirty-page mask records which pages changed since the last flush.  The
//! transport functions do not touch a bus themselves: they return the
//! exact writes (device address and bytes) to put on it, in order.
//!
//! Coordinate and character ranges are caller obligations, stated as
//! preconditions: the drawing primitives are a per-cycle hot path and
//! neither check nor clamp their inputs, and under their preconditions
//! nothing here panics.

use vstd::prelude::*;
use crate::font::glyph;
use crate::font::glyph_spec;

verus! {

/// A logical pixel coordinate.
#[derive(Clone, Copy, PartialEq, Eq, Structural, Debug)]
pub struct Point {
    pub x: u8,
    pub y: u8,
}

/// 7-bit bus address of the display controller.
pub const OLED_ADDR: u8 = 0x3c;

/// Number of 8-pixel-tall pages.
pub const OLED_PAGE: u8 = 8;

/// Number of columns.
pub const OLED_WIDTH: u8 = 128;

/// One blocking write to the display bus: the device address and the
/// bytes to send.
pub struct BusWrite {
    pub addr: u8,
    pub data: Vec<u8>,
}

/// The mathematical state of the framebuffer: 8 pages of 128 column
/// bytes, and the dirty-page mask.
#[verifier::ext_equal]
pub struct Fb {
    pub cells: Seq<Seq<u8>>,
    pub dirty: u8,
}

/// A well-shaped framebuffer model: 8 pages of 128 cells.
pub open spec fn fb_wf(fb: Fb) -> bool {
    &&& fb.cells.len() == 8
    &&& forall|p: int| 0 <= p < 8 ==> (#[trigger] fb.cells[p]).len() == 128
}

/// Whether bit `page` of the dirty mask `mask` is set.
pub open spec fn page_dirty(mask: u8, page: int) -> bool {
    mask & (1u8 << (page as u8)) != 0
}

/// An all-zero page row.
pub open spec fn zero_row() -> Seq<u8> {
    Seq::new(128, |c: int| 0u8)
}

/// The effect of OR-ing one pixel bit into the buffer: the pixel at
/// buffer column `col`, buffer row `row`.
pub open spec fn pixel_written(fb: Fb, col: int, row: int) -> Fb {
    let page = row / 8;
    let off = (row % 8) as u8;
    Fb {
        cells: fb.cells.update(
            page,
            fb.cells[page].update(col, fb.cells[page][col] | (1u8 << off)),
        ),
        dirty: fb.dirty | (1u8 << (page as u8)),
    }
}

/// Rows a column write at top row `y` may start at: the split case
/// needs the next page to exist as well.
pub open spec fn row_ok(y: u8) -> bool {
    if y as int % 8 == 0 {
        y < 64
    } else {
        y < 56
    }
}

/// The dirty bits a column write at top row `y` sets: one page when
/// aligned, the two adjacent pages when split.
pub open spec fn col_dirty_mask(y: u8) -> u8 {
    let p = ((y as int) / 8) as u8;
    if y as int % 8 == 0 {
        1u8 << p
    } else {
        (1u8 << p) | (1u8 << ((p as int + 1) as u8))
    }
}

/// The effect of an 8-pixel column write of `data` at column `x`, top
/// row `y`: aligned writes overwrite one page's cell, unaligned writes
/// OR the byte's halves into the two adjacent pages.
pub open spec fn col_written(fb: Fb, x: u8, y: u8, data: u8) -> Fb {
    let p = (y as int) / 8;
    let off = ((y as int) % 8) as u8;
    if off == 0 {
        Fb {
            cells: fb.cells.update(p, fb.cells[p].update(x as int, data)),
            dirty: fb.dirty | col_dirty_mask(y),
        }
    } else {
        let hi = fb.cells[p][x as int] | (data >> off);
        let lo = fb.cells[p + 1][x as int] | (data << ((8 - off as int) as u8));
        Fb {
            cells: fb.cells.update(p, fb.cells[p].update(x as int, hi)).update(
                p + 1,
                fb.cells[p + 1].update(x as int, lo),
            ),
            dirty: fb.dirty | col_dirty_mask(y),
        }
    }
}

/// The framebuffer after the column bytes `cols` have been written
/// left to right starting at column `x`, all with top row `y`.
pub open spec fn cols_written(fb: Fb, x: u8, y: u8, cols: Seq<u8>) -> Fb
    decreases cols.len(),
{
    if cols.len() == 0 {
        fb
    } else {
        col_written(
            cols_written(fb, x, y, cols.drop_last()),
            (x + cols.len() - 1) as u8,
            y,
            cols.last(),
        )
    }
}

/// The glyph columns of a string of characters, left to right.
pub open spec fn str_cols(s: Seq<char>) -> Seq<u8>
    decreases s.len(),
{
    if s.len() == 0 {
        Seq::empty()
    } else {
        str_cols(s.drop_last()) + glyph_spec(s.last() as u8)
    }
}

/// Ten to the power `e` (one for `e` at or below zero).
pub open spec fn pow10(e: int) -> int
    decreases e,
{
    if e <= 0 {
        1
    } else {
        10 * pow10(e - 1)
    }
}

/// The decimal digit character of value `d`.
pub open spec fn digit_char(d: int) -> char {
    ((0x30 + d) as u8) as char
}

/// `n` rendered as a fixed-width decimal field of `len` digits, most
/// significant first, truncated to its `len` least significant digits.
pub open spec fn number_chars(n: u32, len: int) -> Seq<char> {
    Seq::new(len as nat, |i: int| digit_char((n as int / pow10(len - 1 - i)) % 10))
}

/// The framebuffer after the first `strips` 8-row strips of a packed
/// bitmap have been blitted at column `x`, top row `y`: strip `i` holds
/// the `width` column bytes drawn at top row `y + 8 * i`.
pub open spec fn image_written(
    fb: Fb,
    x: u8,
    y: u8,
    width: u8,
    strips: int,
    data: Seq<u8>,
) -> Fb
    decreases strips,
{
    if strips <= 0 {
        fb
    } else {
        cols_written(
            image_written(fb, x, y, width, strips - 1, data),
            x,
            (y + 8 * (strips - 1)) as u8,
            data.subrange(width * (strips - 1), width * strips),
        )
    }
}

/// The bytes of the "set cursor to page `page`, column `x`" command:
/// the command prefix, the column nibbles, and the page-select byte.
pub open spec fn cursor_bytes(page: u8, x: u8) -> Seq<u8> {
    seq![0x00u8, x & 0x0fu8, (x >> 4u8) & 0x0fu8, 0xb0u8 | page]
}

/// The fixed initialization command burst, ending in display-on.
pub open spec fn init_bytes() -> Seq<u8> {
    seq![
        0xaeu8,  // display off while configuring
        0xd5u8, 0x80u8,  // clock divider / oscillator frequency
        0x20u8, 0x02u8,  // page addressing mode
        0xa8u8, 0x3fu8,  // multiplex ratio
        0xdau8, 0x12u8,  // column pin hardware layout
        0xa1u8,  // segment remap
        0xc8u8,  // row output scan direction
        0x40u8,  // display start line
        0xd3u8, 0x00u8,  // display offset
        0x81u8, 0xcfu8,  // contrast
        0xd9u8, 0xf1u8,  // pre-charge period
        0xdbu8, 0x20u8,  // VCOMH regulator output
        0x8du8, 0x14u8,  // charge pump
        0xa4u8,  // resume display from RAM
        0xa6u8,  // normal (non-inverted) display
        0xafu8,  // display on
    ]
}

/// The writes a vector of bus writes stands for: address and byte view
/// of each.
pub open spec fn writes_of(s: Seq<BusWrite>) -> Seq<(u8, Seq<u8>)> {
    s.map_values(|w: BusWrite| (w.addr, w.data@))
}

/// The cursor-command write for page `p`.
pub open spec fn cursor_entry(p: int) -> (u8, Seq<u8>) {
    (OLED_ADDR, cursor_bytes(p as u8, 0u8))
}

/// The data write for page `p`: the data-mode prefix and the page's
/// 128 cells.
pub open spec fn payload_entry(fb: Fb, p: int) -> (u8, Seq<u8>) {
    (OLED_ADDR, seq![0x40u8] + fb.cells[p])
}

/// Whether `e` is one of the two writes a dirty page below `upto`
/// contributes to a flush.
pub open spec fn flush_entry_for(fb: Fb, upto: int, e: (u8, Seq<u8>)) -> bool {
    exists|p: int|
        0 <= p < upto && page_dirty(fb.dirty, p) && (e == cursor_entry(p) || e
            == payload_entry(fb, p))
}

/// The flush transcript for the pages below `upto`: for each dirty page
/// in ascending order, the cursor command, then the data write.
pub open spec fn flush_seq(fb: Fb, upto: int) -> Seq<(u8, Seq<u8>)>
    decreases upto,
{
    if upto <= 0 {
        Seq::empty()
    } else if page_dirty(fb.dirty, upto - 1) {
        flush_seq(fb, upto - 1) + seq![cursor_entry(upto - 1), payload_entry(fb, upto - 1)]
    } else {
        flush_seq(fb, upto - 1)
    }
}

/// The number of dirty pages below `upto`.
pub open spec fn dirty_count(mask: u8, upto: int) -> int
    decreases upto,
{
    if upto <= 0 {
        0
    } else if page_dirty(mask, upto - 1) {
        dirty_count(mask, upto - 1) + 1
    } else {
        dirty_count(mask, upto - 1)
    }
}

/// The cell contents after an erase of the dirty pages: dirty pages go
/// blank, clean pages keep their bytes.
pub open spec fn cleared_cells(fb: Fb) -> Seq<Seq<u8>> {
    Seq::new(8, |p: int| if page_dirty(fb.dirty, p) { zero_row() } else { fb.cells[p] })
}

/// The framebuffer: the pixel buffer, the dirty-page mask, the fixed
/// drawing origin and the two trace cursor points.
pub struct Oscilloscope {
    buffer: [[u8; 128]; 8],
    dirty_page: u8,
    origin: Point,
    current_point: Point,
    previous_point: Point,
}

/// Pixel-level drawing, honouring the origin offset.
pub trait Draw {
    /// Coordinates the implementor accepts for a pixel write.
    spec fn pixel_ok(&self, x: u8, y: u8) -> bool;

    /// The state change one pixel write makes.
    spec fn pixel_drawn(&self, pre: &Self, x: u8, y: u8) -> bool;

    fn draw_pixel(&mut self, x: u8, y: u8)
        requires
            old(self).pixel_ok(x, y),
        ensures
            final(self).pixel_drawn(old(self), x, y),
    ;
}

impl Oscilloscope {
    /// The buffer and dirty mask as their mathematical model.
    pub closed spec fn model(self) -> Fb {
        Fb {
            cells: Seq::new(8, |p: int| Seq::new(128, |c: int| self.buffer[p][c])),
            dirty: self.dirty_page,
        }
    }

    /// The byte stored at page `page`, column `col`.
    pub open spec fn cell(self, page: int, col: int) -> u8 {
        self.model().cells[page][col]
    }

    /// The dirty-page mask: bit `p` set means page `p` awaits a flush.
    pub open spec fn dirty(self) -> u8 {
        self.model().dirty
    }

    /// The fixed drawing origin.
    pub closed spec fn spec_origin(self) -> Point {
        self.origin
    }

    /// The most recent trace position.
    pub closed spec fn spec_current_point(self) -> Point {
        self.current_point
    }

    /// The trace position current held before its last update.
    pub closed spec fn spec_previous_point(self) -> Point {
        self.previous_point
    }

    /// The model always has 8 pages of 128 cells.
    pub proof fn lemma_model_shape(self)
        ensures
            self.model().cells.len() == 8,
            forall|p: int| 0 <= p < 8 ==> (#[trigger] self.model().cells[p]).len() == 128,
    {
    }

    /// A fresh framebuffer: all cells zero, no page dirty, the origin
    /// at the centre of the panel.
    pub fn new() -> (s: Self)
        ensures
            s.model() == (Fb { cells: Seq::new(8, |p: int| zero_row()), dirty: 0u8 }),
            s.spec_origin() == (Point { x: 64u8, y: 32u8 }),
            s.spec_current_point() == (Point { x: 0u8, y: 0u8 }),
            s.spec_previous_point() == (Point { x: 0u8, y: 0u8 }),
    {
        let s = Oscilloscope {
            buffer: [[0u8; 128]; 8],
            dirty_page: 0,
            origin: Point { x: OLED_WIDTH / 2, y: OLED_PAGE * 4 },
            current_point: Point { x: 0, y: 0 },
            previous_point: Point { x: 0, y: 0 },
        };
        proof {
            assert(s.model() =~~= (Fb { cells: Seq::new(8, |p: int| zero_row()), dirty: 0u8 }));
        }
        s
    }

    /// The drawing origin, settled at construction.
    pub fn origin(&self) -> (p: Point)
        ensures
            p == self.spec_origin(),
    {
        self.origin
    }

    /// Writes a full 8-pixel column slice `data` at column `x`, top row
    /// `y`.  A page-aligned `y` overwrites one page's cell; otherwise
    /// the byte is split over the two adjacent pages, OR-ed in at the
    /// complementary shifts, and both pages are marked dirty.
    pub fn draw_pixels(&mut self, x: u8, y: u8, data: u8)
        requires
            x < 128,
            row_ok(y),
        ensures
            final(self).model() == col_written(old(self).model(), x, y, data),
            same_frame(*old(self), *final(self)),
    {
        if y % 8 == 0 {
            let page: usize = (y / 8) as usize;
            self.buffer[page][x as usize] = data;
            self.dirty_page = self.dirty_page | (1u8 << (y / 8));
            proof {
                assert(self.model() =~~= col_written(old(self).model(), x, y, data));
            }
        } else {
            let page: usize = (y / 8) as usize;
            let off: u8 = y % 8;
            // The split touches pages `page` and `page + 1`: mark
            // exactly those two dirty.
            self.dirty_page = self.dirty_page | (1u8 << (y / 8)) | (1u8 << (y / 8 + 1));
            let hi: u8 = self.buffer[page][x as usize];
            self.buffer[page][x as usize] = hi | (data >> off);
            let lo: u8 = self.buffer[page + 1][x as usize];
            self.buffer[page + 1][x as usize] = lo | (data << (8 - off));
            proof {
                lemma_or_assoc(old(self).dirty(), 1u8 << (y / 8), 1u8 << (y / 8 + 1));
                assert(self.model() =~~= col_written(old(self).model(), x, y, data));
            }
        }
    }
    /// Draws the 6x8 glyph for `c` with its left column at `x` and its
    /// top row at `y`.  Placement is in raw buffer coordinates: unlike
    /// pixel drawing, no origin offset is applied.
    pub fn draw_char(&mut self, x: u8, y: u8, c: char)
        requires
            0x20 <= (c as u32) && (c as u32) < 0x80,
            x + 6 <= 128,
            row_ok(y),
        ensures
            final(self).model() == cols_written(
                old(self).model(),
                x,
                y,
                glyph_spec(c as u8),
            ),
            same_frame(*old(self), *final(self)),
    {
        let ch: [u8; 6] = glyph(c as u8);
        let mut i: u8 = 0;
        while i < 6
            invariant
                i <= 6,
                x + 6 <= 128,
                row_ok(y),
                ch@ == glyph_spec(c as u8),
                self.model() == cols_written(old(self).model(), x, y, ch@.take(i as int)),
                same_frame(*old(self), *self),
            decreases 6 - i,
        {
            self.draw_pixels(x + i, y, ch[i as usize]);
            proof {
                assert(ch@.take(i + 1).drop_last() =~= ch@.take(i as int));
                assert(ch@.take(i + 1).last() == ch@[i as int]);
            }
            i = i + 1;
        }
        proof {
            assert(ch@.take(6) =~= glyph_spec(c as u8));
        }
    }

    /// Draws the characters of `s` left to right from column `x`, top
    /// row `y`, advancing one glyph width per character.
    pub fn draw_string(&mut self, x: u8, y: u8, s: &str)
        requires
            forall|k: int|
                0 <= k < s@.len() ==> 0x20 <= ((#[trigger] s@[k]) as u32) && (s@[k] as u32)
                    < 0x80,
            x + 6 * s@.len() <= 128,
            row_ok(y),
        ensures
            final(self).model() == cols_written(old(self).model(), x, y, str_cols(s@)),
            same_frame(*old(self), *final(self)),
    {
        let len: usize = s.unicode_len();
        let mut k: usize = 0;
        proof {
            assert(str_cols(s@.take(0)) =~= Seq::<u8>::empty());
        }
        while k < len
            invariant
                k <= len,
                len == s@.len(),
                forall|j: int|
                    0 <= j < s@.len() ==> 0x20 <= ((#[trigger] s@[j]) as u32) && (s@[j] as u32)
                        < 0x80,
                x + 6 * s@.len() <= 128,
                row_ok(y),
                self.model() == cols_written(
                    old(self).model(),
                    x,
                    y,
                    str_cols(s@.take(k as int)),
                ),
                same_frame(*old(self), *self),
            decreases len - k,
        {
            let c: char = s.get_char(k);
            proof {
                lemma_str_cols_len(s@.take(k as int));
            }
            self.draw_char(x + (k as u8) * 6, y, c);
            proof {
                assert(s@.take(k + 1).drop_last() =~= s@.take(k as int));
                assert(s@.take(k + 1).last() == s@[k as int]);
                lemma_cols_written_append(
                    old(self).model(),
                    x,
                    y,
                    str_cols(s@.take(k as int)),
                    glyph_spec(c as u8),
                );
                assert(str_cols(s@.take(k + 1)) == str_cols(s@.take(k as int)) + glyph_spec(
                    c as u8,
                ));
            }
            k = k + 1;
        }
        proof {
            assert(s@.take(len as int) =~= s@);
        }
    }

    /// Ten to the power `x`, for exponents whose power fits the result.
    fn oled_pow(&self, x: u8) -> (r: u32)
        requires
            x <= 9,
        ensures
            r == pow10(x as int),
            r >= 1,
    {
        let mut res: u32 = 1;
        let mut k: u8 = 0;
        while k < x
            invariant
                k <= x,
                x <= 9,
                res == pow10(k as int),
            decreases x - k,
        {
            proof {
                lemma_pow10_mono(k as int, 8);
                lemma_pow10_mono(0, k as int);
                assert(pow10(8) == 100000000) by {
                    reveal_with_fuel(pow10, 10);
                }
            }
            res = res * 10;
            k = k + 1;
        }
        proof {
            lemma_pow10_pos(x as int);
        }
        res
    }

    /// Renders `n` as a fixed field of exactly `len` decimal digits at
    /// column `x`, top row `y`: most significant digit first, leading
    /// zeroes kept, and only the `len` least significant digits of a
    /// wider number.
    pub fn draw_number(&mut self, x: u8, y: u8, n: u32, len: u8)
        requires
            len <= 10,
            x + 6 * len <= 128,
            row_ok(y),
        ensures
            final(self).model() == cols_written(
                old(self).model(),
                x,
                y,
                str_cols(number_chars(n, len as int)),
            ),
            same_frame(*old(self), *final(self)),
    {
        proof {
            assert(number_chars(n, len as int).take(0) =~= Seq::<char>::empty());
            assert(str_cols(number_chars(n, len as int).take(0)) =~= Seq::<u8>::empty());
        }
        let mut i: u8 = 0;
        while i < len
            invariant
                i <= len,
                len <= 10,
                x + 6 * len <= 128,
                row_ok(y),
                self.model() == cols_written(
                    old(self).model(),
                    x,
                    y,
                    str_cols(number_chars(n, len as int).take(i as int)),
                ),
                same_frame(*old(self), *self),
            decreases len - i,
        {
            let num: u32 = n / self.oled_pow(len - i - 1) % 10;
            let c: char = (num as u8 + 0x30) as char;
            proof {
                lemma_str_cols_len(number_chars(n, len as int).take(i as int));
                assert(c == number_chars(n, len as int)[i as int]);
            }
            self.draw_char(x + i * 6, y, c);
            proof {
                assert(number_chars(n, len as int).take(i + 1).drop_last() =~= number_chars(
                    n,
                    len as int,
                ).take(i as int));
                assert(number_chars(n, len as int).take(i + 1).last() == c);
                lemma_cols_written_append(
                    old(self).model(),
                    x,
                    y,
                    str_cols(number_chars(n, len as int).take(i as int)),
                    glyph_spec(c as u8),
                );
                assert(str_cols(number_chars(n, len as int).take(i + 1)) == str_cols(
                    number_chars(n, len as int).take(i as int),
                ) + glyph_spec(c as u8));
            }
            i = i + 1;
        }
        proof {
            assert(number_chars(n, len as int).take(len as int) =~= number_chars(
                n,
                len as int,
            ));
        }
    }

    /// Blits a packed 1-bit bitmap at column `x`, top row `y`: the data
    /// is row-major 8-pixel vertical strips, `width` column bytes per
    /// strip, and `height` must be a multiple of 8.
    pub fn show_image(&mut self, x: u8, y: u8, width: u8, height: u8, data: &[u8])
        requires
            height as int % 8 == 0,
            x + width <= 128,
            (y as int % 8 == 0) ==> y + height <= 64,
            (y as int % 8 != 0) ==> y + height <= 63,
            data@.len() >= (height as int / 8) * width,
        ensures
            final(self).model() == image_written(
                old(self).model(),
                x,
                y,
                width,
                height as int / 8,
                data@,
            ),
            same_frame(*old(self), *final(self)),
    {
        let h: u8 = height / 8;
        let mut i: u8 = 0;
        while i < h
            invariant
                i <= h,
                h == height as int / 8,
                height as int % 8 == 0,
                x + width <= 128,
                (y as int % 8 == 0) ==> y + height <= 64,
                (y as int % 8 != 0) ==> y + height <= 63,
                data@.len() >= (height as int / 8) * width,
                self.model() == image_written(
                    old(self).model(),
                    x,
                    y,
                    width,
                    i as int,
                    data@,
                ),
                same_frame(*old(self), *self),
            decreases h - i,
        {
            let ghost strip0 = self.model();
            let row: u8 = y + i * 8;
            assert(row_ok(row)) by (nonlinear_arith)
                requires
                    row == y + 8 * i,
                    i < h,
                    h == height as int / 8,
                    height as int % 8 == 0,
                    (y as int % 8 == 0) ==> y + height <= 64,
                    (y as int % 8 != 0) ==> y + height <= 63,
            ;
            let ghost strip_data = data@.subrange(
                width as int * (i as int),
                width as int * (i as int + 1),
            );
            proof {
                assert(strip_data.take(0) =~= Seq::<u8>::empty());
                assert((width as int) * (i as int + 1) <= (height as int / 8) * width)
                    by (nonlinear_arith)
                    requires
                        i < h,
                        h == height as int / 8,
                ;
                assert((width as int) * (i as int + 1) == (width as int) * (i as int)
                    + (width as int)) by (nonlinear_arith);
                assert((width as int) * (i as int) >= 0) by (nonlinear_arith);
                assert(strip_data.len() == width as int);
            }
            let mut j: u8 = 0;
            while j < width
                invariant
                    j <= width,
                    i < h,
                    h == height as int / 8,
                    x + width <= 128,
                    row_ok(row),
                    data@.len() >= (height as int / 8) * width,
                    (width as int) * (i as int + 1) <= (height as int / 8) * width,
                    width as int * (i as int) >= 0,
                    width as int * (i as int + 1) == width as int * (i as int) + width as int,
                    strip_data.len() == width as int,
                    strip_data == data@.subrange(
                        width as int * (i as int),
                        width as int * (i as int + 1),
                    ),
                    self.model() == cols_written(strip0, x, row, strip_data.take(j as int)),
                    same_frame(*old(self), *self),
                decreases width - j,
            {
                proof {
                    assert((i as int) * (width as int) < 65536) by (nonlinear_arith)
                        requires
                            0 <= (i as int) < 256,
                            0 <= (width as int) < 256,
                    ;
                    assert((i as int) * (width as int) == (width as int) * (i as int))
                        by (nonlinear_arith);
                }
                let idx: usize = (i as usize) * (width as usize) + (j as usize);
                assert(idx < data@.len());
                self.draw_pixels(x + j, row, data[idx]);
                proof {
                    assert(strip_data.take(j + 1).drop_last() =~= strip_data.take(j as int));
                    assert(strip_data[j as int] == data@[idx as int]);
                    assert(strip_data.take(j + 1).last() == data@[idx as int]);
                }
                j = j + 1;
            }
            proof {
                assert(strip_data.take(width as int) =~= strip_data);
                assert(self.model() == image_written(
                    old(self).model(),
                    x,
                    y,
                    width,
                    i as int + 1,
                    data@,
                ));
            }
            i = i + 1;
        }
    }

    /// Whether the pixel at logical coordinate (`x`, `y`) — offset by
    /// the origin, like pixel drawing — is lit.
    pub open spec fn pixel_at(self, x: u8, y: u8) -> bool {
        let col = x + self.spec_origin().x;
        let row = y + self.spec_origin().y;
        (self.cell(row / 8, col) >> ((row % 8) as u8)) & 1u8 == 1u8
    }

    /// Reads the pixel at logical coordinate (`x`, `y`) back.
    pub fn read_pixel(&self, x: u8, y: u8) -> (b: bool)
        requires
            self.pixel_ok(x, y),
        ensures
            b == self.pixel_at(x, y),
    {
        let row: u8 = y + self.origin.y;
        let col: u8 = x + self.origin.x;
        ((self.buffer[(row / 8) as usize][col as usize] >> (row % 8)) & 1) == 1
    }

    /// Reads the cell at page `page`, column `col` back.
    pub fn read_cell(&self, page: u8, col: u8) -> (b: u8)
        requires
            page < 8,
            col < 128,
        ensures
            b == self.cell(page as int, col as int),
    {
        self.buffer[page as usize][col as usize]
    }

    /// The dirty-page mask.
    pub fn dirty_mask(&self) -> (m: u8)
        ensures
            m == self.dirty(),
    {
        self.dirty_page
    }

    /// The most recent trace position.
    pub fn current_point(&self) -> (p: Point)
        ensures
            p == self.spec_current_point(),
    {
        self.current_point
    }

    /// The trace position current held before its last update.
    pub fn previous_point(&self) -> (p: Point)
        ensures
            p == self.spec_previous_point(),
    {
        self.previous_point
    }

    /// Moves the trace cursor: previous takes the value current held
    /// immediately before this update.
    pub fn set_current_point(&mut self, p: Point)
        ensures
            final(self).spec_current_point() == p,
            final(self).spec_previous_point() == old(self).spec_current_point(),
            final(self).model() == old(self).model(),
            final(self).spec_origin() == old(self).spec_origin(),
    {
        self.previous_point = self.current_point;
        self.current_point = p;
        proof {
            assert(self.model() =~~= old(self).model());
        }
    }

    /// Builds the command write that points the device at page `page`,
    /// column `x`.
    fn set_cursor(page: u8, x: u8) -> (w: BusWrite)
        ensures
            w.addr == OLED_ADDR,
            w.data@ == cursor_bytes(page, x),
    {
        let mut data: Vec<u8> = Vec::new();
        data.push(0x00);
        data.push(x & 0x0f);
        data.push((x >> 4) & 0x0f);
        data.push(0xb0 | page);
        proof {
            assert(data@ =~= cursor_bytes(page, x));
        }
        BusWrite { addr: OLED_ADDR, data }
    }

    /// Flushes every dirty page: returns, in ascending page order, the
    /// cursor command and the 129-byte data payload for each page whose
    /// dirty bit is set, then clears the whole mask.  The cells are
    /// untouched.
    pub fn render(&mut self) -> (writes: Vec<BusWrite>)
        ensures
            writes_of(writes@) == flush_seq(old(self).model(), 8),
            final(self).model() == (Fb { cells: old(self).model().cells, dirty: 0u8 }),
            same_frame(*old(self), *final(self)),
    {
        let mut writes: Vec<BusWrite> = Vec::new();
        proof {
            assert(writes_of(writes@) =~= flush_seq(old(self).model(), 0));
        }
        let mut page: u8 = 0;
        while page < 8
            invariant
                page <= 8,
                *self == *old(self),
                writes_of(writes@) == flush_seq(old(self).model(), page as int),
            decreases 8 - page,
        {
            if self.dirty_page & (1u8 << page) != 0 {
                assert(page_dirty(old(self).model().dirty, page as int));
                writes.push(Self::set_cursor(page, 0));
                let mut data: Vec<u8> = Vec::new();
                data.push(0x40);
                proof {
                    assert(data@ =~= seq![0x40u8]
                        + old(self).model().cells[page as int].take(0));
                }
                let mut j: u8 = 0;
                while j < 128
                    invariant
                        j <= 128,
                        *self == *old(self),
                        page < 8,
                        data@ == seq![0x40u8] + old(self).model().cells[page as int].take(
                            j as int,
                        ),
                    decreases 128 - j,
                {
                    data.push(self.buffer[page as usize][j as usize]);
                    proof {
                        assert(data@ =~= seq![0x40u8]
                            + old(self).model().cells[page as int].take(j + 1));
                    }
                    j = j + 1;
                }
                proof {
                    assert(old(self).model().cells[page as int].take(128)
                        =~= old(self).model().cells[page as int]);
                }
                writes.push(BusWrite { addr: OLED_ADDR, data });
                proof {
                    assert(writes_of(writes@) =~= flush_seq(
                        old(self).model(),
                        page as int + 1,
                    ));
                }
            } else {
                assert(!page_dirty(old(self).model().dirty, page as int));
            }
            page = page + 1;
        }
        self.dirty_page = 0x00;
        proof {
            assert(self.model() =~~= (Fb {
                cells: old(self).model().cells,
                dirty: 0u8,
            }));
        }
        writes
    }

    /// Sends the device initialization burst, then forces a flush of
    /// the whole screen: every page is marked dirty, rendered, and the
    /// mask ends cleared.
    pub fn init(&mut self) -> (writes: Vec<BusWrite>)
        ensures
            writes_of(writes@) == seq![(OLED_ADDR, init_bytes())] + flush_seq(
                Fb { cells: old(self).model().cells, dirty: 0xffu8 },
                8,
            ),
            final(self).model() == (Fb { cells: old(self).model().cells, dirty: 0u8 }),
            same_frame(*old(self), *final(self)),
    {
        let cmds: [u8; 25] = [
            0xae, 0xd5, 0x80, 0x20, 0x02, 0xa8, 0x3f, 0xda, 0x12, 0xa1, 0xc8, 0x40, 0xd3,
            0x00, 0x81, 0xcf, 0xd9, 0xf1, 0xdb, 0x20, 0x8d, 0x14, 0xa4, 0xa6, 0xaf,
        ];
        proof {
            assert(cmds@ =~= init_bytes());
        }
        let mut data: Vec<u8> = Vec::new();
        let mut i: usize = 0;
        while i < 25
            invariant
                i <= 25,
                data@ == cmds@.take(i as int),
                cmds@ == init_bytes(),
            decreases 25 - i,
        {
            data.push(cmds[i]);
            proof {
                assert(data@ =~= cmds@.take(i + 1));
            }
            i = i + 1;
        }
        proof {
            assert(data@ =~= init_bytes());
        }
        let mut writes: Vec<BusWrite> = Vec::new();
        writes.push(BusWrite { addr: OLED_ADDR, data });
        self.dirty_page = 0xff;
        proof {
            assert(self.model() =~~= (Fb {
                cells: old(self).model().cells,
                dirty: 0xffu8,
            }));
        }
        let mut rest = self.render();
        writes.append(&mut rest);
        proof {
            assert(writes_of(writes@) =~= seq![(OLED_ADDR, init_bytes())] + flush_seq(
                Fb { cells: old(self).model().cells, dirty: 0xffu8 },
                8,
            ));
        }
        writes
    }

    /// Zeroes the whole buffer without marking any page dirty and
    /// without producing a flush.
    pub fn clear_screen(&mut self)
        ensures
            final(self).model() == (Fb {
                cells: Seq::new(8, |p: int| zero_row()),
                dirty: old(self).dirty(),
            }),
            same_frame(*old(self), *final(self)),
    {
        let mut i: usize = 0;
        while i < 8
            invariant
                i <= 8,
                self.dirty() == old(self).dirty(),
                same_frame(*old(self), *self),
                forall|p: int, c: int|
                    0 <= p < i && 0 <= c < 128 ==> self.cell(p, c) == 0u8,
                forall|p: int, c: int|
                    i <= p < 8 && 0 <= c < 128 ==> self.cell(p, c) == old(self).cell(p, c),
            decreases 8 - i,
        {
            let ghost prev = *self;
            self.buffer[i] = [0u8; 128];
            proof {
                assert forall|p: int, c: int|
                    0 <= p < i + 1 && 0 <= c < 128 implies self.cell(p, c) == 0u8 by {
                    if p == i as int {
                        assert(self.cell(p, c) == 0u8);
                    } else {
                        assert(self.cell(p, c) == prev.cell(p, c));
                    }
                }
            }
            i = i + 1;
        }
        proof {
            assert forall|p: int| 0 <= p < 8 implies self.model().cells[p] =~= zero_row() by {
                assert forall|c: int|
                    0 <= c < 128 implies self.model().cells[p][c] == 0u8 by {
                    assert(self.cell(p, c) == 0u8);
                }
            }
            assert(self.model() =~~= (Fb {
                cells: Seq::new(8, |p: int| zero_row()),
                dirty: old(self).dirty(),
            }));
        }
    }

    /// Erases what earlier drawing left behind: zeroes every page whose
    /// dirty bit is set, then flushes exactly those now-blank pages, so
    /// the mask ends at zero.
    pub fn clear_data(&mut self) -> (writes: Vec<BusWrite>)
        ensures
            writes_of(writes@) == flush_seq(
                Fb { cells: cleared_cells(old(self).model()), dirty: old(self).dirty() },
                8,
            ),
            final(self).model() == (Fb {
                cells: cleared_cells(old(self).model()),
                dirty: 0u8,
            }),
            same_frame(*old(self), *final(self)),
    {
        let mut i: usize = 0;
        while i < 8
            invariant
                i <= 8,
                self.dirty() == old(self).dirty(),
                same_frame(*old(self), *self),
                forall|p: int, c: int|
                    0 <= p < i && 0 <= c < 128 && page_dirty(old(self).dirty(), p)
                        ==> self.cell(p, c) == 0u8,
                forall|p: int, c: int|
                    0 <= p < i && 0 <= c < 128 && !page_dirty(old(self).dirty(), p)
                        ==> self.cell(p, c) == old(self).cell(p, c),
                forall|p: int, c: int|
                    i <= p < 8 && 0 <= c < 128 ==> self.cell(p, c) == old(self).cell(p, c),
            decreases 8 - i,
        {
            let ghost prev = *self;
            if self.dirty_page & (1u8 << (i as u8)) != 0 {
                assert(page_dirty(old(self).dirty(), i as int));
                self.buffer[i] = [0u8; 128];
            }
            proof {
                assert forall|p: int, c: int|
                    0 <= p < i + 1 && 0 <= c < 128 && page_dirty(old(self).dirty(), p)
                        implies self.cell(p, c) == 0u8 by {
                    if p == i as int {
                        assert(self.cell(p, c) == 0u8);
                    } else {
                        assert(self.cell(p, c) == prev.cell(p, c));
                    }
                }
                assert forall|p: int, c: int|
                    0 <= p < i + 1 && 0 <= c < 128 && !page_dirty(old(self).dirty(), p)
                        implies self.cell(p, c) == old(self).cell(p, c) by {
                    assert(self.cell(p, c) == prev.cell(p, c));
                }
                assert forall|p: int, c: int|
                    i + 1 <= p < 8 && 0 <= c < 128
                        implies self.cell(p, c) == old(self).cell(p, c) by {
                    assert(self.cell(p, c) == prev.cell(p, c));
                }
            }
            i = i + 1;
        }
        proof {
            assert forall|p: int|
                0 <= p < 8 implies self.model().cells[p] =~= cleared_cells(
                old(self).model(),
            )[p] by {
                assert forall|c: int|
                    0 <= c < 128 implies self.model().cells[p][c] == cleared_cells(
                    old(self).model(),
                )[p][c] by {
                    if page_dirty(old(self).dirty(), p) {
                        assert(self.cell(p, c) == 0u8);
                    } else {
                        assert(self.cell(p, c) == old(self).cell(p, c));
                    }
                }
            }
            assert(self.model().cells =~~= cleared_cells(old(self).model()));
        }
        let writes = self.render();
        writes
    }

}

/// Column writes batch up: writing `a + b` from column `x` is writing
/// `a` there and then `b` from column `x + a.len()`.
proof fn lemma_cols_written_append(fb: Fb, x: u8, y: u8, a: Seq<u8>, b: Seq<u8>)
    requires
        x + a.len() + b.len() <= 128,
    ensures
        cols_written(fb, x, y, a + b) == cols_written(
            cols_written(fb, x, y, a),
            (x + a.len()) as u8,
            y,
            b,
        ),
    decreases b.len(),
{
    if b.len() == 0 {
        assert(a + b =~= a);
    } else {
        lemma_cols_written_append(fb, x, y, a, b.drop_last());
        assert((a + b).drop_last() =~= a + b.drop_last());
        assert((a + b).last() == b.last());
    }
}

/// A string's glyph columns are six per character.
proof fn lemma_str_cols_len(s: Seq<char>)
    ensures
        str_cols(s).len() == 6 * s.len(),
    decreases s.len(),
{
    if s.len() > 0 {
        lemma_str_cols_len(s.drop_last());
    }
}

/// Powers of ten are at least one.
proof fn lemma_pow10_pos(e: int)
    ensures
        pow10(e) >= 1,
    decreases (if e > 0 { e } else { 0 }),
{
    if e > 0 {
        lemma_pow10_pos(e - 1);
    }
}

/// Powers of ten do not decrease with the exponent.
proof fn lemma_pow10_mono(a: int, b: int)
    requires
        a <= b,
    ensures
        pow10(a) <= pow10(b),
    decreases b - a,
{
    if a < b {
        lemma_pow10_mono(a, b - 1);
        lemma_pow10_pos(b - 1);
    }
}

/// Setting a bit makes the bit read back as one.
proof fn lemma_bit_set_reads_one(v: u8, o: u8)
    by (bit_vector)
    requires
        o < 8,
    ensures
        ((v | (1u8 << o)) >> o) & 1u8 == 1u8,
{
}

/// Setting bit `p` of a mask leaves every other bit as it was, and
/// leaves bit `p` set.
proof fn lemma_or_bit(m: u8, p: u8, q: u8)
    by (bit_vector)
    requires
        p < 8,
        q < 8,
    ensures
        (m | (1u8 << p)) & (1u8 << p) != 0,
        p != q ==> ((m | (1u8 << p)) & (1u8 << q) == m & (1u8 << q)),
{
}

/// Setting two bits of a mask sets those and leaves the rest as they
/// were.
proof fn lemma_or_two_bits(m: u8, p: u8, q: u8, r: u8)
    by (bit_vector)
    requires
        p < 8,
        q < 8,
        r < 8,
    ensures
        (m | ((1u8 << p) | (1u8 << q))) & (1u8 << p) != 0,
        (m | ((1u8 << p) | (1u8 << q))) & (1u8 << q) != 0,
        r != p && r != q ==> ((m | ((1u8 << p) | (1u8 << q))) & (1u8 << r) == m & (1u8
            << r)),
{
}

/// OR with an all-zero byte changes nothing.
proof fn lemma_or_zero(v: u8)
    by (bit_vector)
    ensures
        0u8 | v == v,
{
}

/// The two halves of an unaligned split recombine, with the
/// complementary shifts, to the byte that was written.
proof fn lemma_split_recombines(data: u8, off: u8, sh: u8)
    by (bit_vector)
    requires
        0 < off < 8,
        sh == 8 - off,
    ensures
        (((data >> off) << off) | ((data << sh) >> sh)) == data,
{
}

/// Law: within the buffer extents, drawing a pixel makes it read back
/// as lit, sets the dirty bit of exactly the page it falls in, and
/// leaves every other page's dirty bit unchanged.
pub proof fn lemma_draw_pixel_effect(pre: Oscilloscope, post: Oscilloscope, x: u8, y: u8)
    requires
        pre.pixel_ok(x, y),
        post.pixel_drawn(&pre, x, y),
    ensures
        post.pixel_at(x, y),
        page_dirty(post.dirty(), (y + pre.spec_origin().y) as int / 8),
        forall|p: int|
            0 <= p < 8 && p != (y + pre.spec_origin().y) as int / 8 ==> page_dirty(
                post.dirty(),
                p,
            ) == page_dirty(pre.dirty(), p),
        forall|p: int, c: int|
            0 <= p < 8 && 0 <= c < 128 && !(p == (y + pre.spec_origin().y) as int / 8 && c == (
            x + pre.spec_origin().x) as int) ==> post.cell(p, c) == pre.cell(p, c),
{
    let row = (y + pre.spec_origin().y) as int;
    let col = (x + pre.spec_origin().x) as int;
    let page = row / 8;
    let off = (row % 8) as u8;
    pre.lemma_model_shape();
    post.lemma_model_shape();
    lemma_bit_set_reads_one(pre.cell(page, col), off);
    lemma_or_bit(pre.dirty(), page as u8, page as u8);
    assert forall|p: int|
        0 <= p < 8 && p != page implies page_dirty(post.dirty(), p) == page_dirty(
        pre.dirty(),
        p,
    ) by {
        lemma_or_bit(pre.dirty(), page as u8, p as u8);
    }
}

/// Law: a page-aligned column write overwrites exactly one page's cell
/// with the byte — no OR with prior content — marks that page dirty and
/// leaves every other cell and dirty bit unchanged.
pub proof fn lemma_aligned_col_write(fb: Fb, x: u8, y: u8, data: u8)
    requires
        fb_wf(fb),
        x < 128,
        y < 64,
        y as int % 8 == 0,
    ensures
        ({
            let post = col_written(fb, x, y, data);
            let p = y as int / 8;
            &&& post.cells[p][x as int] == data
            &&& forall|q: int, c: int|
                0 <= q < 8 && 0 <= c < 128 && !(q == p && c == x as int)
                    ==> post.cells[q][c] == fb.cells[q][c]
            &&& page_dirty(post.dirty, p)
            &&& forall|q: int|
                0 <= q < 8 && q != p ==> page_dirty(post.dirty, q) == page_dirty(fb.dirty, q)
        }),
{
    let p = y as int / 8;
    lemma_or_bit(fb.dirty, p as u8, p as u8);
    assert forall|q: int|
        0 <= q < 8 && q != p implies page_dirty(col_written(fb, x, y, data).dirty, q)
        == page_dirty(fb.dirty, q) by {
        lemma_or_bit(fb.dirty, p as u8, q as u8);
    }
}

/// Law: an unaligned column write splits the byte across exactly the
/// two adjacent pages it spans — the high part OR-ed into the lower
/// page, the low part into the next — marks exactly those two pages
/// dirty, and the two stored parts recombine, with the complementary
/// shifts, to the byte that was written.
pub proof fn lemma_unaligned_col_write(fb: Fb, x: u8, y: u8, data: u8)
    requires
        fb_wf(fb),
        x < 128,
        row_ok(y),
        y as int % 8 != 0,
        fb.cells[y as int / 8][x as int] == 0,
        fb.cells[y as int / 8 + 1][x as int] == 0,
    ensures
        ({
            let post = col_written(fb, x, y, data);
            let p = y as int / 8;
            let off = (y as int % 8) as u8;
            let sh = (8 - off as int) as u8;
            &&& post.cells[p][x as int] == data >> off
            &&& post.cells[p + 1][x as int] == data << sh
            &&& ((post.cells[p][x as int] << off) | (post.cells[p + 1][x as int] >> sh))
                == data
            &&& forall|q: int, c: int|
                0 <= q < 8 && 0 <= c < 128 && !((q == p || q == p + 1) && c == x as int)
                    ==> post.cells[q][c] == fb.cells[q][c]
            &&& page_dirty(post.dirty, p)
            &&& page_dirty(post.dirty, p + 1)
            &&& forall|q: int|
                0 <= q < 8 && q != p && q != p + 1 ==> page_dirty(post.dirty, q)
                    == page_dirty(fb.dirty, q)
        }),
{
    let p = y as int / 8;
    let off = (y as int % 8) as u8;
    let sh = (8 - off as int) as u8;
    lemma_or_zero(data >> off);
    lemma_or_zero(data << sh);
    lemma_split_recombines(data, off, sh);
    lemma_or_two_bits(fb.dirty, p as u8, (p + 1) as u8, p as u8);
    assert forall|q: int|
        0 <= q < 8 && q != p && q != p + 1 implies page_dirty(
        col_written(fb, x, y, data).dirty,
        q,
    ) == page_dirty(fb.dirty, q) by {
        lemma_or_two_bits(fb.dirty, p as u8, (p + 1) as u8, q as u8);
    }
}

/// Distinct pages have distinct page-select bytes.
proof fn lemma_page_select_injective(p: u8, q: u8)
    by (bit_vector)
    requires
        p < 8,
        q < 8,
        p != q,
    ensures
        0xb0u8 | p != 0xb0u8 | q,
{
}

/// Every write of a dirty page below `a` is one of a dirty page below
/// `b` too, for `a` at or below `b`.
proof fn lemma_entry_for_widen(fb: Fb, a: int, b: int, e: (u8, Seq<u8>))
    requires
        a <= b,
        flush_entry_for(fb, a, e),
    ensures
        flush_entry_for(fb, b, e),
{
    let p = choose|p: int|
        0 <= p < a && page_dirty(fb.dirty, p) && (e == cursor_entry(p) || e == payload_entry(
            fb,
            p,
        ));
    assert(0 <= p < b && page_dirty(fb.dirty, p) && (e == cursor_entry(p) || e
        == payload_entry(fb, p)));
}

/// The flush transcript is two writes per dirty page, each of them the
/// cursor command or the data write of a dirty page, and it carries
/// both writes of every dirty page.
#[verifier::rlimit(30)]
proof fn lemma_flush_entries(fb: Fb, upto: int)
    requires
        fb_wf(fb),
        0 <= upto <= 8,
    ensures
        flush_seq(fb, upto).len() == 2 * dirty_count(fb.dirty, upto),
        forall|i: int|
            0 <= i < flush_seq(fb, upto).len() ==> flush_entry_for(
                fb,
                upto,
                #[trigger] flush_seq(fb, upto)[i],
            ),
        forall|p: int|
            0 <= p < upto && page_dirty(fb.dirty, p) ==> flush_seq(fb, upto).contains(
                #[trigger] cursor_entry(p),
            ) && flush_seq(fb, upto).contains(payload_entry(fb, p)),
    decreases upto,
{
    if upto > 0 {
        lemma_flush_entries(fb, upto - 1);
        let prev = flush_seq(fb, upto - 1);
        let cur = flush_seq(fb, upto);
        let top = upto - 1;
        assert forall|i: int| 0 <= i < cur.len() implies flush_entry_for(
            fb,
            upto,
            #[trigger] cur[i],
        ) by {
            if i < prev.len() {
                assert(cur[i] == prev[i]);
                lemma_entry_for_widen(fb, top, upto, prev[i]);
            } else {
                assert(page_dirty(fb.dirty, top));
                assert(cur[i] == cursor_entry(top) || cur[i] == payload_entry(fb, top));
            }
        }
        assert forall|p: int| 0 <= p < upto && page_dirty(fb.dirty, p) implies cur.contains(
            #[trigger] cursor_entry(p),
        ) && cur.contains(payload_entry(fb, p)) by {
            if p < top {
                let i = choose|i: int| 0 <= i < prev.len() && prev[i] == cursor_entry(p);
                assert(cur[i] == cursor_entry(p));
                let j = choose|j: int| 0 <= j < prev.len() && prev[j] == payload_entry(fb, p);
                assert(cur[j] == payload_entry(fb, p));
            } else {
                assert(cur[prev.len() as int] == cursor_entry(top));
                assert(cur[prev.len() as int + 1] == payload_entry(fb, top));
            }
        }
    }
}

/// Another page's writes are not this page's cursor command: the
/// page-select byte differs, and a data write is longer than a command.
proof fn lemma_cursor_entry_only(fb: Fb, p: int, q: int)
    requires
        fb_wf(fb),
        0 <= p < 8,
        0 <= q < 8,
    ensures
        p != q ==> cursor_entry(p) != cursor_entry(q),
        cursor_entry(p) != payload_entry(fb, q),
{
    if p != q {
        lemma_page_select_injective(p as u8, q as u8);
        assert(cursor_bytes(p as u8, 0u8)[3] != cursor_bytes(q as u8, 0u8)[3]);
    }
    assert(cursor_bytes(p as u8, 0u8).len() == 4);
    assert(payload_entry(fb, q).1.len() == 129);
}

/// Law: the flush transcript carries exactly the dirty pages.  Every
/// write goes to the device address; a page's cursor command appears
/// exactly when its dirty bit is set; each dirty page's 129-byte data
/// write (the data-mode prefix and its 128 cells) appears; and the
/// transcript is two writes per dirty page.
#[verifier::rlimit(30)]
pub proof fn lemma_flush_exact(fb: Fb, upto: int)
    requires
        fb_wf(fb),
        0 <= upto <= 8,
    ensures
        flush_seq(fb, upto).len() == 2 * dirty_count(fb.dirty, upto),
        forall|i: int|
            0 <= i < flush_seq(fb, upto).len() ==> (#[trigger] flush_seq(fb, upto)[i]).0
                == OLED_ADDR,
        forall|p: int|
            0 <= p < upto ==> (page_dirty(fb.dirty, p) <==> flush_seq(fb, upto).contains(
                #[trigger] cursor_entry(p),
            )),
        forall|p: int|
            0 <= p < upto && page_dirty(fb.dirty, p) ==> flush_seq(fb, upto).contains(
                #[trigger] payload_entry(fb, p),
            ) && payload_entry(fb, p).1.len() == 129,
{
    lemma_flush_entries(fb, upto);
    let cur = flush_seq(fb, upto);
    assert forall|i: int| 0 <= i < cur.len() implies (#[trigger] cur[i]).0 == OLED_ADDR by {
        let q = choose|q: int|
            0 <= q < upto && page_dirty(fb.dirty, q) && (cur[i] == cursor_entry(q) || cur[i]
                == payload_entry(fb, q));
    }
    assert forall|p: int|
        0 <= p < upto && cur.contains(#[trigger] cursor_entry(p)) implies page_dirty(
        fb.dirty,
        p,
    ) by {
        if !page_dirty(fb.dirty, p) {
            let i = choose|i: int| 0 <= i < cur.len() && cur[i] == cursor_entry(p);
            let q = choose|q: int|
                0 <= q < upto && page_dirty(fb.dirty, q) && (cur[i] == cursor_entry(q) || cur[i]
                    == payload_entry(fb, q));
            lemma_cursor_entry_only(fb, p, q);
        }
    }
    assert forall|p: int| 0 <= p < upto && page_dirty(fb.dirty, p) implies cur.contains(
        #[trigger] payload_entry(fb, p),
    ) && payload_entry(fb, p).1.len() == 129 by {
        assert(cur.contains(cursor_entry(p)) && cur.contains(payload_entry(fb, p)));
        assert(payload_entry(fb, p).1.len() == 1 + fb.cells[p].len());
    }
}

/// Bitwise OR folds up the same way whichever side groups first.
proof fn lemma_or_assoc(d: u8, a: u8, b: u8)
    by (bit_vector)
    ensures
        (d | a) | b == d | (a | b),
{
}

/// The origin and the cursor points are untouched.
pub open spec fn same_frame(pre: Oscilloscope, post: Oscilloscope) -> bool {
    &&& post.spec_origin() == pre.spec_origin()
    &&& post.spec_current_point() == pre.spec_current_point()
    &&& post.spec_previous_point() == pre.spec_previous_point()
}

impl Draw for Oscilloscope {
    open spec fn pixel_ok(&self, x: u8, y: u8) -> bool {
        &&& x + self.spec_origin().x < 128
        &&& y + self.spec_origin().y < 64
    }

    open spec fn pixel_drawn(&self, pre: &Self, x: u8, y: u8) -> bool {
        &&& self.model() == pixel_written(
            pre.model(),
            x + pre.spec_origin().x,
            y + pre.spec_origin().y,
        )
        &&& same_frame(*pre, *self)
    }

    fn draw_pixel(&mut self, x: u8, y: u8) {
        let row: u8 = y + self.origin.y;
        let offset: u8 = row % 8;
        let page: u8 = row / 8;
        let col: u8 = x + self.origin.x;
        let cur: u8 = self.buffer[page as usize][col as usize];
        self.buffer[page as usize][col as usize] = cur | (1u8 << offset);
        self.dirty_page = self.dirty_page | (1u8 << page);
        proof {
            assert(self.model() =~~= pixel_written(
                old(self).model(),
                col as int,
                row as int,
            ));
        }
    }
}

} // verus!
