//! Drawing on the pixel plane: single pixels, glyphs, the test pattern, and
//! the move of the whole plane that scrolls the console.

use vstd::prelude::*;
use crate::framebuffer::{FrameBuffer24, Pixel24};
use crate::screen::{glyph_ink, pattern_pixel, Ink, Screen};

verus! {

impl FrameBuffer24 {
    /// Everything but the plane and the cursor is as in `other`: geometry,
    /// font and stage, and the bytes of the memory behind the last pixel.
    pub open spec fn same_frame(&self, other: &FrameBuffer24) -> bool {
        &&& self.width == other.width
        &&& self.height == other.height
        &&& self.bpp == other.bpp
        &&& self.pitch == other.pitch
        &&& self.addr == other.addr
        &&& self.size == other.size
        &&& self.chars_width == other.chars_width
        &&& self.chars_height == other.chars_height
        &&& self.font == other.font
        &&& self.stage == other.stage
        &&& self.buf@.len() == other.buf@.len()
        &&& forall|i: int|
            3 * self.pixel_count() <= i < self.buf@.len() ==> self.buf@[i] == other.buf@[i]
    }

    /// Byte offset of the pixel `(x, y)` of the plane in the memory.
    fn offset(&self, x: u32, y: u32) -> (off: u64)
        requires
            self.pitch == 3 * self.width,
            x < self.width,
            y < self.height,
        ensures
            off == y * self.pitch + x * 3,
            off + 3 <= u64::MAX,
    {
        let row: u64 = y as u64;
        let pitch: u64 = self.pitch as u64;
        assert(row * pitch + x * 3 + 3 <= 0xFFFF_FFFE_0000_0001) by (nonlinear_arith)
            requires
                0 <= row < self.height <= 0xFFFF_FFFF,
                0 <= x < self.width,
                pitch == 3 * self.width,
                pitch <= 0xFFFF_FFFF,
        ;
        assert(0 <= row * pitch) by (nonlinear_arith)
            requires
                0 <= row,
                0 <= pitch,
        ;
        row * pitch + x as u64 * 3
    }

    /// Writes `p` at `(x, y)`. A write outside the plane, or to a place for
    /// which the memory has no room, is dropped.
    pub fn putpixel(&mut self, x: u32, y: u32, p: &Pixel24)
        requires
            old(self).ready(),
        ensures
            final(self)@ == old(self)@.put_pixel(x as int, y as int, *p),
            final(self).same_frame(old(self)),
            final(self).ready(),
    {
        if x >= self.width || y >= self.height {
            return ;
        }
        let off: u64 = self.offset(x, y);
        proof {
            self.lemma_offset(x as int, y as int);
        }
        if off + 3 > self.buf.len() as u64 {
            return ;
        }
        let i: usize = off as usize;
        self.buf[i] = p.r;
        self.buf[i + 1] = p.g;
        self.buf[i + 2] = p.b;
        assert(self@.pixels =~= old(self)@.pixels.update(y * self.width + x, *p));
    }

    /// The pixel at `(x, y)`, or `None` where a write to `(x, y)` would be
    /// dropped.
    pub fn pixel(&self, x: u32, y: u32) -> (p: Option<Pixel24>)
        requires
            self.ready(),
        ensures
            p == if self@.visible(x as int, y as int) {
                Some(self@.at(x as int, y as int))
            } else {
                None
            },
    {
        if x >= self.width || y >= self.height {
            return None;
        }
        let off: u64 = self.offset(x, y);
        proof {
            self.lemma_offset(x as int, y as int);
        }
        if off + 3 > self.buf.len() as u64 {
            return None;
        }
        let i: usize = off as usize;
        Some(Pixel24 { r: self.buf[i], g: self.buf[i + 1], b: self.buf[i + 2] })
    }

    /// Draws the glyph of `ch` with its upper left corner at `(posx, posy)`:
    /// `col` where the glyph is set, black where it is clear. A character
    /// from 0x80 on has no glyph and draws nothing.
    pub fn putchar(&mut self, ch: char, posx: u32, posy: u32, col: &Pixel24)
        requires
            old(self).ready(),
        ensures
            final(self)@ == old(self)@.draw_glyph(
                old(self).font.rows@,
                ch as u32 as int,
                posx as int,
                posy as int,
                *col,
            ),
            final(self).same_frame(old(self)),
            final(self).ready(),
    {
        if ch as u32 >= 0x80 {
            return ;
        }
        let code: u8 = ch as u32 as u8;
        let black: Pixel24 = Pixel24::black();
        let ghost ink: Ink = glyph_ink(self.font.rows@, code as int, *col);
        let ghost start: Screen = self@;
        proof {
            start.lemma_paint_start(posx as int, posy as int, ink);
        }
        let mut y: u8 = 0;
        while y < 8
            invariant
                y <= 8,
                code < 0x80,
                black == Pixel24::spec_black(),
                start.wf(),
                self.ready(),
                self.same_frame(old(self)),
                ink == glyph_ink(self.font.rows@, code as int, *col),
                self@ == start.paint_part(posx as int, posy as int, ink, y as int, 0),
            decreases 8 - y,
        {
            let mut x: u8 = 0;
            while x < 8
                invariant
                    x <= 8,
                    y < 8,
                    code < 0x80,
                    black == Pixel24::spec_black(),
                    start.wf(),
                    self.ready(),
                    self.same_frame(old(self)),
                    ink == glyph_ink(self.font.rows@, code as int, *col),
                    self@ == start.paint_part(posx as int, posy as int, ink, y as int, x as int),
                decreases 8 - x,
            {
                let lit: bool = self.font.lit(code, x, y);
                let px: u64 = posx as u64 + x as u64;
                let py: u64 = posy as u64 + y as u64;
                proof {
                    start.lemma_paint_step(posx as int, posy as int, ink, y as int, x as int);
                }
                if px <= u32::MAX as u64 && py <= u32::MAX as u64 {
                    if lit {
                        self.putpixel(px as u32, py as u32, col);
                    } else {
                        self.putpixel(px as u32, py as u32, &black);
                    }
                }
                x += 1;
            }
            proof {
                start.lemma_paint_row(posx as int, posy as int, ink, y as int);
            }
            y += 1;
        }
        proof {
            start.lemma_paint_end(posx as int, posy as int, ink);
        }
    }

    /// Fills the plane with a test pattern that changes from pixel to pixel.
    pub fn draw_test_pattern(&mut self)
        requires
            old(self).ready(),
        ensures
            final(self)@ == old(self)@.pattern(),
            final(self).same_frame(old(self)),
            final(self).ready(),
    {
        let ghost start: Screen = self@;
        proof {
            start.lemma_pattern_ends();
            assert(0 * self.width == 0) by (nonlinear_arith);
        }
        let mut y: u32 = 0;
        while y < self.height
            invariant
                y <= self.height,
                start.wf(),
                start.width == self.width,
                start.height == self.height,
                self.ready(),
                self.same_frame(old(self)),
                self@ == start.pattern_part(y * self.width),
            decreases self.height - y,
        {
            let mut x: u32 = 0;
            while x < self.width
                invariant
                    y < self.height,
                    x <= self.width,
                    start.wf(),
                    start.width == self.width,
                    start.height == self.height,
                    self.ready(),
                    self.same_frame(old(self)),
                    self@ == start.pattern_part(y * self.width + x),
                decreases self.width - x,
            {
                let xb: u32 = x % 256;
                let yb: u32 = y % 256;
                assert(xb * yb <= 255 * 255) by (nonlinear_arith)
                    requires
                        0 <= xb <= 255,
                        0 <= yb <= 255,
                ;
                let p: Pixel24 = Pixel24 {
                    r: ((xb + yb) % 256) as u8,
                    g: ((xb + 256 - yb) % 256) as u8,
                    b: ((xb * yb) % 256) as u8,
                };
                proof {
                    start.lemma_pattern_step(x as int, y as int);
                }
                self.putpixel(x, y, &p);
                x += 1;
            }
            proof {
                assert(y * self.width + self.width == (y + 1) * self.width) by (nonlinear_arith);
            }
            y += 1;
        }
    }

    /// Moves the plane up by `pixels` rows and blackens the rows that this
    /// vacates at the bottom. Rows are copied from the top down, so that
    /// every row is read before it is overwritten.
    pub fn scroll_y(&mut self, pixels: u32)
        requires
            old(self).ready(),
        ensures
            final(self)@ == old(self)@.scroll(pixels as int),
            final(self).same_frame(old(self)),
            final(self).ready(),
    {
        let black: Pixel24 = Pixel24::black();
        let ghost start: Screen = self@;
        proof {
            start.lemma_shift_start(pixels as int);
            assert((pixels - pixels) * self.width == 0) by (nonlinear_arith);
        }
        let mut y: u32 = pixels;
        while y < self.height
            invariant
                pixels <= y,
                pixels <= self.height ==> y <= self.height,
                pixels >= self.height ==> y == pixels,
                start.wf(),
                start.width == self.width,
                start.height == self.height,
                self.ready(),
                self.same_frame(old(self)),
                self@ == start.shift_part(pixels as int, (y - pixels) * self.width),
            decreases self.height - y,
        {
            let mut x: u32 = 0;
            while x < self.width
                invariant
                    pixels <= y < self.height,
                    x <= self.width,
                    start.wf(),
                    start.width == self.width,
                    start.height == self.height,
                    self.ready(),
                    self.same_frame(old(self)),
                    self@ == start.shift_part(pixels as int, (y - pixels) * self.width + x),
                decreases self.width - x,
            {
                proof {
                    start.lemma_shift_step(pixels as int, x as int, y as int);
                }
                match self.pixel(x, y) {
                    Some(p) => {
                        self.putpixel(x, y - pixels, &p);
                    },
                    None => {},
                }
                x += 1;
            }
            proof {
                start.lemma_shift_row(pixels as int, y as int);
            }
            y += 1;
        }
        let first: u32 = if pixels >= self.height {
            0
        } else {
            self.height - pixels
        };
        proof {
            start.lemma_fill_start(pixels as int);
            assert(0 * self.width == 0) by (nonlinear_arith);
            assert(y == pixels ==> (y - pixels) * self.width == 0) by (nonlinear_arith);
        }
        let mut y: u32 = first;
        while y < self.height
            invariant
                first <= y <= self.height,
                self.height - pixels <= first,
                black == Pixel24::spec_black(),
                start.wf(),
                start.width == self.width,
                start.height == self.height,
                self.ready(),
                self.same_frame(old(self)),
                self@ == start.fill_part(pixels as int, y * self.width),
            decreases self.height - y,
        {
            let mut x: u32 = 0;
            while x < self.width
                invariant
                    first <= y < self.height,
                    self.height - pixels <= first,
                    x <= self.width,
                    black == Pixel24::spec_black(),
                    start.wf(),
                    start.width == self.width,
                    start.height == self.height,
                    self.ready(),
                    self.same_frame(old(self)),
                    self@ == start.fill_part(pixels as int, y * self.width + x),
                decreases self.width - x,
            {
                proof {
                    start.lemma_fill_step(pixels as int, x as int, y as int);
                }
                self.putpixel(x, y, &black);
                x += 1;
            }
            proof {
                assert(y * self.width + self.width == (y + 1) * self.width) by (nonlinear_arith);
            }
            y += 1;
        }
        proof {
            start.lemma_fill_end(pixels as int);
        }
    }

    /// The memory has room for every pixel of the plane.
    pub open spec fn covers_plane(&self) -> bool {
        self.size >= self.pitch * self.height
    }

    /// Whether the memory has room for every pixel of the plane.
    pub fn is_covered(&self) -> (ok: bool)
        ensures
            ok == self.covers_plane(),
    {
        let pitch: u64 = self.pitch as u64;
        let height: u64 = self.height as u64;
        assert(pitch * height <= 0xFFFF_FFFE_0000_0001) by (nonlinear_arith)
            requires
                0 <= pitch <= 0xFFFF_FFFF,
                0 <= height <= 0xFFFF_FFFF,
        ;
        self.size as u64 >= pitch * height
    }

    /// The view of a handle that is ready is a valid screen, with the cursor
    /// in the grid exactly when the cursor of the handle is. Where the
    /// memory covers the plane, every pixel of the plane is visible.
    pub proof fn lemma_view(&self)
        requires
            self.ready(),
        ensures
            self@.wf(),
            self@.cursor_ok() <==> self.cursor_ok(),
            self.covers_plane() ==> self@.pixels.len() == self.width * self.height,
            self.covers_plane() ==> forall|x: int, y: int|
                0 <= x < self.width && 0 <= y < self.height ==> #[trigger] self@.visible(x, y),
    {
        let w = self.width as int;
        let h = self.height as int;
        assert((3 * w) * h == 3 * (w * h)) by (nonlinear_arith);
        if self.covers_plane() {
            assert forall|x: int, y: int| 0 <= x < w && 0 <= y < h implies #[trigger] self@.visible(
                x,
                y,
            ) by {
                self.lemma_offset(x, y);
            }
        }
    }

    /// The byte offset of a pixel on the plane is three times its place, and
    /// the pixel is visible exactly when its three bytes lie in the memory.
    pub proof fn lemma_offset(&self, x: int, y: int)
        requires
            self.ready(),
            0 <= x < self.width,
            0 <= y < self.height,
        ensures
            y * self.pitch + x * 3 == 3 * (y * self.width + x),
            0 <= y * self.width + x < self.width * self.height,
            self@.visible(x, y) <==> y * self.pitch + x * 3 + 3 <= self.buf@.len(),
    {
        let w = self.width as int;
        let h = self.height as int;
        assert(y * (3 * w) == 3 * (y * w)) by (nonlinear_arith);
        assert(y * w + x < w * h && 0 <= y * w) by (nonlinear_arith)
            requires
                0 <= x < w,
                0 <= y < h,
        ;
    }
}

} // verus!
