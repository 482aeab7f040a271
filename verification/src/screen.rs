//! The mathematical model of the pixel plane and of the text cursor on it.
//!
//! A `Screen` holds the pixels that have a place in the pixel memory, row by
//! row, and the cell of the cursor. Every operation of the framebuffer is
//! stated as a function from one `Screen` to the next.

use vstd::prelude::*;
use crate::font::glyph_bit;
use crate::framebuffer::Pixel24;

verus! {

/// Width and height of a character cell in pixels.
pub const CHAR_WIDTH: u32 = 8;

pub const CHAR_HEIGHT: u32 = 8;

/// The plane and the cursor as values.
pub struct Screen {
    /// Pixels in a row.
    pub width: int,
    /// Rows of the plane.
    pub height: int,
    /// The pixels that the memory has room for: pixel `(x, y)` stands at
    /// `y * width + x`.
    pub pixels: Seq<Pixel24>,
    /// Cell of the cursor.
    pub x: int,
    pub y: int,
}

impl Screen {
    /// Cells in a row of text.
    pub open spec fn chars_width(self) -> int {
        self.width / 8
    }

    /// Rows of text.
    pub open spec fn chars_height(self) -> int {
        self.height / 8
    }

    /// Whether `(x, y)` lies on the plane and has a place in the memory.
    pub open spec fn visible(self, x: int, y: int) -> bool {
        0 <= x < self.width && 0 <= y < self.height && y * self.width + x < self.pixels.len()
    }

    /// The pixel at `(x, y)`.
    pub open spec fn at(self, x: int, y: int) -> Pixel24 {
        self.pixels[y * self.width + x]
    }

    /// Column of the pixel that stands at `k`.
    pub open spec fn col_of(self, k: int) -> int {
        k % self.width
    }

    /// Row of the pixel that stands at `k`.
    pub open spec fn row_of(self, k: int) -> int {
        k / self.width
    }

    /// Whether the pixel at `k` lies in the 8 by 8 cell whose upper left
    /// corner is `(ox, oy)`.
    pub open spec fn in_cell(self, k: int, ox: int, oy: int) -> bool {
        ox <= self.col_of(k) < ox + 8 && oy <= self.row_of(k) < oy + 8
    }

    /// The screen with a new plane.
    pub open spec fn with_pixels(self, pixels: Seq<Pixel24>) -> Screen {
        Screen { pixels, ..self }
    }

    /// The screen with the cursor at `(x, y)`.
    pub open spec fn with_cursor(self, x: int, y: int) -> Screen {
        Screen { x, y, ..self }
    }

    /// The plane has a width and a height, and holds no more pixels than
    /// they span.
    pub open spec fn wf(self) -> bool {
        0 <= self.width && 0 <= self.height && self.pixels.len() <= self.width * self.height
    }

    /// The screen after `p` was written at `(x, y)`: a write to a place that
    /// is not visible is dropped.
    pub open spec fn put_pixel(self, x: int, y: int, p: Pixel24) -> Screen {
        if self.visible(x, y) {
            self.with_pixels(self.pixels.update(y * self.width + x, p))
        } else {
            self
        }
    }
}

/// The colour of each pixel of a cell, by its column and row in the cell.
pub type Ink = spec_fn(int, int) -> Pixel24;

/// The ink of the glyph of `ch`: `col` where the glyph is set, black where it
/// is clear.
pub open spec fn glyph_ink(font: Seq<u8>, ch: int, col: Pixel24) -> Ink {
    |dx: int, dy: int|
        if glyph_bit(font, ch, dx, dy) {
            col
        } else {
            Pixel24::spec_black()
        }
}

/// The ink of a solid block.
pub open spec fn solid_ink(col: Pixel24) -> Ink {
    |dx: int, dy: int| col
}

impl Screen {
    /// The screen after the cell at `(ox, oy)` was painted with `ink`. Every
    /// visible pixel of the cell is overwritten; nothing else changes.
    pub open spec fn paint_cell(self, ox: int, oy: int, ink: Ink) -> Screen {
        self.with_pixels(
            Seq::new(
                self.pixels.len(),
                |k: int|
                    if self.in_cell(k, ox, oy) {
                        ink(self.col_of(k) - ox, self.row_of(k) - oy)
                    } else {
                        self.pixels[k]
                    },
            ),
        )
    }

    /// The screen while a cell is being painted row by row: the rows above
    /// `dy` are done, and so are the first `dx` pixels of row `dy`.
    pub open spec fn paint_part(self, ox: int, oy: int, ink: Ink, dy: int, dx: int) -> Screen {
        self.with_pixels(
            Seq::new(
                self.pixels.len(),
                |k: int|
                    if self.in_cell(k, ox, oy) && (self.row_of(k) - oy < dy || (self.row_of(k)
                        - oy == dy && self.col_of(k) - ox < dx)) {
                        ink(self.col_of(k) - ox, self.row_of(k) - oy)
                    } else {
                        self.pixels[k]
                    },
            ),
        )
    }

    /// The screen after the glyph of `ch` was drawn with its upper left
    /// corner at `(ox, oy)`. The draw is opaque: `col` where the glyph is
    /// set, black where it is clear. A character that has no glyph draws
    /// nothing.
    pub open spec fn draw_glyph(self, font: Seq<u8>, ch: int, ox: int, oy: int, col: Pixel24)
        -> Screen {
        if 0 <= ch < 0x80 {
            self.paint_cell(ox, oy, glyph_ink(font, ch, col))
        } else {
            self
        }
    }

    /// The screen after the cell at `(ox, oy)` was filled with `col`.
    pub open spec fn fill_cell(self, ox: int, oy: int, col: Pixel24) -> Screen {
        self.paint_cell(ox, oy, solid_ink(col))
    }

    /// A painted cell, pixel by pixel: a visible pixel of the cell has the
    /// colour that the ink gives it, and every other visible pixel is as it
    /// was.
    pub proof fn lemma_painted(self, ox: int, oy: int, ink: Ink)
        requires
            self.wf(),
        ensures
            self.paint_cell(ox, oy, ink).pixels.len() == self.pixels.len(),
            forall|x: int, y: int|
                self.visible(x, y) && ox <= x < ox + 8 && oy <= y < oy + 8
                    ==> #[trigger] self.paint_cell(ox, oy, ink).at(x, y) == ink(x - ox, y - oy),
            forall|x: int, y: int|
                self.visible(x, y) && !(ox <= x < ox + 8 && oy <= y < oy + 8)
                    ==> #[trigger] self.paint_cell(ox, oy, ink).at(x, y) == self.at(x, y),
    {
        let painted = self.paint_cell(ox, oy, ink);
        assert forall|x: int, y: int| self.visible(x, y) implies (if ox <= x < ox + 8 && oy <= y
            < oy + 8 {
            #[trigger] painted.at(x, y) == ink(x - ox, y - oy)
        } else {
            painted.at(x, y) == self.at(x, y)
        }) by {
            lemma_place(self.width, x, y, y * self.width + x);
        }
    }

    /// Every place of a valid plane has a column and a row on the plane.
    pub proof fn lemma_coords(self, k: int)
        requires
            self.wf(),
            0 <= k < self.pixels.len(),
        ensures
            0 <= self.col_of(k) < self.width,
            0 <= self.row_of(k) < self.height,
            k == self.row_of(k) * self.width + self.col_of(k),
    {
        let w = self.width;
        let h = self.height;
        assert(w > 0) by (nonlinear_arith)
            requires
                0 <= w,
                0 <= h,
                0 < w * h,
        ;
        vstd::arithmetic::div_mod::lemma_fundamental_div_mod(k, w);
        vstd::arithmetic::div_mod::lemma_mod_bound(k, w);
        vstd::arithmetic::div_mod::lemma_div_pos_is_pos(k, w);
        assert(k / w < h) by (nonlinear_arith)
            requires
                k == w * (k / w) + k % w,
                0 <= k % w,
                k < w * h,
                w > 0,
        ;
        assert(w * (k / w) == (k / w) * w) by (nonlinear_arith);
    }

    /// Painting starts from the screen as it is.
    pub proof fn lemma_paint_start(self, ox: int, oy: int, ink: Ink)
        ensures
            self.paint_part(ox, oy, ink, 0, 0) == self,
    {
        assert(self.paint_part(ox, oy, ink, 0, 0).pixels =~= self.pixels);
    }

    /// One more pixel of the row: writing the ink of `(dx, dy)` at its place
    /// carries the painting one pixel on.
    pub proof fn lemma_paint_step(self, ox: int, oy: int, ink: Ink, dy: int, dx: int)
        requires
            self.wf(),
            0 <= dx < 8,
            0 <= dy < 8,
        ensures
            self.paint_part(ox, oy, ink, dy, dx).put_pixel(ox + dx, oy + dy, ink(dx, dy))
                == self.paint_part(ox, oy, ink, dy, dx + 1),
    {
        let cur = self.paint_part(ox, oy, ink, dy, dx);
        let next = self.paint_part(ox, oy, ink, dy, dx + 1);
        let x = ox + dx;
        let y = oy + dy;
        let after = cur.put_pixel(x, y, ink(dx, dy));
        assert forall|k: int| 0 <= k < self.pixels.len() implies after.pixels[k]
            == next.pixels[k] by {
            self.lemma_coords(k);
            if 0 <= x < self.width {
                lemma_place(self.width, x, y, k);
            }
        }
        assert(after.pixels =~= next.pixels);
    }

    /// A row that is done is the start of the next row.
    pub proof fn lemma_paint_row(self, ox: int, oy: int, ink: Ink, dy: int)
        ensures
            self.paint_part(ox, oy, ink, dy, 8) == self.paint_part(ox, oy, ink, dy + 1, 0),
    {
        assert(self.paint_part(ox, oy, ink, dy, 8).pixels =~= self.paint_part(
            ox,
            oy,
            ink,
            dy + 1,
            0,
        ).pixels);
    }

    /// Eight rows that are done are the painted cell.
    pub proof fn lemma_paint_end(self, ox: int, oy: int, ink: Ink)
        ensures
            self.paint_part(ox, oy, ink, 8, 0) == self.paint_cell(ox, oy, ink),
    {
        assert(self.paint_part(ox, oy, ink, 8, 0).pixels =~= self.paint_cell(ox, oy, ink).pixels);
    }
}

impl Screen {
    /// The screen after the plane was moved up by `rows` rows. A pixel takes
    /// the colour of the pixel `rows` rows below it; where that pixel has no
    /// place in the memory, it keeps its own. The rows that have no row
    /// `rows` below them turn black.
    pub open spec fn scroll(self, rows: int) -> Screen {
        self.with_pixels(
            Seq::new(
                self.pixels.len(),
                |k: int|
                    if k + rows * self.width < self.width * self.height {
                        if k + rows * self.width < self.pixels.len() {
                            self.pixels[k + rows * self.width]
                        } else {
                            self.pixels[k]
                        }
                    } else {
                        Pixel24::spec_black()
                    },
            ),
        )
    }

    /// The screen while the plane is being moved up: the first `done` places
    /// have taken their new colour.
    pub open spec fn shift_part(self, rows: int, done: int) -> Screen {
        self.with_pixels(
            Seq::new(
                self.pixels.len(),
                |k: int|
                    if k < done && k + rows * self.width < self.pixels.len() {
                        self.pixels[k + rows * self.width]
                    } else {
                        self.pixels[k]
                    },
            ),
        )
    }

    /// The screen while the vacated rows are being blackened: the plane is
    /// moved up, and the vacated places before `done` are black.
    pub open spec fn fill_part(self, rows: int, done: int) -> Screen {
        self.with_pixels(
            Seq::new(
                self.pixels.len(),
                |k: int|
                    if k + rows * self.width < self.width * self.height {
                        if k + rows * self.width < self.pixels.len() {
                            self.pixels[k + rows * self.width]
                        } else {
                            self.pixels[k]
                        }
                    } else if k < done {
                        Pixel24::spec_black()
                    } else {
                        self.pixels[k]
                    },
            ),
        )
    }

    /// A scrolled plane, pixel by pixel: a pixel has the colour of the pixel
    /// `rows` rows below it, where that one is visible, and the visible
    /// pixels of the last `rows` rows are black.
    pub proof fn lemma_scrolled(self, rows: int)
        requires
            self.wf(),
            0 <= rows,
        ensures
            self.scroll(rows).pixels.len() == self.pixels.len(),
            forall|x: int, y: int|
                0 <= y && self.visible(x, y + rows) ==> #[trigger] self.scroll(rows).at(x, y)
                    == self.at(x, y + rows),
            forall|x: int, y: int|
                self.visible(x, y) && self.height - rows <= y ==> #[trigger] self.scroll(rows).at(
                    x,
                    y,
                ) == Pixel24::spec_black(),
    {
        let w = self.width;
        let h = self.height;
        let after = self.scroll(rows);
        assert forall|x: int, y: int| 0 <= y && self.visible(x, y + rows) implies #[trigger] after.at(
            x,
            y,
        ) == self.at(x, y + rows) by {
            assert(y * w + x + rows * w == (y + rows) * w + x && (y + rows) * w + x < w * h && 0
                <= y * w) by (nonlinear_arith)
                requires
                    0 <= x < w,
                    0 <= y,
                    0 <= rows,
                    y + rows < h,
            ;
        }
        assert forall|x: int, y: int| self.visible(x, y) && h - rows <= y implies #[trigger] after.at(
            x,
            y,
        ) == Pixel24::spec_black() by {
            assert(y * w + x + rows * w >= w * h) by (nonlinear_arith)
                requires
                    0 <= x < w,
                    h - rows <= y,
            ;
        }
    }

    /// Moving starts from the screen as it is.
    pub proof fn lemma_shift_start(self, rows: int)
        ensures
            self.shift_part(rows, 0) == self,
    {
        assert(self.shift_part(rows, 0).pixels =~= self.pixels);
    }

    /// Copying the pixel `(x, y)` to `(x, y - rows)`, where it has a place in
    /// the memory, carries the move one place on.
    pub proof fn lemma_shift_step(self, rows: int, x: int, y: int)
        requires
            self.wf(),
            0 <= rows <= y < self.height,
            0 <= x < self.width,
        ensures
            ({
                let done = (y - rows) * self.width + x;
                let cur = self.shift_part(rows, done);
                &&& done >= 0
                &&& cur.visible(x, y) ==> cur.put_pixel(x, y - rows, cur.at(x, y))
                    == self.shift_part(rows, done + 1)
                &&& !cur.visible(x, y) ==> cur == self.shift_part(rows, done + 1)
            }),
    {
        let w = self.width;
        let done = (y - rows) * w + x;
        let cur = self.shift_part(rows, done);
        let next = self.shift_part(rows, done + 1);
        assert(done + rows * w == y * w + x && (y - rows) * w >= 0) by (nonlinear_arith)
            requires
                done == (y - rows) * w + x,
                0 <= rows <= y,
                0 <= w,
        ;
        if cur.visible(x, y) {
            let after = cur.put_pixel(x, y - rows, cur.at(x, y));
            assert(after.pixels =~= next.pixels);
        } else {
            assert(cur.pixels =~= next.pixels);
        }
    }

    /// A row that is moved is the start of the next row.
    pub proof fn lemma_shift_row(self, rows: int, y: int)
        ensures
            (y - rows) * self.width + self.width == (y + 1 - rows) * self.width,
    {
        let w = self.width;
        assert((y - rows) * w + w == (y + 1 - rows) * w) by (nonlinear_arith);
    }

    /// When every row that has a row `rows` below it is moved, blackening
    /// starts at the first vacated row.
    pub proof fn lemma_fill_start(self, rows: int)
        requires
            self.wf(),
            0 <= rows,
        ensures
            rows <= self.height ==> self.shift_part(rows, (self.height - rows) * self.width)
                == self.fill_part(rows, (self.height - rows) * self.width),
            rows >= self.height ==> self == self.fill_part(rows, 0),
    {
        let w = self.width;
        let h = self.height;
        if rows <= h {
            let done = (h - rows) * w;
            assert(done + rows * w == w * h) by (nonlinear_arith)
                requires
                    done == (h - rows) * w,
            ;
            assert(self.shift_part(rows, done).pixels =~= self.fill_part(rows, done).pixels);
        }
        if rows >= h {
            assert(rows * w >= w * h) by (nonlinear_arith)
                requires
                    rows >= h,
                    0 <= w,
            ;
            assert(self.pixels =~= self.fill_part(rows, 0).pixels);
        }
    }

    /// Blackening the pixel `(x, y)` of a vacated row carries the filling one
    /// place on.
    pub proof fn lemma_fill_step(self, rows: int, x: int, y: int)
        requires
            self.wf(),
            0 <= rows,
            0 <= y < self.height,
            self.height - rows <= y,
            0 <= x < self.width,
        ensures
            self.fill_part(rows, y * self.width + x).put_pixel(x, y, Pixel24::spec_black())
                == self.fill_part(rows, y * self.width + x + 1),
    {
        let w = self.width;
        let h = self.height;
        let done = y * w + x;
        assert(done + rows * w >= w * h && done >= 0) by (nonlinear_arith)
            requires
                done == y * w + x,
                h - rows <= y,
                0 <= y,
                0 <= x,
                0 <= w,
        ;
        let cur = self.fill_part(rows, done);
        let after = cur.put_pixel(x, y, Pixel24::spec_black());
        assert(after.pixels =~= self.fill_part(rows, done + 1).pixels);
    }

    /// When the last row is blackened, the plane is scrolled.
    pub proof fn lemma_fill_end(self, rows: int)
        requires
            self.wf(),
        ensures
            self.fill_part(rows, self.height * self.width) == self.scroll(rows),
    {
        let w = self.width;
        let h = self.height;
        assert(h * w == w * h) by (nonlinear_arith);
        assert(self.fill_part(rows, h * w).pixels =~= self.scroll(rows).pixels);
    }
}

impl Screen {
    /// Scrolling by the height of the plane or more leaves nothing of it.
    pub proof fn lemma_scroll_past(self, rows: int, more: int)
        requires
            self.wf(),
            self.height <= rows,
            self.height <= more,
        ensures
            self.scroll(rows) == self.scroll(more),
    {
        let w = self.width;
        let h = self.height;
        assert(rows * w >= w * h && more * w >= w * h) by (nonlinear_arith)
            requires
                h <= rows,
                h <= more,
                0 <= w,
        ;
        assert(self.scroll(rows).pixels =~= self.scroll(more).pixels);
    }

    /// The cursor stands in a cell of the text grid.
    pub open spec fn cursor_ok(self) -> bool {
        0 <= self.x < self.chars_width() && 0 <= self.y < self.chars_height()
    }

    /// The screen after the cursor was brought back into the grid: a cursor
    /// below the last row of text moves up to the last row, and the plane
    /// moves up with it by eight rows of pixels for each row of text.
    pub open spec fn settle(self) -> Screen {
        if self.y >= self.chars_height() {
            let diff = self.y - self.chars_height() + 1;
            self.scroll(diff * 8).with_cursor(self.x, self.y - diff)
        } else {
            self
        }
    }

    /// The screen after a line feed or carriage return: the cell of the
    /// cursor is blackened, and the cursor goes to the start of the next
    /// row.
    pub open spec fn newline(self) -> Screen {
        self.fill_cell(self.x * 8, self.y * 8, Pixel24::spec_black()).with_cursor(
            0,
            self.y + 1,
        ).settle()
    }

    /// The screen after a backspace: the cursor goes one cell back, from the
    /// start of a row to the end of the row above. In the first cell of the
    /// grid it stays where it is. Nothing is erased.
    pub open spec fn backspace(self) -> Screen {
        if self.x > 0 {
            self.with_cursor(self.x - 1, self.y)
        } else if self.y > 0 {
            self.with_cursor(self.chars_width() - 1, self.y - 1)
        } else {
            self
        }
    }

    /// The screen after the glyph of `ch` was written in `col` at the
    /// cursor: the cursor goes one cell on, from the end of a row to the
    /// start of the next.
    pub open spec fn print(self, font: Seq<u8>, ch: int, col: Pixel24) -> Screen {
        let drawn = self.draw_glyph(font, ch, self.x * 8, self.y * 8, col);
        if self.x + 1 >= self.chars_width() {
            drawn.with_cursor(0, self.y + 1).settle()
        } else {
            drawn.with_cursor(self.x + 1, self.y)
        }
    }

    /// The screen after one character. A character from 0x80 on is dropped.
    pub open spec fn write_char(self, font: Seq<u8>, ch: char, col: Pixel24) -> Screen {
        if ch == '\n' || ch == '\r' {
            self.newline()
        } else if ch == '\x08' {
            self.backspace()
        } else if ch as u32 >= 0x80 {
            self
        } else {
            self.print(font, ch as u32 as int, col)
        }
    }

    /// The screen after the bytes of `bytes`, each taken as one character,
    /// in their order.
    pub open spec fn write_bytes(self, font: Seq<u8>, bytes: Seq<u8>, col: Pixel24) -> Screen
        decreases bytes.len(),
    {
        if bytes.len() == 0 {
            self
        } else {
            self.write_bytes(font, bytes.drop_last(), col).write_char(
                font,
                bytes.last() as char,
                col,
            )
        }
    }
}

/// The colour of the test pattern at `(x, y)`: the sum, the difference and
/// the product of the low bytes of `x` and `y`, each reduced to a byte.
pub open spec fn pattern_pixel(x: int, y: int) -> Pixel24 {
    Pixel24 {
        r: ((x % 256 + y % 256) % 256) as u8,
        g: ((x % 256 + 256 - y % 256) % 256) as u8,
        b: (((x % 256) * (y % 256)) % 256) as u8,
    }
}

impl Screen {
    /// The screen with the test pattern on every pixel.
    pub open spec fn pattern(self) -> Screen {
        self.with_pixels(
            Seq::new(
                self.pixels.len(),
                |k: int| pattern_pixel(self.col_of(k), self.row_of(k)),
            ),
        )
    }

    /// The screen while the test pattern is being drawn: the first `done`
    /// places have it.
    pub open spec fn pattern_part(self, done: int) -> Screen {
        self.with_pixels(
            Seq::new(
                self.pixels.len(),
                |k: int|
                    if k < done {
                        pattern_pixel(self.col_of(k), self.row_of(k))
                    } else {
                        self.pixels[k]
                    },
            ),
        )
    }

    /// The test pattern, pixel by pixel.
    pub proof fn lemma_pattern(self)
        requires
            self.wf(),
        ensures
            self.pattern().pixels.len() == self.pixels.len(),
            forall|x: int, y: int|
                self.visible(x, y) ==> #[trigger] self.pattern().at(x, y) == pattern_pixel(x, y),
    {
        assert forall|x: int, y: int| self.visible(x, y) implies #[trigger] self.pattern().at(x, y)
            == pattern_pixel(x, y) by {
            lemma_place(self.width, x, y, y * self.width + x);
        }
    }

    /// Writing the colour of the pattern at `(x, y)` carries the drawing one
    /// place on.
    pub proof fn lemma_pattern_step(self, x: int, y: int)
        requires
            self.wf(),
            0 <= x < self.width,
            0 <= y < self.height,
        ensures
            y * self.width + x >= 0,
            self.pattern_part(y * self.width + x).put_pixel(x, y, pattern_pixel(x, y))
                == self.pattern_part(y * self.width + x + 1),
    {
        let w = self.width;
        let done = y * w + x;
        assert(0 <= y * w) by (nonlinear_arith)
            requires
                0 <= y,
                0 <= w,
        ;
        lemma_place(w, x, y, done);
        let after = self.pattern_part(done).put_pixel(x, y, pattern_pixel(x, y));
        assert(after.pixels =~= self.pattern_part(done + 1).pixels);
    }

    /// The drawing starts from the screen as it is and ends with the
    /// pattern.
    pub proof fn lemma_pattern_ends(self)
        requires
            self.wf(),
        ensures
            self.pattern_part(0) == self,
            self.pattern_part(self.height * self.width) == self.pattern(),
    {
        assert(self.height * self.width == self.width * self.height) by (nonlinear_arith);
        assert(self.pattern_part(0).pixels =~= self.pixels);
        assert(self.pattern_part(self.height * self.width).pixels =~= self.pattern().pixels);
    }
}

/// A byte that the console draws: below 0x80, and neither line feed,
/// carriage return nor backspace.
pub open spec fn printable(b: u8) -> bool {
    b < 0x80 && b != 0x0A && b != 0x0D && b != 0x08
}

impl Screen {
    /// A glyph that is drawn and then drawn again in black leaves its cell
    /// black: every visible pixel of the cell is black, and every pixel
    /// outside the cell is as it was before the glyph was drawn.
    pub proof fn lemma_glyph_erased(self, font: Seq<u8>, ch: int, ox: int, oy: int, col: Pixel24)
        requires
            self.wf(),
            0 <= ch < 0x80,
        ensures
            ({
                let erased = self.draw_glyph(font, ch, ox, oy, col).draw_glyph(
                    font,
                    ch,
                    ox,
                    oy,
                    Pixel24::spec_black(),
                );
                &&& erased.pixels.len() == self.pixels.len()
                &&& forall|x: int, y: int|
                    self.visible(x, y) && ox <= x < ox + 8 && oy <= y < oy + 8
                        ==> #[trigger] erased.at(x, y) == Pixel24::spec_black()
                &&& forall|x: int, y: int|
                    self.visible(x, y) && !(ox <= x < ox + 8 && oy <= y < oy + 8)
                        ==> #[trigger] erased.at(x, y) == self.at(x, y)
            }),
    {
        let erased = self.draw_glyph(font, ch, ox, oy, col).draw_glyph(
            font,
            ch,
            ox,
            oy,
            Pixel24::spec_black(),
        );
        assert forall|x: int, y: int| self.visible(x, y) implies (if ox <= x < ox + 8 && oy <= y
            < oy + 8 {
            #[trigger] erased.at(x, y) == Pixel24::spec_black()
        } else {
            erased.at(x, y) == self.at(x, y)
        }) by {
            lemma_place(self.width, x, y, y * self.width + x);
        }
    }

    /// Printable bytes that do not reach the end of the row move the cursor
    /// right by their number and leave every pixel outside the row of text
    /// as it was.
    pub proof fn lemma_row_written(self, font: Seq<u8>, bytes: Seq<u8>, col: Pixel24)
        requires
            self.wf(),
            self.cursor_ok(),
            self.x + bytes.len() < self.chars_width(),
            forall|i: int| 0 <= i < bytes.len() ==> printable(#[trigger] bytes[i]),
        ensures
            ({
                let after = self.write_bytes(font, bytes, col);
                &&& after.x == self.x + bytes.len()
                &&& after.y == self.y
                &&& after.width == self.width
                &&& after.height == self.height
                &&& after.pixels.len() == self.pixels.len()
                &&& forall|k: int|
                    0 <= k < self.pixels.len() && !(self.y * 8 <= self.row_of(k) < self.y * 8 + 8)
                        ==> #[trigger] after.pixels[k] == self.pixels[k]
            }),
        decreases bytes.len(),
    {
        if bytes.len() > 0 {
            let head = bytes.drop_last();
            self.lemma_row_written(font, head, col);
            let b = bytes.last();
            assert(printable(b));
            assert(b as char as u32 == b as u32);
        }
    }

    /// Printable bytes that fill the rest of a row above the last one wrap
    /// the cursor to the start of the next row and scroll nothing: every
    /// pixel outside the row of text is as it was.
    pub proof fn lemma_row_wraps(self, font: Seq<u8>, bytes: Seq<u8>, col: Pixel24)
        requires
            self.wf(),
            self.cursor_ok(),
            self.y + 1 < self.chars_height(),
            self.x + bytes.len() == self.chars_width(),
            forall|i: int| 0 <= i < bytes.len() ==> printable(#[trigger] bytes[i]),
        ensures
            ({
                let after = self.write_bytes(font, bytes, col);
                &&& after.x == 0
                &&& after.y == self.y + 1
                &&& after.pixels.len() == self.pixels.len()
                &&& forall|k: int|
                    0 <= k < self.pixels.len() && !(self.y * 8 <= self.row_of(k) < self.y * 8 + 8)
                        ==> #[trigger] after.pixels[k] == self.pixels[k]
            }),
    {
        let head = bytes.drop_last();
        self.lemma_row_written(font, head, col);
        let b = bytes.last();
        assert(printable(b));
        assert(b as char as u32 == b as u32);
    }

    /// A line feed above the last row of text scrolls nothing. A line feed
    /// in the last row scrolls the plane once, by eight rows of pixels:
    /// every row takes the pixels that stood eight rows below it when the
    /// cell of the cursor was blackened, the last eight rows are black, and
    /// the cursor stays in the last row of text.
    pub proof fn lemma_newline(self)
        requires
            self.wf(),
            self.cursor_ok(),
        ensures
            ({
                let after = self.newline();
                let before = self.fill_cell(self.x * 8, self.y * 8, Pixel24::spec_black());
                &&& after.x == 0
                &&& after.pixels.len() == self.pixels.len()
                &&& self.y + 1 < self.chars_height() ==> after == before.with_cursor(
                    0,
                    self.y + 1,
                )
                &&& self.y + 1 == self.chars_height() ==> {
                    &&& after.y == self.y
                    &&& after.pixels == before.scroll(8).pixels
                    &&& forall|x: int, y: int|
                        0 <= y && before.visible(x, y + 8) ==> #[trigger] after.at(x, y)
                            == before.at(x, y + 8)
                    &&& forall|x: int, y: int|
                        after.visible(x, y) && self.height - 8 <= y ==> #[trigger] after.at(x, y)
                            == Pixel24::spec_black()
                }
            }),
    {
        let before = self.fill_cell(self.x * 8, self.y * 8, Pixel24::spec_black());
        if self.y + 1 == self.chars_height() {
            let after = self.newline();
            let moved = before.with_cursor(0, self.y + 1);
            moved.lemma_scrolled(8);
            assert forall|x: int, y: int| 0 <= y && before.visible(x, y + 8) implies #[trigger] after.at(
                x,
                y,
            ) == before.at(x, y + 8) by {
                assert(moved.visible(x, y + 8));
                assert(moved.scroll(8).at(x, y) == moved.at(x, y + 8));
            }
            assert forall|x: int, y: int| after.visible(x, y) && self.height - 8 <= y implies #[trigger] after.at(
                x,
                y,
            ) == Pixel24::spec_black() by {
                assert(moved.visible(x, y));
                assert(moved.scroll(8).at(x, y) == Pixel24::spec_black());
            }
        }
    }
}

/// On a plane of width `w`, the pixel `(x, y)` stands at `y * w + x`, and
/// nothing else does.
pub proof fn lemma_place(w: int, x: int, y: int, k: int)
    requires
        0 <= x < w,
    ensures
        k == y * w + x <==> (k % w == x && k / w == y),
{
    vstd::arithmetic::div_mod::lemma_fundamental_div_mod(k, w);
    if k == y * w + x {
        vstd::arithmetic::div_mod::lemma_fundamental_div_mod_converse(k, w, y, x);
    }
    if k % w == x && k / w == y {
        assert(w * y == y * w) by (nonlinear_arith);
    }
}

} // verus!
