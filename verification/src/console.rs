//! The text console: a cursor that walks over the cells of the plane as
//! characters come in, and takes the plane with it when it leaves the last
//! row.

use vstd::prelude::*;
use vstd::string::*;
use crate::framebuffer::{FrameBuffer24, Pixel24};
use crate::screen::{solid_ink, Ink, Screen, CHAR_HEIGHT, CHAR_WIDTH};

verus! {

impl FrameBuffer24 {
    /// The cursor stands in a cell of the text grid.
    pub open spec fn cursor_ok(&self) -> bool {
        self.x < self.chars_width && self.y < self.chars_height
    }

    /// Whether the cursor stands in a cell of the text grid.
    pub fn is_cursor_ok(&self) -> (ok: bool)
        ensures
            ok == self.cursor_ok(),
    {
        self.x < self.chars_width && self.y < self.chars_height
    }

    /// Fills the cell of the cursor with `col`, as a caret. Whoever draws
    /// the caret also takes it away: a glyph drawn in the cell overwrites it,
    /// and so does a fill in black.
    pub fn putcursor(&mut self, col: &Pixel24)
        requires
            old(self).ready(),
            old(self).cursor_ok(),
        ensures
            final(self)@ == old(self)@.fill_cell(old(self).x * 8, old(self).y * 8, *col),
            final(self).same_frame(old(self)),
            final(self).ready(),
    {
        let ghost ink: Ink = solid_ink(*col);
        let ghost start: Screen = self@;
        let posx: u32 = self.x * CHAR_WIDTH;
        let posy: u32 = self.y * CHAR_HEIGHT;
        proof {
            start.lemma_paint_start(posx as int, posy as int, ink);
        }
        let mut y: u32 = 0;
        while y < 8
            invariant
                y <= 8,
                posx + 8 <= self.width,
                posy + 8 <= self.height,
                start.wf(),
                self.ready(),
                self.same_frame(old(self)),
                ink == solid_ink(*col),
                self@ == start.paint_part(posx as int, posy as int, ink, y as int, 0),
            decreases 8 - y,
        {
            let mut x: u32 = 0;
            while x < 8
                invariant
                    x <= 8,
                    y < 8,
                    posx + 8 <= self.width,
                    posy + 8 <= self.height,
                    start.wf(),
                    self.ready(),
                    self.same_frame(old(self)),
                    ink == solid_ink(*col),
                    self@ == start.paint_part(posx as int, posy as int, ink, y as int, x as int),
                decreases 8 - x,
            {
                proof {
                    start.lemma_paint_step(posx as int, posy as int, ink, y as int, x as int);
                }
                self.putpixel(posx + x, posy + y, col);
                x += 1;
            }
            proof {
                start.lemma_paint_row(posx as int, posy as int, ink, y as int);
            }
            y += 1;
        }
        proof {
            start.lemma_paint_end(posx as int, posy as int, ink);
        }
    }

    /// Brings a cursor that stands below the last row of text back to the
    /// last row, and moves the plane up with it.
    pub fn handle_scroll(&mut self)
        requires
            old(self).ready(),
            old(self).chars_height >= 1,
        ensures
            final(self)@ == old(self)@.settle(),
            final(self).same_frame(old(self)),
            final(self).ready(),
            final(self).x == old(self).x,
            final(self).y < old(self).chars_height,
    {
        if self.y >= self.chars_height {
            let diff: u32 = self.y - self.chars_height + 1;
            let rows: u32 = if diff > u32::MAX / CHAR_HEIGHT {
                u32::MAX
            } else {
                diff * CHAR_HEIGHT
            };
            proof {
                if diff > u32::MAX / CHAR_HEIGHT {
                    self@.lemma_scroll_past(rows as int, diff * 8);
                }
            }
            self.scroll_y(rows);
            self.y -= diff;
        }
    }

    /// Takes one character. A line feed or carriage return blackens the cell
    /// of the cursor and starts the next row. A backspace moves the cursor
    /// one cell back and erases nothing; in the first cell of the grid it
    /// does nothing. Any other character below 0x80 is drawn in `col` at the
    /// cursor, which goes one cell on. A character from 0x80 on is dropped.
    /// Whenever the cursor leaves the last row, the plane scrolls.
    pub fn writechar(&mut self, ch: char, col: &Pixel24)
        requires
            old(self).ready(),
            old(self).cursor_ok(),
        ensures
            final(self)@ == old(self)@.write_char(old(self).font.rows@, ch, *col),
            final(self).same_frame(old(self)),
            final(self).ready(),
            final(self).cursor_ok(),
    {
        let offx: u32 = self.x * CHAR_WIDTH;
        let offy: u32 = self.y * CHAR_HEIGHT;
        let black: Pixel24 = Pixel24::black();

        if ch == '\n' || ch == '\r' {
            self.putcursor(&black);
            self.x = 0;
            self.y += 1;
            self.handle_scroll();
            return ;
        }
        if ch == '\x08' {
            if self.x == 0 {
                if self.y > 0 {
                    self.x = self.chars_width - 1;
                    self.y -= 1;
                }
            } else {
                self.x -= 1;
            }
            return ;
        }
        if ch as u32 >= 0x80 {
            return ;
        }
        self.putchar(ch, offx, offy, col);

        self.x += 1;
        if self.x >= self.chars_width {
            self.x = 0;
            self.y += 1;
            self.handle_scroll();
        }
    }

    /// Takes the bytes of `s` as characters, one after the other.
    pub fn write_string(&mut self, s: &str, col: &Pixel24)
        requires
            old(self).ready(),
            old(self).cursor_ok(),
        ensures
            final(self)@ == old(self)@.write_bytes(old(self).font.rows@, s.spec_bytes(), *col),
            final(self).same_frame(old(self)),
            final(self).ready(),
            final(self).cursor_ok(),
    {
        let bytes: &[u8] = s.as_bytes();
        let mut i: usize = 0;
        while i < bytes.len()
            invariant
                i <= bytes@.len(),
                bytes@ == s.spec_bytes(),
                self.ready(),
                self.cursor_ok(),
                self.same_frame(old(self)),
                self@ == old(self)@.write_bytes(old(self).font.rows@, bytes@.take(i as int), *col),
            decreases bytes@.len() - i,
        {
            proof {
                assert(bytes@.take(i + 1).drop_last() =~= bytes@.take(i as int));
            }
            self.writechar(bytes[i] as char, col);
            i += 1;
        }
        assert(bytes@.take(i as int) =~= bytes@);
    }
}

/// Writes the prompt of a command line: a greater-than sign and a space.
pub fn write_prompt(fb: &mut FrameBuffer24, col: &Pixel24)
    requires
        old(fb).ready(),
        old(fb).cursor_ok(),
    ensures
        final(fb)@ == old(fb)@.write_char(old(fb).font.rows@, '>', *col).write_char(
            old(fb).font.rows@,
            ' ',
            *col,
        ),
        final(fb).same_frame(old(fb)),
        final(fb).ready(),
        final(fb).cursor_ok(),
{
    fb.writechar('>', col);
    fb.writechar(' ', col);
}

} // verus!
