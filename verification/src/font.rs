//! The glyph table: 128 characters of eight rows each, one byte per row, the
//! leftmost pixel in the highest bit.

use vstd::prelude::*;

verus! {

/// Number of characters that have a glyph.
pub const GLYPHS: usize = 128;

/// Rows of a glyph, and pixels in a row.
pub const GLYPH_SIZE: usize = 8;

/// Whether pixel `x` of a row is set, counted from the left.
pub open spec fn row_bit(row: u8, x: u8) -> bool {
    row & (0x80u8 >> x) != 0
}

/// Whether the glyph of `ch` in the table `rows` has pixel `(x, y)` set.
pub open spec fn glyph_bit(rows: Seq<u8>, ch: int, x: int, y: int) -> bool {
    row_bit(rows[ch * 8 + y], x as u8)
}

/// A glyph table that the console draws from.
#[derive(Debug)]
pub struct Font8x8 {
    pub rows: Vec<u8>,
}

impl Font8x8 {
    /// The table holds eight rows for each of the 128 characters.
    pub open spec fn wf(&self) -> bool {
        self.rows@.len() == GLYPHS * GLYPH_SIZE
    }

    /// Makes a font of `rows`, the rows of character 0 first. A table of any
    /// other length than 1024 is no font.
    pub fn new(rows: Vec<u8>) -> (font: Option<Font8x8>)
        ensures
            font.is_some() <==> rows@.len() == GLYPHS * GLYPH_SIZE,
            font matches Some(f) ==> f.rows@ == rows@ && f.wf(),
    {
        if rows.len() == GLYPHS * GLYPH_SIZE {
            Some(Font8x8 { rows })
        } else {
            None
        }
    }

    /// Whether the table has the length of a font.
    pub fn is_valid(&self) -> (ok: bool)
        ensures
            ok == self.wf(),
    {
        self.rows.len() == GLYPHS * GLYPH_SIZE
    }

    /// Whether the glyph of `ch` has pixel `(x, y)` set.
    pub fn lit(&self, ch: u8, x: u8, y: u8) -> (set: bool)
        requires
            self.wf(),
            ch < 0x80,
            x < 8,
            y < 8,
        ensures
            set == glyph_bit(self.rows@, ch as int, x as int, y as int),
    {
        let row: u8 = self.rows[ch as usize * GLYPH_SIZE + y as usize];
        row & (0x80u8 >> x) != 0
    }
}

} // verus!
