//! Laying a text out: where the pen stands before each glyph, and where the
//! cursor goes.

use crate::glyph_map::{GlyphMap, GlyphQuad};
use crate::text::{newline_count, tail_len};
use vstd::prelude::*;

verus! {

/// A glyph with the pen position it is drawn at. Lengths are raster pixels of
/// the cache that the glyph comes from; rows are counted from the top.
#[derive(Clone, Copy, Debug, PartialEq, Eq, Structural)]
pub struct PlacedGlyph {
    pub quad: GlyphQuad,
    /// The horizontal advances of the glyphs before it in its row, summed.
    pub pen_x: i128,
    /// The vertical advances of all glyphs before it, summed.
    pub pen_y: i128,
    /// The number of line breaks before it.
    pub row: usize,
}

/// A text laid out: its glyphs in order, line breaks left out, and the pen
/// positions that the cursor takes its place from.
#[derive(Debug)]
pub struct TextLayout {
    pub glyphs: Vec<PlacedGlyph>,
    /// The pen's horizontal position after the last glyph that stands in the
    /// cursor's column; none where no glyph does.
    pub cursor_x: Option<i128>,
    /// The pen's vertical position at the end of the cursor's row; none where
    /// the text has no such row.
    pub cursor_y: Option<i128>,
}

/// The pen's horizontal position after a text: the advances of the glyphs
/// since the last line break, summed.
pub open spec fn pen_x(map: &GlyphMap, text: Seq<char>) -> int
    decreases text.len(),
{
    if text.len() == 0 || text.last() == '\n' {
        0
    } else {
        pen_x(map, text.drop_last()) + map.lookup(text.last()).ax
    }
}

/// The pen's vertical position after a text, line heights left out: the
/// vertical advances of all glyphs, summed.
pub open spec fn pen_y(map: &GlyphMap, text: Seq<char>) -> int
    decreases text.len(),
{
    if text.len() == 0 {
        0
    } else if text.last() == '\n' {
        pen_y(map, text.drop_last())
    } else {
        pen_y(map, text.drop_last()) + map.lookup(text.last()).ay
    }
}

/// The glyphs of a text, each with the pen position after the text before
/// it.
pub open spec fn placed(map: &GlyphMap, text: Seq<char>) -> Seq<PlacedGlyph>
    decreases text.len(),
{
    if text.len() == 0 {
        Seq::empty()
    } else if text.last() == '\n' {
        placed(map, text.drop_last())
    } else {
        placed(map, text.drop_last()).push(
            PlacedGlyph {
                quad: map.quad_of(text.last()),
                pen_x: pen_x(map, text.drop_last()) as i128,
                pen_y: pen_y(map, text.drop_last()) as i128,
                row: newline_count(text.drop_last()) as usize,
            },
        )
    }
}

/// The pen's horizontal position after the last glyph that is number
/// `column` of its row, counted from one.
pub open spec fn cursor_x(map: &GlyphMap, text: Seq<char>, column: int) -> Option<int>
    decreases text.len(),
{
    if text.len() == 0 {
        None
    } else if text.last() != '\n' && tail_len(text) == column {
        Some(pen_x(map, text))
    } else {
        cursor_x(map, text.drop_last(), column)
    }
}

/// The pen's vertical position at the end of row number `row`, counted from
/// zero: after the longest part of the text with that many line breaks.
pub open spec fn cursor_y(map: &GlyphMap, text: Seq<char>, row: int) -> Option<int>
    decreases text.len(),
{
    if newline_count(text) < row {
        None
    } else if newline_count(text) == row || text.len() == 0 {
        Some(pen_y(map, text))
    } else {
        cursor_y(map, text.drop_last(), row)
    }
}

/// The pen never goes further from any side than the largest advance times
/// the number of characters, so its position is held without loss in 128
/// bits.
pub proof fn lemma_pen_bounds(map: &GlyphMap, text: Seq<char>)
    ensures
        -0x8000_0000 * text.len() <= pen_x(map, text) <= 0x8000_0000 * text.len(),
        -0x8000_0000 * text.len() <= pen_y(map, text) <= 0x8000_0000 * text.len(),
    decreases text.len(),
{
    if text.len() > 0 {
        lemma_pen_bounds(map, text.drop_last());
    }
}

/// Lays a text out with the glyphs of one cache.
pub fn layout_text(text: &[char], cursor_col: usize, cursor_row: usize, map: &GlyphMap) -> (layout:
    TextLayout)
    requires
        map.wf(),
    ensures
        layout.glyphs@ == placed(map, text@),
        layout.cursor_x == match cursor_x(map, text@, cursor_col as int) {
            Some(x) => Some(x as i128),
            None => None,
        },
        layout.cursor_y == match cursor_y(map, text@, cursor_row as int) {
            Some(y) => Some(y as i128),
            None => None,
        },
{
    let mut glyphs: Vec<PlacedGlyph> = Vec::new();
    let mut at_column: Option<i128> = None;
    let mut at_row: Option<i128> = None;
    let mut x: i128 = 0;
    let mut y: i128 = 0;
    let mut row: usize = 0;
    let mut column: usize = 0;
    let mut i: usize = 0;
    while i < text.len()
        invariant
            i <= text.len(),
            map.wf(),
            glyphs@ == placed(map, text@.take(i as int)),
            x == pen_x(map, text@.take(i as int)),
            y == pen_y(map, text@.take(i as int)),
            row == newline_count(text@.take(i as int)),
            column == tail_len(text@.take(i as int)),
            -0x8000_0000 * i <= x <= 0x8000_0000 * i,
            -0x8000_0000 * i <= y <= 0x8000_0000 * i,
            row <= i,
            column <= i,
            at_column == match cursor_x(map, text@.take(i as int), cursor_col as int) {
                Some(x) => Some(x as i128),
                None => None,
            },
            row <= cursor_row ==> at_row is None,
            row > cursor_row ==> cursor_y(map, text@.take(i as int), cursor_row as int) is Some
                && at_row == Some(
                cursor_y(map, text@.take(i as int), cursor_row as int)->Some_0 as i128,
            ),
        decreases text.len() - i,
    {
        let c = text[i];
        proof {
            assert(text@.take(i + 1).drop_last() =~= text@.take(i as int));
        }
        if c == '\n' {
            if row == cursor_row {
                at_row = Some(y);
            }
            row += 1;
            x = 0;
            column = 0;
        } else {
            let quad = map.get_glyph_data(c);
            glyphs.push(PlacedGlyph { quad, pen_x: x, pen_y: y, row });
            x = x + quad.ax as i128;
            y = y + quad.ay as i128;
            column += 1;
            if column == cursor_col {
                at_column = Some(x);
            }
        }
        i += 1;
    }
    proof {
        assert(text@.take(text@.len() as int) =~= text@);
    }
    if row == cursor_row {
        at_row = Some(y);
    }
    TextLayout { glyphs, cursor_x: at_column, cursor_y: at_row }
}

} // verus!
