//! The glyph cache of one scale: a pixel buffer, and an index that says where
//! each cached character lies in it. The glyphs are drawn by the caller and
//! handed in; the cache decides which of them it takes and where they go.

use crate::glyph::{Glyph, Rgba};
use crate::packing::{
    bitmap_rows, fits_row, glyph_fits, index_of, lemma_packed_rows_len, packed_rows, push_pixels,
    AtlasIndex,
};
use crate::raster::line_metrics;
use crate::text::{first_line, lemma_first_line};
use std::collections::HashMap;
use vstd::arithmetic::div_mod::{lemma_fundamental_div_mod, lemma_fundamental_div_mod_converse};
use vstd::prelude::*;

verus! {

broadcast use vstd::std_specs::hash::group_hash_axioms;

/// How many times wider than the fallback glyph a buffer row is.
pub const MAX_WIDTH_RATIO: usize = 3;

/// The character whose glyph stands in for every character without a glyph
/// of its own.
pub const FALLBACK_CHARACTER: char = '?';

/// Why no glyph cache could be built.
#[derive(Debug)]
pub enum AtlasError {
    /// The font backend answered with an error.
    Backend(crossfont::Error),
    /// The fallback glyph has no width, or one too large for a buffer row.
    FallbackWidth,
    /// The fallback glyph's bitmap has fewer rows than its height says, or its
    /// height is negative.
    FallbackBitmap,
}

/// What the renderer needs to draw one character: the glyph's box relative to
/// the pen, in raster pixels, and its place in the texture, in rows and
/// columns out of the texture's totals.
#[derive(Clone, Copy, Debug, PartialEq, Eq, Structural)]
pub struct GlyphQuad {
    pub left: i32,
    pub top: i32,
    pub width: i32,
    pub height: i32,
    /// The texture row at which the glyph starts.
    pub row: usize,
    /// The number of rows of the texture.
    pub rows: usize,
    /// The number of columns of the texture.
    pub columns: usize,
    /// How far the pen moves after the glyph.
    pub ax: i32,
    pub ay: i32,
}

/// The larger of two widths, or the second where there is no first.
pub open spec fn larger_of(first: Option<int>, second: int) -> int {
    match first {
        Some(first) => if first >= second {
            first
        } else {
            second
        },
        None => second,
    }
}

/// Whether a character is one of the 95 that every cache starts out with.
pub open spec fn is_printable_ascii(c: char) -> bool {
    32 <= (c as u32) && (c as u32) < 127
}

/// The printable ASCII characters in ascending order.
pub open spec fn printable_ascii_seq() -> Seq<char> {
    Seq::new(95, |i: int| (32 + i) as char)
}

/// Whether the glyph handed in at place `i` can go into rows of this width:
/// there is one, and it can be packed.
pub open spec fn packable(drawn: Seq<Option<Glyph>>, i: int, width: nat) -> bool {
    0 <= i < drawn.len() && match drawn[i] {
        Some(glyph) => fits_row(glyph, width),
        None => false,
    }
}

/// Whether place `i` offers a glyph for the character `c`.
pub open spec fn offers(
    chars: Seq<char>,
    drawn: Seq<Option<Glyph>>,
    width: nat,
    c: char,
    i: int,
) -> bool {
    0 <= i < chars.len() && chars[i] == c && packable(drawn, i, width)
}

/// Whether the glyph at place `i` is taken into a cache that held the
/// characters `held` before: its character was not held, the glyph can be
/// packed, and no earlier place offered a glyph for the same character.
pub open spec fn taken(
    held: Set<char>,
    width: nat,
    chars: Seq<char>,
    drawn: Seq<Option<Glyph>>,
    i: int,
) -> bool {
    &&& 0 <= i < chars.len()
    &&& !held.contains(chars[i])
    &&& packable(drawn, i, width)
    &&& forall|j: int| 0 <= j < i ==> !#[trigger] offers(chars, drawn, width, chars[i], j)
}

/// The rows that the first `n` places add to the buffer: those of each glyph
/// taken, in the order of the places.
pub open spec fn rows_added(
    held: Set<char>,
    width: nat,
    chars: Seq<char>,
    drawn: Seq<Option<Glyph>>,
    n: nat,
) -> Seq<Rgba>
    decreases n,
{
    if n == 0 {
        Seq::empty()
    } else {
        let before = rows_added(held, width, chars, drawn, (n - 1) as nat);
        if taken(held, width, chars, drawn, n - 1) {
            before + packed_rows(drawn[n - 1]->Some_0, width)
        } else {
            before
        }
    }
}

/// Whether the character at place `i` is without a glyph once that place has
/// been dealt with: it was not held, and no place up to this one offered a
/// glyph for it.
pub open spec fn left_without(
    held: Set<char>,
    width: nat,
    chars: Seq<char>,
    drawn: Seq<Option<Glyph>>,
    i: int,
) -> bool {
    &&& 0 <= i < chars.len()
    &&& !held.contains(chars[i])
    &&& forall|j: int| 0 <= j <= i ==> !#[trigger] offers(chars, drawn, width, chars[i], j)
}

/// The characters reported for the first `n` places: each one that is left
/// without a glyph at its place, in the order of the places.
pub open spec fn reported(
    held: Set<char>,
    width: nat,
    chars: Seq<char>,
    drawn: Seq<Option<Glyph>>,
    n: nat,
) -> Seq<char>
    decreases n,
{
    if n == 0 {
        Seq::empty()
    } else {
        let before = reported(held, width, chars, drawn, (n - 1) as nat);
        if left_without(held, width, chars, drawn, n - 1) {
            before.push(chars[n - 1])
        } else {
            before
        }
    }
}

/// The characters among the first `n` that a cache holding `held` wants
/// drawn: each one that is not held, once, in the order of first occurrence.
pub open spec fn wanted_of(held: Set<char>, chars: Seq<char>, n: nat) -> Seq<char>
    decreases n,
{
    if n == 0 {
        Seq::empty()
    } else {
        let before = wanted_of(held, chars, (n - 1) as nat);
        if !held.contains(chars[n - 1]) && !chars.take(n - 1).contains(chars[n - 1]) {
            before.push(chars[n - 1])
        } else {
            before
        }
    }
}

/// The glyphs of one font at one glyph size, packed into one buffer.
pub struct GlyphMap {
    /// The glyphs' pixels, row by row.
    pixel_buffer: Vec<Rgba>,
    buffer_width: usize,
    /// The cached glyphs by code point.
    glyphs: HashMap<u32, AtlasIndex>,
    font_key: crossfont::FontKey,
    glyph_size: crossfont::Size,
    /// Position of the glyph for characters without one.
    unknown_position: AtlasIndex,
    metrics: crossfont::Metrics,
    /// The printable ASCII characters that were left without a glyph when
    /// the cache was built.
    undrawn: Vec<char>,
}

impl GlyphMap {
    /// The pixel buffer.
    pub closed spec fn pixels(&self) -> Seq<Rgba> {
        self.pixel_buffer@
    }

    /// The number of pixels in a buffer row.
    pub closed spec fn width(&self) -> nat {
        self.buffer_width as nat
    }

    /// Whether a character has a glyph of its own in the cache.
    pub closed spec fn cached(&self, c: char) -> bool {
        self.glyphs@.contains_key(c as u32)
    }

    /// The characters that have a glyph of their own in the cache.
    pub open spec fn held(&self) -> Set<char> {
        Set::new(|c: char| self.cached(c))
    }

    /// The index entry of a cached character.
    pub closed spec fn entry(&self, c: char) -> AtlasIndex {
        self.glyphs@[c as u32]
    }

    /// The index entry of the fallback glyph.
    pub closed spec fn fallback(&self) -> AtlasIndex {
        self.unknown_position
    }

    /// The font that the glyphs are drawn from.
    pub closed spec fn font(&self) -> crossfont::FontKey {
        self.font_key
    }

    /// The size at which the glyphs are requested.
    pub closed spec fn size(&self) -> crossfont::Size {
        self.glyph_size
    }

    /// The font's line metrics as the backend reported them for this scale.
    pub closed spec fn line_metrics(&self) -> crossfont::Metrics {
        self.metrics
    }

    /// The printable ASCII characters that were left without a glyph when
    /// the cache was built.
    pub closed spec fn left_out(&self) -> Seq<char> {
        self.undrawn@
    }

    /// The number of rows in the buffer.
    pub open spec fn rows(&self) -> nat {
        self.pixels().len() / self.width()
    }

    /// The entry that answers for a character: its own, or the fallback's.
    pub open spec fn lookup(&self, c: char) -> AtlasIndex {
        if self.cached(c) {
            self.entry(c)
        } else {
            self.fallback()
        }
    }

    /// Whether the glyph of an entry lies within a row and within the buffer:
    /// it is no wider than a row, and its rows end before the buffer's last
    /// row, so that the row that keeps glyphs apart comes after it.
    pub open spec fn holds_band(&self, entry: AtlasIndex) -> bool {
        &&& 0 <= entry.width <= self.width()
        &&& 0 <= entry.height
        &&& entry.y_index + entry.height < self.rows()
    }

    /// The buffer holds whole rows and at least one of them. A row is
    /// `MAX_WIDTH_RATIO` times as wide as the fallback glyph, which comes
    /// first. Every glyph lies within a row and within the buffer, and no two
    /// glyphs share a row: the band of a glyph, from its first row to the
    /// row that keeps it apart from the next, lies wholly before or wholly
    /// after the band of any other.
    pub open spec fn wf(&self) -> bool {
        &&& self.width() > 0
        &&& self.pixels().len() % self.width() == 0
        &&& self.pixels().len() >= self.width()
        &&& self.fallback().y_index == 0
        &&& self.fallback().width > 0
        &&& self.width() == self.fallback().width * MAX_WIDTH_RATIO
        &&& self.holds_band(self.fallback())
        &&& forall|c: char|
            self.cached(c) ==> self.fallback().height < (#[trigger] self.entry(c)).y_index
                && self.holds_band(self.entry(c))
        &&& forall|c: char, d: char|
            #![trigger self.entry(c), self.entry(d)]
            self.cached(c) && self.cached(d) && c != d ==> self.entry(c).y_index + self.entry(
                c,
            ).height < self.entry(d).y_index || self.entry(d).y_index + self.entry(d).height
                < self.entry(c).y_index
    }

    /// The cache holds this glyph for the character: the entry is the glyph's,
    /// and the glyph's rows stand in the buffer from the entry's row on.
    pub open spec fn holds_glyph(&self, c: char, glyph: Glyph) -> bool {
        let start = self.entry(c).y_index * self.width();
        let rows = packed_rows(glyph, self.width());
        &&& self.cached(c)
        &&& fits_row(glyph, self.width())
        &&& self.entry(c) == index_of(glyph, self.entry(c).y_index)
        &&& start + rows.len() <= self.pixels().len()
        &&& self.pixels().subrange(start as int, start + rows.len()) == rows
    }

    /// The cache was started with this glyph as its fallback: the glyph fixed
    /// the row width, and its rows are the first of the buffer.
    pub open spec fn begins_with(&self, unknown: Glyph) -> bool {
        &&& self.fallback() == index_of(unknown, 0)
        &&& self.width() == unknown.width * MAX_WIDTH_RATIO
        &&& packed_rows(unknown, self.width()).is_prefix_of(self.pixels())
    }

    /// Everything but the cache and the pixels is the same in both maps.
    pub open spec fn same_frame(&self, other: &GlyphMap) -> bool {
        &&& self.width() == other.width()
        &&& self.fallback() == other.fallback()
        &&& self.font() == other.font()
        &&& self.size() == other.size()
        &&& self.line_metrics() == other.line_metrics()
        &&& self.left_out() == other.left_out()
    }

    /// `self` holds all that `earlier` held, in the same place: a cache only
    /// grows.
    pub open spec fn extends(&self, earlier: &GlyphMap) -> bool {
        &&& self.same_frame(earlier)
        &&& earlier.pixels().is_prefix_of(self.pixels())
        &&& forall|c: char| #[trigger]
            earlier.cached(c) ==> self.cached(c) && self.entry(c) == earlier.entry(c)
    }

    /// What handing in glyphs for characters makes of `earlier`: the rows of
    /// the glyphs taken are appended in order; a character is cached if it
    /// was, or if a glyph that can be packed was handed in for it; each glyph
    /// taken stands at a row after all that were there.
    pub open spec fn grown_from(
        &self,
        earlier: &GlyphMap,
        chars: Seq<char>,
        drawn: Seq<Option<Glyph>>,
    ) -> bool {
        let held = earlier.held();
        let width = earlier.width();
        &&& self.extends(earlier)
        &&& self.pixels() == earlier.pixels() + rows_added(held, width, chars, drawn, chars.len())
        &&& forall|c: char| #[trigger]
            self.cached(c) <==> earlier.cached(c) || exists|i: int| #[trigger]
                offers(chars, drawn, width, c, i)
        &&& forall|i: int| #[trigger]
            taken(held, width, chars, drawn, i) ==> self.holds_glyph(chars[i], drawn[i]->Some_0)
                && self.entry(chars[i]).y_index >= earlier.rows()
    }

    /// What building a cache makes of a fallback glyph and the glyphs drawn
    /// for the printable ASCII characters, `drawn[i]` for the `i`-th of them:
    /// the fallback's rows come first, then those of each glyph taken; the
    /// characters without a glyph are noted as left out.
    pub open spec fn built_from(&self, unknown: Glyph, drawn: Seq<Option<Glyph>>) -> bool {
        let ascii = printable_ascii_seq();
        let none = Set::<char>::empty();
        &&& self.wf()
        &&& self.begins_with(unknown)
        &&& self.pixels() == packed_rows(unknown, self.width()) + rows_added(
            none,
            self.width(),
            ascii,
            drawn,
            95,
        )
        &&& forall|c: char| #[trigger]
            self.cached(c) <==> exists|i: int| #[trigger] offers(ascii, drawn, self.width(), c, i)
        &&& forall|i: int| #[trigger]
            taken(none, self.width(), ascii, drawn, i) ==> self.holds_glyph(
                ascii[i],
                drawn[i]->Some_0,
            )
        &&& self.left_out() == reported(none, self.width(), ascii, drawn, 95)
    }

    /// Every printable ASCII character has a glyph of its own or is noted as
    /// left out, and only such characters are noted.
    pub open spec fn covers_ascii(&self) -> bool {
        &&& forall|c: char|
            is_printable_ascii(c) ==> #[trigger] self.cached(c) || self.left_out().contains(c)
        &&& forall|j: int|
            0 <= j < self.left_out().len() ==> is_printable_ascii(#[trigger] self.left_out()[j])
    }

    /// Every cached character is a printable ASCII character.
    pub open spec fn holds_ascii_only(&self) -> bool {
        forall|c: char| #[trigger] self.cached(c) ==> is_printable_ascii(c)
    }

    /// The sum of the horizontal advances of a run of characters.
    pub open spec fn advance_sum(&self, chars: Seq<char>) -> int
        decreases chars.len(),
    {
        if chars.len() == 0 {
            0
        } else {
            self.advance_sum(chars.drop_last()) + self.lookup(chars.last()).ax
        }
    }

    /// The summed horizontal advances of the characters after the last line
    /// break of a text, or of all its characters where it has none.
    pub open spec fn line_sum(&self, text: Seq<char>) -> int
        decreases text.len(),
    {
        if text.len() == 0 || text.last() == '\n' {
            0
        } else {
            self.line_sum(text.drop_last()) + self.lookup(text.last()).ax
        }
    }

    /// The largest width among the lines of a text that a line break has
    /// ended; none where no line has ended.
    pub open spec fn ended_lines_max(&self, text: Seq<char>) -> Option<int>
        decreases text.len(),
    {
        if text.len() == 0 {
            None
        } else if text.last() == '\n' {
            Some(
                larger_of(
                    self.ended_lines_max(text.drop_last()),
                    self.line_sum(text.drop_last()),
                ),
            )
        } else {
            self.ended_lines_max(text.drop_last())
        }
    }

    /// The largest width among the lines of a text, each measured as the sum
    /// of its horizontal advances. A text has one line more than it has line
    /// breaks.
    pub open spec fn lines_max(&self, text: Seq<char>) -> int {
        larger_of(self.ended_lines_max(text), self.line_sum(text))
    }

    /// What `get_glyph_data` answers for a character.
    pub open spec fn quad_of(&self, c: char) -> GlyphQuad {
        let entry = self.lookup(c);
        GlyphQuad {
            left: entry.left,
            top: entry.top,
            width: entry.width,
            height: entry.height,
            row: entry.y_index,
            rows: self.rows() as usize,
            columns: self.width() as usize,
            ax: entry.ax,
            ay: entry.ay,
        }
    }

    /// Whether a glyph can start a cache as its fallback.
    pub open spec fn can_begin(unknown: Glyph) -> bool {
        &&& 0 < unknown.width
        &&& unknown.width * MAX_WIDTH_RATIO <= usize::MAX
        &&& 0 <= unknown.height <= bitmap_rows(unknown)
    }

    /// A cache that holds the fallback glyph and nothing else. The buffer's
    /// row width is fixed here, at `MAX_WIDTH_RATIO` times the glyph's width.
    /// A glyph without width, or with a bitmap shorter than its height, is
    /// refused.
    pub fn with_fallback(
        unknown: Glyph,
        font_key: crossfont::FontKey,
        glyph_size: crossfont::Size,
        metrics: crossfont::Metrics,
    ) -> (made: Result<GlyphMap, AtlasError>)
        ensures
            made is Ok <==> GlyphMap::can_begin(unknown),
            made matches Ok(map) ==> {
                &&& map.wf()
                &&& map.width() == unknown.width * MAX_WIDTH_RATIO
                &&& map.pixels() == packed_rows(unknown, map.width())
                &&& map.fallback() == index_of(unknown, 0)
                &&& map.begins_with(unknown)
                &&& forall|c: char| !map.cached(c)
                &&& map.font() == font_key
                &&& map.size() == glyph_size
                &&& map.line_metrics() == metrics
                &&& map.left_out().len() == 0
            },
            made matches Err(error) ==> {
                &&& error is FallbackWidth <==> !(0 < unknown.width && unknown.width
                    * MAX_WIDTH_RATIO <= usize::MAX)
                &&& error is FallbackBitmap <==> 0 < unknown.width && unknown.width
                    * MAX_WIDTH_RATIO <= usize::MAX
            },
    {
        if unknown.width <= 0 {
            return Err(AtlasError::FallbackWidth);
        }
        let buffer_width: usize = match (unknown.width as usize).checked_mul(MAX_WIDTH_RATIO) {
            Some(width) => width,
            None => {
                return Err(AtlasError::FallbackWidth);
            },
        };
        if !glyph_fits(&unknown, buffer_width) {
            return Err(AtlasError::FallbackBitmap);
        }
        let mut pixel_buffer: Vec<Rgba> = Vec::new();
        proof {
            lemma_packed_rows_len(unknown, buffer_width as nat);
        }
        let unknown_position = push_pixels(&unknown, &mut pixel_buffer, buffer_width);
        let map = GlyphMap {
            pixel_buffer,
            buffer_width,
            glyphs: HashMap::new(),
            font_key,
            glyph_size,
            unknown_position,
            metrics,
            undrawn: Vec::new(),
        };
        assert(map.pixels() =~= packed_rows(unknown, buffer_width as nat));
        Ok(map)
    }

    /// Caches a glyph for a character that has none yet, where the glyph can
    /// be packed; says whether it did. A character that is cached keeps the
    /// glyph it has.
    pub fn add_glyph(&mut self, c: char, glyph: &Glyph) -> (added: bool)
        requires
            old(self).wf(),
        ensures
            final(self).wf(),
            final(self).extends(old(self)),
            added == (!old(self).cached(c) && fits_row(*glyph, old(self).width())),
            !added ==> *final(self) == *old(self),
            added ==> {
                &&& final(self).pixels() == old(self).pixels() + packed_rows(
                    *glyph,
                    old(self).width(),
                )
                &&& final(self).cached(c)
                &&& final(self).entry(c) == index_of(*glyph, old(self).rows() as usize)
                &&& final(self).entry(c).y_index == old(self).rows()
                &&& final(self).holds_glyph(c, *glyph)
                &&& forall|d: char| d != c ==> final(self).cached(d) == old(self).cached(d)
                &&& final(self).rows() == old(self).rows() + bitmap_rows(*glyph) + 1
            },
    {
        if self.glyphs.contains_key(&(c as u32)) {
            return false;
        }
        if !glyph_fits(glyph, self.buffer_width) {
            return false;
        }
        proof {
            lemma_whole_rows(self.pixels().len(), self.width());
            lemma_whole_rows_fill(self.pixels().len(), self.width());
            lemma_packed_rows_len(*glyph, self.buffer_width as nat);
            lemma_rows_grow(
                self.pixel_buffer@,
                packed_rows(*glyph, self.buffer_width as nat),
                self.buffer_width as nat,
            );
        }
        let glyph_info = push_pixels(glyph, &mut self.pixel_buffer, self.buffer_width);
        self.glyphs.insert(c as u32, glyph_info);
        proof {
            assert(self.glyphs@ == old(self).glyphs@.insert(c as u32, glyph_info));
            assert forall|d: char| d != c implies self.cached(d) == old(self).cached(d)
                && (self.cached(d) ==> self.entry(d) == old(self).entry(d)) by {
                vstd::utf8::char_u32_cast(d, d as u32);
                vstd::utf8::char_u32_cast(c, c as u32);
                assert(d as u32 != c as u32);
            }
            assert(self.entry(c).y_index == old(self).rows());
            assert(self.rows() == old(self).rows() + bitmap_rows(*glyph) + 1);
            assert(old(self).holds_band(old(self).fallback()));
            assert forall|d: char| self.cached(d) implies self.fallback().height < (
            #[trigger] self.entry(d)).y_index && self.holds_band(self.entry(d)) by {
                if d != c {
                    assert(old(self).cached(d));
                    assert(self.entry(d) == old(self).entry(d));
                    assert(old(self).holds_band(old(self).entry(d)));
                }
            }
            assert forall|d: char, e: char|
                #![trigger self.entry(d), self.entry(e)]
                self.cached(d) && self.cached(e) && d != e implies self.entry(d).y_index
                + self.entry(d).height < self.entry(e).y_index || self.entry(e).y_index
                + self.entry(e).height < self.entry(d).y_index by {
                if d != c {
                    assert(old(self).cached(d));
                    assert(self.entry(d) == old(self).entry(d));
                    assert(old(self).holds_band(old(self).entry(d)));
                }
                if e != c {
                    assert(old(self).cached(e));
                    assert(self.entry(e) == old(self).entry(e));
                    assert(old(self).holds_band(old(self).entry(e)));
                }
            }
            let start = old(self).pixels().len();
            let rows = packed_rows(*glyph, self.width());
            assert(self.entry(c).y_index * self.width() == start);
            assert(self.pixels().subrange(start as int, (start + rows.len()) as int) =~= rows);
        }
        true
    }

    /// Makes sure that a character has a glyph, given what the backend drew
    /// for it: a glyph that can be packed is cached where the character has
    /// none. Says whether the character has a glyph afterwards. Where nothing
    /// was drawn, or what was drawn cannot be packed, the character is left
    /// out, and the fallback glyph goes on answering for it.
    pub fn add_character(&mut self, c: char, drawn: &Option<Glyph>) -> (cached: bool)
        requires
            old(self).wf(),
        ensures
            final(self).wf(),
            final(self).extends(old(self)),
            cached == final(self).cached(c),
            cached == (old(self).cached(c) || match *drawn {
                Some(glyph) => fits_row(glyph, old(self).width()),
                None => false,
            }),
            old(self).cached(c) || !cached ==> *final(self) == *old(self),
            forall|d: char| d != c ==> final(self).cached(d) == old(self).cached(d),
            cached && !old(self).cached(c) ==> {
                &&& final(self).holds_glyph(c, drawn->Some_0)
                &&& final(self).entry(c).y_index == old(self).rows()
                &&& final(self).pixels() == old(self).pixels() + packed_rows(
                    drawn->Some_0,
                    old(self).width(),
                )
                &&& final(self).rows() > old(self).rows()
            },
    {
        if self.glyphs.contains_key(&(c as u32)) {
            return true;
        }
        match drawn {
            Some(glyph) => self.add_glyph(c, glyph),
            None => false,
        }
    }

    /// The characters that have to be drawn before the cache has a glyph for
    /// each of the given ones: those it lacks, each once, in the order in
    /// which they first occur.
    pub fn wanted(&self, chars: &[char]) -> (wanted: Vec<char>)
        ensures
            wanted@ == wanted_of(self.held(), chars@, chars@.len()),
            forall|c: char|
                #![trigger wanted@.contains(c)]
                #![trigger chars@.contains(c)]
                wanted@.contains(c) <==> !self.cached(c) && chars@.contains(c),
            wanted@.no_duplicates(),
    {
        let mut wanted: Vec<char> = Vec::new();
        let mut i: usize = 0;
        while i < chars.len()
            invariant
                i <= chars.len(),
                wanted@ == wanted_of(self.held(), chars@, i as nat),
                forall|c: char|
                    #![trigger wanted@.contains(c)]
                    #![trigger chars@.take(i as int).contains(c)]
                    wanted@.contains(c) <==> !self.cached(c) && chars@.take(i as int).contains(c),
                wanted@.no_duplicates(),
            decreases chars.len() - i,
        {
            let c = chars[i];
            let ghost before = wanted@;
            let ghost sooner = chars@.take(i as int);
            let ghost later = chars@.take(i + 1);
            let seen = holds(&wanted, c);
            let lacking = !self.glyphs.contains_key(&(c as u32));
            if lacking && !seen {
                wanted.push(c);
            }
            proof {
                assert(later =~= sooner.push(c));
                assert(later[i as int] == c);
                assert forall|d: char|
                    #![trigger wanted@.contains(d)]
                    #![trigger later.contains(d)]
                    wanted@.contains(d) <==> !self.cached(d) && later.contains(d) by {
                    assert(before.contains(d) <==> !self.cached(d) && sooner.contains(d));
                    if before.contains(d) {
                        let at = choose|at: int| 0 <= at < before.len() && before[at] == d;
                        assert(wanted@[at] == d);
                    }
                    if sooner.contains(d) {
                        let at = choose|at: int| 0 <= at < sooner.len() && sooner[at] == d;
                        assert(later[at] == d);
                    }
                    if later.contains(d) && d != c {
                        let at = choose|at: int| 0 <= at < later.len() && later[at] == d;
                        assert(sooner[at] == d);
                    }
                    if wanted@.contains(d) && !before.contains(d) {
                        let at = choose|at: int| 0 <= at < wanted@.len() && wanted@[at] == d;
                        assert(at == before.len());
                    }
                    if lacking && !seen {
                        assert(wanted@[before.len() as int] == c);
                    }
                }
            }
            i += 1;
        }
        proof {
            assert(chars@.take(chars@.len() as int) =~= chars@);
        }
        wanted
    }

    /// Makes sure that the characters have glyphs, given what the backend
    /// drew for each: `drawn[i]` is what it drew for `chars[i]`, and nothing
    /// where there are fewer glyphs than characters. Each character is dealt
    /// with as by `add_character`, in order. Answers with the characters
    /// that are left without a glyph, each at the place where it was dealt
    /// with.
    pub fn add_characters(&mut self, chars: &[char], drawn: &[Option<Glyph>]) -> (failed: Vec<char>)
        requires
            old(self).wf(),
        ensures
            final(self).wf(),
            final(self).grown_from(old(self), chars@, drawn@),
            failed@ == reported(
                old(self).held(),
                old(self).width(),
                chars@,
                drawn@,
                chars@.len(),
            ),
            final(self).rows() >= old(self).rows(),
            final(self).rows() == old(self).rows() ==> *final(self) == *old(self),
            final(self).rows() > old(self).rows() <==> exists|c: char|
                final(self).cached(c) && !old(self).cached(c),
    {
        let ghost start = *self;
        let ghost held = start.held();
        let ghost width = start.width();
        let mut failed: Vec<char> = Vec::new();
        let mut i: usize = 0;
        while i < chars.len()
            invariant
                i <= chars.len(),
                self.wf(),
                self.extends(&start),
                start == *old(self),
                held == start.held(),
                width == start.width(),
                self.pixels() == start.pixels() + rows_added(
                    held,
                    width,
                    chars@,
                    drawn@,
                    i as nat,
                ),
                forall|c: char| #[trigger]
                    self.cached(c) <==> start.cached(c) || exists|j: int|
                        0 <= j < i && #[trigger] offers(chars@, drawn@, width, c, j),
                forall|j: int|
                    0 <= j < i && #[trigger] taken(held, width, chars@, drawn@, j)
                        ==> self.holds_glyph(chars@[j], drawn@[j]->Some_0) && self.entry(
                        chars@[j],
                    ).y_index >= start.rows(),
                failed@ == reported(held, width, chars@, drawn@, i as nat),
                self.rows() >= start.rows(),
                self.rows() == start.rows() ==> *self == start,
                self.rows() > start.rows() ==> exists|c: char|
                    self.cached(c) && !start.cached(c),
            decreases chars.len() - i,
        {
            let c = chars[i];
            let ghost before = *self;
            let cached = if i < drawn.len() {
                self.add_character(c, &drawn[i])
            } else {
                self.glyphs.contains_key(&(c as u32))
            };
            if !cached {
                failed.push(c);
            }
            proof {
                let place = i as int;
                lemma_extends_transitive(self, &before, &start);
                assert(held.contains(c) == start.cached(c));
                // Whether this place is taken, and whether it leaves its character out.
                assert(before.cached(c) <==> start.cached(c) || exists|j: int|
                    0 <= j < place && #[trigger] offers(chars@, drawn@, width, c, j));
                assert(taken(held, width, chars@, drawn@, place) <==> !before.cached(c)
                    && packable(drawn@, place, width)) by {
                    if !before.cached(c) {
                        assert forall|j: int| 0 <= j < place implies !#[trigger] offers(
                            chars@,
                            drawn@,
                            width,
                            chars@[place],
                            j,
                        ) by {}
                    }
                    if taken(held, width, chars@, drawn@, place) && before.cached(c) {
                        let j = choose|j: int|
                            0 <= j < place && #[trigger] offers(chars@, drawn@, width, c, j);
                        assert(offers(chars@, drawn@, width, chars@[place], j));
                    }
                }
                assert(offers(chars@, drawn@, width, c, place) == packable(drawn@, place, width));
                assert(left_without(held, width, chars@, drawn@, place) <==> !cached) by {
                    if !cached {
                        assert forall|j: int| 0 <= j <= place implies !#[trigger] offers(
                            chars@,
                            drawn@,
                            width,
                            chars@[place],
                            j,
                        ) by {}
                    }
                    if left_without(held, width, chars@, drawn@, place) && cached {
                        if before.cached(c) {
                            let j = choose|j: int|
                                0 <= j < place && #[trigger] offers(chars@, drawn@, width, c, j);
                            assert(offers(chars@, drawn@, width, chars@[place], j));
                        } else {
                            assert(offers(chars@, drawn@, width, chars@[place], place));
                        }
                    }
                }
                assert forall|d: char| #[trigger]
                    self.cached(d) <==> start.cached(d) || exists|j: int|
                        0 <= j < place + 1 && #[trigger] offers(chars@, drawn@, width, d, j) by {
                    if before.cached(d) && !start.cached(d) {
                        let j = choose|j: int|
                            0 <= j < place && #[trigger] offers(chars@, drawn@, width, d, j);
                        assert(0 <= j < place + 1 && offers(chars@, drawn@, width, d, j));
                    }
                    if d == c && cached && !before.cached(c) {
                        assert(offers(chars@, drawn@, width, d, place));
                    }
                    if exists|j: int|
                        0 <= j < place + 1 && #[trigger] offers(chars@, drawn@, width, d, j) {
                        let j = choose|j: int|
                            0 <= j < place + 1 && #[trigger] offers(chars@, drawn@, width, d, j);
                        if j < place {
                            assert(before.cached(d));
                        } else {
                            assert(d == c);
                            assert(self.cached(d));
                        }
                    }
                }
                assert forall|j: int|
                    0 <= j < place + 1 && #[trigger] taken(
                        held,
                        width,
                        chars@,
                        drawn@,
                        j,
                    ) implies self.holds_glyph(chars@[j], drawn@[j]->Some_0) && self.entry(
                    chars@[j],
                ).y_index >= start.rows() by {
                    if j < place {
                        lemma_glyph_is_kept(&before, self, chars@[j], drawn@[j]->Some_0);
                    }
                }
                if cached && !before.cached(c) {
                    assert(!start.cached(c)) by {
                        if start.cached(c) {
                            assert(before.cached(c));
                        }
                    }
                    assert(self.pixels() =~= start.pixels() + rows_added(
                        held,
                        width,
                        chars@,
                        drawn@,
                        (place + 1) as nat,
                    ));
                }
            }
            i += 1;
        }
        failed
    }

    /// A cache built from what the backend drew: the fallback glyph, and for
    /// the `i`-th printable ASCII character `drawn[i]`. The characters for
    /// which nothing was drawn, or nothing that can be packed, are noted as
    /// left out.
    pub fn from_glyphs(
        unknown: Glyph,
        drawn: &[Option<Glyph>],
        font_key: crossfont::FontKey,
        glyph_size: crossfont::Size,
        metrics: crossfont::Metrics,
    ) -> (made: Result<GlyphMap, AtlasError>)
        ensures
            made is Ok <==> GlyphMap::can_begin(unknown),
            made matches Ok(map) ==> {
                &&& map.built_from(unknown, drawn@)
                &&& map.font() == font_key
                &&& map.size() == glyph_size
                &&& map.line_metrics() == metrics
            },
            made matches Err(error) ==> {
                &&& error is FallbackWidth <==> !(0 < unknown.width && unknown.width
                    * MAX_WIDTH_RATIO <= usize::MAX)
                &&& error is FallbackBitmap <==> 0 < unknown.width && unknown.width
                    * MAX_WIDTH_RATIO <= usize::MAX
            },
    {
        let mut map = match GlyphMap::with_fallback(unknown, font_key, glyph_size, metrics) {
            Ok(map) => map,
            Err(error) => {
                return Err(error);
            },
        };
        let ghost empty = map;
        let ascii = printable_ascii();
        let failed = map.add_characters(ascii.as_slice(), drawn);
        let ghost filled = map;
        map.undrawn = failed;
        proof {
            let width = empty.width();
            assert(empty.held() =~= Set::<char>::empty());
            assert(filled.begins_with(unknown));
            assert(map.rows() == filled.rows());
            assert(map.holds_band(map.fallback())) by {
                assert(filled.holds_band(filled.fallback()));
            }
            assert forall|c: char| map.cached(c) implies map.fallback().height < (
            #[trigger] map.entry(c)).y_index && map.holds_band(map.entry(c)) by {
                assert(filled.cached(c));
                assert(filled.holds_band(filled.entry(c)));
            }
            assert forall|c: char, d: char|
                #![trigger map.entry(c), map.entry(d)]
                map.cached(c) && map.cached(d) && c != d implies map.entry(c).y_index
                + map.entry(c).height < map.entry(d).y_index || map.entry(d).y_index
                + map.entry(d).height < map.entry(c).y_index by {
                assert(filled.cached(c) && filled.cached(d));
                assert(filled.entry(c).y_index + filled.entry(c).height < filled.entry(
                    d,
                ).y_index || filled.entry(d).y_index + filled.entry(d).height < filled.entry(
                    c,
                ).y_index);
            }
            assert forall|c: char| #[trigger]
                map.cached(c) <==> exists|i: int| #[trigger]
                    offers(ascii@, drawn@, map.width(), c, i) by {
                assert(filled.cached(c) == map.cached(c));
            }
            assert forall|i: int| #[trigger]
                taken(
                    Set::<char>::empty(),
                    map.width(),
                    ascii@,
                    drawn@,
                    i,
                ) implies map.holds_glyph(ascii@[i], drawn@[i]->Some_0) by {
                assert(filled.holds_glyph(ascii@[i], drawn@[i]->Some_0));
            }
        }
        Ok(map)
    }

    /// A cache built from what the backend drew, as `from_glyphs` builds it,
    /// with the line metrics that the backend gives for the font now. The
    /// glyphs have to be drawn before, since the metrics are those of the
    /// size that the font's glyphs were last drawn at.
    pub fn new(
        unknown: Glyph,
        drawn: &[Option<Glyph>],
        rasteriser: &crossfont::ft::FreeTypeRasterizer,
        font_key: crossfont::FontKey,
        glyph_size: crossfont::Size,
    ) -> (made: Result<GlyphMap, AtlasError>)
        ensures
            made is Ok ==> GlyphMap::can_begin(unknown),
            made matches Ok(map) ==> {
                &&& map.built_from(unknown, drawn@)
                &&& map.font() == font_key
                &&& map.size() == glyph_size
            },
            made matches Err(error) ==> {
                &&& error is FallbackWidth ==> !(0 < unknown.width && unknown.width
                    * MAX_WIDTH_RATIO <= usize::MAX)
                &&& error is FallbackBitmap ==> !GlyphMap::can_begin(unknown) && 0
                    < unknown.width && unknown.width * MAX_WIDTH_RATIO <= usize::MAX
            },
    {
        let metrics = match line_metrics(rasteriser, font_key, glyph_size) {
            Ok(metrics) => metrics,
            Err(error) => {
                return Err(AtlasError::Backend(error));
            },
        };
        GlyphMap::from_glyphs(unknown, drawn, font_key, glyph_size, metrics)
    }

    /// Whether a character has a glyph of its own.
    pub fn contains(&self, c: char) -> (found: bool)
        ensures
            found == self.cached(c),
    {
        self.glyphs.contains_key(&(c as u32))
    }

    /// The number of pixels in a buffer row.
    pub fn buffer_width(&self) -> (width: usize)
        ensures
            width == self.width(),
    {
        self.buffer_width
    }

    /// The number of rows in the buffer.
    pub fn buffer_height(&self) -> (height: usize)
        requires
            self.wf(),
        ensures
            height == self.rows(),
            height > 0,
    {
        proof {
            lemma_whole_rows(self.pixels().len(), self.width());
        }
        self.pixel_buffer.len() / self.buffer_width
    }

    /// The font that the glyphs are drawn from.
    pub fn font_key(&self) -> (key: crossfont::FontKey)
        ensures
            key == self.font(),
    {
        self.font_key
    }

    /// The size at which the glyphs are requested.
    pub fn glyph_size(&self) -> (size: crossfont::Size)
        ensures
            size == self.size(),
    {
        self.glyph_size
    }

    /// The printable ASCII characters that were left without a glyph when
    /// the cache was built.
    pub fn undrawn(&self) -> (characters: &Vec<char>)
        ensures
            characters@ == self.left_out(),
    {
        &self.undrawn
    }

    /// The font's line metrics at this scale, as the backend reported them.
    pub fn metrics(&self) -> (metrics: crossfont::Metrics)
        ensures
            metrics == self.line_metrics(),
    {
        self.metrics
    }

    /// The width of the text before the first line break, as the sum of the
    /// horizontal advances in raster pixels, and the line metrics, from which
    /// the height of a line is read: that height is the same whatever the
    /// characters. A character without a glyph counts with the fallback
    /// glyph's advance.
    pub fn measure_dims(&self, chars: &[char]) -> (dims: (i128, crossfont::Metrics))
        ensures
            dims.0 == self.advance_sum(first_line(chars@)),
            dims.1 == self.line_metrics(),
    {
        let mut x: i128 = 0;
        let mut i: usize = 0;
        while i < chars.len() && chars[i] != '\n'
            invariant
                i <= chars.len(),
                forall|j: int| 0 <= j < i ==> chars@[j] != '\n',
                x == self.advance_sum(chars@.take(i as int)),
                -0x8000_0000 * i <= x <= 0x8000_0000 * i,
            decreases chars.len() - i,
        {
            let entry = self.index_for(chars[i]);
            proof {
                assert(chars@.take(i + 1).drop_last() =~= chars@.take(i as int));
            }
            x = x + entry.ax as i128;
            i += 1;
        }
        proof {
            lemma_first_line(chars@, i as int);
        }
        (x, self.metrics)
    }

    /// The largest width among the lines of a text, in raster pixels, and the
    /// line metrics, from which the height of a line is read.
    pub fn measure_lines(&self, chars: &[char]) -> (dims: (i128, crossfont::Metrics))
        ensures
            dims.0 == self.lines_max(chars@),
            dims.1 == self.line_metrics(),
    {
        let mut best: Option<i128> = None;
        let mut x: i128 = 0;
        let mut i: usize = 0;
        while i < chars.len()
            invariant
                i <= chars.len(),
                x == self.line_sum(chars@.take(i as int)),
                -0x8000_0000 * i <= x <= 0x8000_0000 * i,
                match self.ended_lines_max(chars@.take(i as int)) {
                    Some(most) => best == Some(most as i128) && -0x8000_0000 * i <= most
                        <= 0x8000_0000 * i,
                    None => best is None,
                },
            decreases chars.len() - i,
        {
            proof {
                assert(chars@.take(i + 1).drop_last() =~= chars@.take(i as int));
            }
            if chars[i] == '\n' {
                best = Some(larger(best, x));
                x = 0;
            } else {
                let entry = self.index_for(chars[i]);
                x = x + entry.ax as i128;
            }
            i += 1;
        }
        proof {
            assert(chars@.take(chars@.len() as int) =~= chars@);
        }
        (larger(best, x), self.metrics)
    }

    /// The entry that answers for a character.
    fn index_for(&self, c: char) -> (entry: AtlasIndex)
        ensures
            entry == self.lookup(c),
    {
        match self.glyphs.get(&(c as u32)) {
            Some(entry) => *entry,
            None => self.unknown_position,
        }
    }

    /// The placement and texture region of a character's glyph, or of the
    /// fallback glyph where it has none. The glyph lies within the texture:
    /// it is no wider than the texture, and it ends before the last row.
    pub fn get_glyph_data(&self, c: char) -> (quad: GlyphQuad)
        requires
            self.wf(),
        ensures
            quad == self.quad_of(c),
            quad.rows > 0,
            quad.columns > 0,
            0 <= quad.width <= quad.columns,
            0 <= quad.height,
            quad.row + quad.height < quad.rows,
    {
        let entry = self.index_for(c);
        let rows = self.buffer_height();
        GlyphQuad {
            left: entry.left,
            top: entry.top,
            width: entry.width,
            height: entry.height,
            row: entry.y_index,
            rows,
            columns: self.buffer_width,
            ax: entry.ax,
            ay: entry.ay,
        }
    }

    /// The buffer as the bytes of a texture: four per pixel, row by row.
    pub fn texture_bytes(&self) -> (bytes: Vec<u8>)
        ensures
            bytes@ == flattened(self.pixels()),
            bytes@.len() == 4 * self.pixels().len(),
    {
        let mut bytes: Vec<u8> = Vec::new();
        let mut i: usize = 0;
        while i < self.pixel_buffer.len()
            invariant
                i <= self.pixel_buffer.len(),
                bytes@ == flattened(self.pixel_buffer@.take(i as int)),
            decreases self.pixel_buffer.len() - i,
        {
            let pixel = self.pixel_buffer[i];
            bytes.push(pixel.red);
            bytes.push(pixel.green);
            bytes.push(pixel.blue);
            bytes.push(pixel.alpha);
            proof {
                assert(self.pixel_buffer@.take(i + 1).drop_last() =~= self.pixel_buffer@.take(
                    i as int,
                ));
                assert(bytes@ =~= flattened(self.pixel_buffer@.take(i as int)) + seq![
                    pixel.red,
                    pixel.green,
                    pixel.blue,
                    pixel.alpha,
                ]);
            }
            i += 1;
        }
        proof {
            assert(self.pixel_buffer@.take(self.pixel_buffer@.len() as int) =~= self.pixel_buffer@);
            lemma_flattened_len(self.pixels());
        }
        bytes
    }
}

/// The larger of two widths, or the second where there is no first.
fn larger(first: Option<i128>, second: i128) -> (most: i128)
    ensures
        most as int == larger_of(
            match first {
                Some(first) => Some(first as int),
                None => None,
            },
            second as int,
        ),
{
    match first {
        Some(first) => if first >= second {
            first
        } else {
            second
        },
        None => second,
    }
}

/// Whether a list holds a character.
fn holds(list: &Vec<char>, c: char) -> (found: bool)
    ensures
        found == list@.contains(c),
{
    let mut i: usize = 0;
    while i < list.len()
        invariant
            i <= list.len(),
            forall|j: int| 0 <= j < i ==> list@[j] != c,
        decreases list.len() - i,
    {
        if list[i] == c {
            return true;
        }
        i += 1;
    }
    false
}

/// Appending whole rows to whole rows gives whole rows, and more of them.
pub proof fn lemma_rows_grow(buffer: Seq<Rgba>, added: Seq<Rgba>, width: nat)
    requires
        width > 0,
        buffer.len() % width == 0,
        added.len() % width == 0,
        added.len() >= width,
    ensures
        (buffer + added).len() % width == 0,
        (buffer + added).len() / width > buffer.len() / width,
        (buffer + added).len() / width == buffer.len() / width + added.len() / width,
{
    let a = buffer.len() as int;
    let b = added.len() as int;
    let w = width as int;
    lemma_fundamental_div_mod(a, w);
    lemma_fundamental_div_mod(b, w);
    assert(a + b == (a / w + b / w) * w + 0) by (nonlinear_arith)
        requires
            a == w * (a / w),
            b == w * (b / w),
    ;
    lemma_fundamental_div_mod_converse(a + b, w, a / w + b / w, 0);
    assert(b / w >= 1) by (nonlinear_arith)
        requires
            b == w * (b / w),
            b >= w,
            w > 0,
    ;
}

/// The printable ASCII characters are those of the run from space to tilde.
pub proof fn lemma_printable(c: char)
    ensures
        printable_ascii_seq().contains(c) <==> is_printable_ascii(c),
{
    let all = printable_ascii_seq();
    if is_printable_ascii(c) {
        let code = c as u32;
        let at = code - 32;
        vstd::utf8::char_u32_cast(c, code);
        assert(32 + at == code);
        assert(all[at] == c);
    }
    if all.contains(c) {
        let at = choose|at: int| 0 <= at < all.len() && all[at] == c;
        assert(c as u32 == 32 + at);
    }
}

/// A cache as it is built holds printable ASCII characters only; each of
/// them has a glyph of its own or is noted as left out, and a character is
/// noted only where no glyph that can be packed was drawn for it.
pub proof fn lemma_built_covers_ascii(map: &GlyphMap, unknown: Glyph, drawn: Seq<Option<Glyph>>)
    requires
        map.built_from(unknown, drawn),
    ensures
        map.holds_ascii_only(),
        map.covers_ascii(),
        forall|i: int|
            0 <= i < 95 ==> (map.cached(#[trigger] printable_ascii_seq()[i]) <==> packable(
                drawn,
                i,
                map.width(),
            )),
        (forall|i: int| 0 <= i < 95 ==> #[trigger] packable(drawn, i, map.width()))
            ==> map.left_out().len() == 0,
{
    let ascii = printable_ascii_seq();
    let none = Set::<char>::empty();
    let width = map.width();
    assert forall|c: char| #[trigger] map.cached(c) implies is_printable_ascii(c) by {
        let i = choose|i: int| #[trigger] offers(ascii, drawn, width, c, i);
        assert(ascii.contains(c));
        lemma_printable(c);
    }
    assert forall|i: int| 0 <= i < 95 implies (map.cached(#[trigger] ascii[i]) <==> packable(
        drawn,
        i,
        width,
    )) by {
        if packable(drawn, i, width) {
            assert(offers(ascii, drawn, width, ascii[i], i));
        }
        if map.cached(ascii[i]) {
            let j = choose|j: int| #[trigger] offers(ascii, drawn, width, ascii[i], j);
            assert(ascii[j] == ascii[i]);
            assert(j == i);
        }
    }
    lemma_reported(none, width, ascii, drawn, 95);
    assert forall|c: char| is_printable_ascii(c) implies #[trigger] map.cached(c)
        || map.left_out().contains(c) by {
        lemma_printable(c);
        let i = choose|i: int| 0 <= i < ascii.len() && ascii[i] == c;
        if !map.cached(c) {
            assert forall|j: int| 0 <= j <= i implies !#[trigger] offers(
                ascii,
                drawn,
                width,
                ascii[i],
                j,
            ) by {
                if offers(ascii, drawn, width, ascii[i], j) {
                    assert(map.cached(c));
                }
            }
            assert(left_without(none, width, ascii, drawn, i));
        }
    }
    assert forall|j: int| 0 <= j < map.left_out().len() implies is_printable_ascii(
        #[trigger] map.left_out()[j],
    ) by {
        let c = map.left_out()[j];
        assert(map.left_out().contains(c));
        let i = choose|i: int| 0 <= i < 95 && ascii[i] == c && left_without(
            none,
            width,
            ascii,
            drawn,
            i,
        );
        assert(ascii.contains(c));
        lemma_printable(c);
    }
    if forall|i: int| 0 <= i < 95 ==> #[trigger] packable(drawn, i, width) {
        if map.left_out().len() > 0 {
            let c = map.left_out()[0];
            assert(map.left_out().contains(c));
            let i = choose|i: int| 0 <= i < 95 && ascii[i] == c && left_without(
                none,
                width,
                ascii,
                drawn,
                i,
            );
            assert(packable(drawn, i, width));
            assert(offers(ascii, drawn, width, ascii[i], i));
        }
    }
}

/// A character is reported exactly where some place leaves it without a
/// glyph.
pub proof fn lemma_reported(
    held: Set<char>,
    width: nat,
    chars: Seq<char>,
    drawn: Seq<Option<Glyph>>,
    n: nat,
)
    requires
        n <= chars.len(),
    ensures
        forall|c: char|
            #[trigger] reported(held, width, chars, drawn, n).contains(c) <==> exists|i: int|
                0 <= i < n && chars[i] == c && left_without(held, width, chars, drawn, i),
    decreases n,
{
    let all = reported(held, width, chars, drawn, n);
    if n == 0 {
        assert forall|c: char| !#[trigger] all.contains(c) by {}
    } else {
        let before = reported(held, width, chars, drawn, (n - 1) as nat);
        lemma_reported(held, width, chars, drawn, (n - 1) as nat);
        assert forall|c: char| #[trigger]
            all.contains(c) <==> exists|i: int|
                0 <= i < n && chars[i] == c && left_without(held, width, chars, drawn, i) by {
            if all.contains(c) {
                let at = choose|at: int| 0 <= at < all.len() && all[at] == c;
                if at < before.len() {
                    assert(before[at] == c);
                    assert(before.contains(c));
                    let i = choose|i: int|
                        0 <= i < n - 1 && chars[i] == c && left_without(
                            held,
                            width,
                            chars,
                            drawn,
                            i,
                        );
                    assert(0 <= i < n && chars[i] == c && left_without(
                        held,
                        width,
                        chars,
                        drawn,
                        i,
                    ));
                } else {
                    assert(chars[n - 1] == c && left_without(held, width, chars, drawn, n - 1));
                }
            }
            if exists|i: int|
                0 <= i < n && chars[i] == c && left_without(held, width, chars, drawn, i) {
                let i = choose|i: int|
                    0 <= i < n && chars[i] == c && left_without(held, width, chars, drawn, i);
                if i < n - 1 {
                    assert(before.contains(c));
                    let at = choose|at: int| 0 <= at < before.len() && before[at] == c;
                    assert(all[at] == c);
                } else {
                    assert(all[all.len() - 1] == c);
                }
            }
        }
    }
}

/// A cache that was built with a packable glyph for every printable ASCII
/// character has a glyph for each of them, and for no other character.
pub proof fn lemma_full_ascii(map: &GlyphMap, unknown: Glyph, drawn: Seq<Option<Glyph>>)
    requires
        map.built_from(unknown, drawn),
        forall|i: int| 0 <= i < 95 ==> #[trigger] packable(drawn, i, map.width()),
    ensures
        forall|c: char| #[trigger] map.cached(c) <==> is_printable_ascii(c),
        map.left_out().len() == 0,
{
    lemma_built_covers_ascii(map, unknown, drawn);
    assert forall|c: char| #[trigger] map.cached(c) <==> is_printable_ascii(c) by {
        lemma_printable(c);
        if is_printable_ascii(c) {
            let i = choose|i: int| 0 <= i < 95 && printable_ascii_seq()[i] == c;
            assert(map.cached(printable_ascii_seq()[i]));
        }
    }
}

/// A cache that covers the printable ASCII characters goes on covering them,
/// however it grows.
pub proof fn lemma_cover_is_kept(earlier: &GlyphMap, later: &GlyphMap)
    requires
        earlier.covers_ascii(),
        later.extends(earlier),
    ensures
        later.covers_ascii(),
{
    assert forall|c: char| is_printable_ascii(c) implies #[trigger] later.cached(c)
        || later.left_out().contains(c) by {
        if earlier.cached(c) {
            assert(later.cached(c));
        }
    }
}

/// Measuring is additive along a line: a text without a line break, with
/// one more character that is no line break, is as wide as the text and the
/// advance of that character together.
pub proof fn lemma_measure_additive(map: &GlyphMap, text: Seq<char>, c: char)
    requires
        !text.contains('\n'),
        c != '\n',
    ensures
        first_line(text) == text,
        first_line(text.push(c)) == text.push(c),
        map.advance_sum(first_line(text.push(c))) == map.advance_sum(first_line(text))
            + map.lookup(c).ax,
{
    let longer = text.push(c);
    assert forall|j: int| 0 <= j < text.len() implies text[j] != '\n' by {
        assert(text.contains(text[j]));
    }
    lemma_first_line(text, text.len() as int);
    lemma_first_line(longer, longer.len() as int);
    assert(text.take(text.len() as int) =~= text);
    assert(longer.take(longer.len() as int) =~= longer);
    assert(longer.drop_last() =~= text);
}

/// A text of one line has that line's width as its largest.
pub proof fn lemma_one_line_max(map: &GlyphMap, text: Seq<char>)
    requires
        !text.contains('\n'),
    ensures
        map.ended_lines_max(text) is None,
        map.line_sum(text) == map.advance_sum(text),
        map.lines_max(text) == map.advance_sum(first_line(text)),
    decreases text.len(),
{
    assert forall|j: int| 0 <= j < text.len() implies text[j] != '\n' by {
        assert(text.contains(text[j]));
    }
    lemma_first_line(text, text.len() as int);
    assert(text.take(text.len() as int) =~= text);
    if text.len() > 0 {
        let shorter = text.drop_last();
        assert forall|j: int| 0 <= j < shorter.len() implies shorter[j] != '\n' by {
            assert(shorter[j] == text[j]);
        }
        assert(!shorter.contains('\n'));
        lemma_one_line_max(map, shorter);
    }
}

/// Measuring stops at the first line break: what follows it does not count.
pub proof fn lemma_measure_stops_at_break(line: Seq<char>, rest: Seq<char>)
    requires
        !line.contains('\n'),
    ensures
        first_line(line + seq!['\n'] + rest) == line,
{
    let text = line + seq!['\n'] + rest;
    assert forall|j: int| 0 <= j < line.len() implies text[j] != '\n' by {
        assert(line.contains(line[j]));
    }
    lemma_first_line(text, line.len() as int);
    assert(text.take(line.len() as int) =~= line);
}

/// Once a character is cached, every cache that grows out of this one answers
/// for it with the same entry, and so with the same advance.
pub proof fn lemma_cached_entry_is_kept(earlier: &GlyphMap, later: &GlyphMap, c: char)
    requires
        earlier.cached(c),
        later.extends(earlier),
    ensures
        later.cached(c),
        later.lookup(c) == earlier.lookup(c),
        later.lookup(c).ax == earlier.lookup(c).ax,
        later.lookup(c).ay == earlier.lookup(c).ay,
{
}

/// A character for which a glyph that can be packed is handed in has a glyph
/// afterwards, whatever was handed in for the characters before it, and
/// answers with the same advance from then on.
pub proof fn lemma_offered_is_cached(
    earlier: &GlyphMap,
    later: &GlyphMap,
    chars: Seq<char>,
    drawn: Seq<Option<Glyph>>,
    i: int,
)
    requires
        later.grown_from(earlier, chars, drawn),
        0 <= i < chars.len(),
        packable(drawn, i, earlier.width()),
    ensures
        later.cached(chars[i]),
{
    assert(offers(chars, drawn, earlier.width(), chars[i], i));
}

/// A glyph that a cache holds for a character stays where it is, however
/// the cache grows.
pub proof fn lemma_glyph_is_kept(earlier: &GlyphMap, later: &GlyphMap, c: char, glyph: Glyph)
    requires
        earlier.holds_glyph(c, glyph),
        later.extends(earlier),
    ensures
        later.holds_glyph(c, glyph),
{
    let start = earlier.entry(c).y_index * earlier.width();
    let rows = packed_rows(glyph, earlier.width());
    assert(later.pixels().subrange(start as int, start + rows.len()) =~= earlier.pixels().subrange(
        start as int,
        start + rows.len(),
    ));
}

/// The fallback glyph's rows stay the first of the buffer, however the cache
/// grows.
pub proof fn lemma_beginning_is_kept(earlier: &GlyphMap, later: &GlyphMap, unknown: Glyph)
    requires
        earlier.begins_with(unknown),
        later.extends(earlier),
    ensures
        later.begins_with(unknown),
{
}

/// A buffer of whole rows is as long as its rows together.
pub proof fn lemma_whole_rows_fill(len: nat, width: nat)
    requires
        width > 0,
        len % width == 0,
    ensures
        (len / width) * width == len,
{
    lemma_fundamental_div_mod(len as int, width as int);
    assert((len / width) * width == width * (len / width)) by (nonlinear_arith);
}

/// A cache that extends one that extends another extends that other.
pub proof fn lemma_extends_transitive(last: &GlyphMap, middle: &GlyphMap, first: &GlyphMap)
    requires
        last.extends(middle),
        middle.extends(first),
    ensures
        last.extends(first),
{
    assert forall|c: char| #[trigger] first.cached(c) implies last.cached(c) && last.entry(c)
        == first.entry(c) by {
        assert(middle.cached(c));
    }
}

/// A buffer of whole rows that is at least one row long has at least one row.
pub proof fn lemma_whole_rows(len: nat, width: nat)
    requires
        width > 0,
        len >= width,
    ensures
        len / width > 0,
{
    let n = len as int;
    let w = width as int;
    lemma_fundamental_div_mod(n, w);
    assert(n / w > 0) by (nonlinear_arith)
        requires
            n == w * (n / w) + (n % w),
            0 <= n % w,
            n % w < w,
            n >= w,
            w > 0,
    ;
}

/// The bytes of a run of pixels: red, green, blue and alpha of each, in turn.
pub open spec fn flattened(pixels: Seq<Rgba>) -> Seq<u8>
    decreases pixels.len(),
{
    if pixels.len() == 0 {
        Seq::empty()
    } else {
        let last = pixels.last();
        flattened(pixels.drop_last()) + seq![last.red, last.green, last.blue, last.alpha]
    }
}

/// A flattened buffer is exactly four times as long as the pixels it came
/// from.
pub proof fn lemma_flattened_len(pixels: Seq<Rgba>)
    ensures
        flattened(pixels).len() == 4 * pixels.len(),
    decreases pixels.len(),
{
    if pixels.len() > 0 {
        lemma_flattened_len(pixels.drop_last());
    }
}

/// The printable ASCII characters, space to tilde.
pub fn printable_ascii() -> (chars: Vec<char>)
    ensures
        chars@ == printable_ascii_seq(),
{
    let mut chars: Vec<char> = Vec::new();
    let mut code: u8 = 32;
    while code < 127
        invariant
            32 <= code <= 127,
            chars@ == printable_ascii_seq().take(code - 32),
        decreases 127 - code,
    {
        chars.push(code as char);
        code += 1;
        assert(chars@ =~= printable_ascii_seq().take(code - 32));
    }
    assert(chars@ =~= printable_ascii_seq());
    chars
}

} // verus!
