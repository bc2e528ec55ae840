//! Packing glyph bitmaps into a buffer of rows that all have one width.

use crate::glyph::{BitmapBuffer, Glyph, Rgba};
use vstd::prelude::*;

verus! {

/// Where a glyph lies in the buffer, and how to place it on the baseline. All
/// lengths are whole pixels of the raster the glyph was drawn at.
#[derive(Clone, Copy, Debug, PartialEq, Eq, Structural)]
pub struct AtlasIndex {
    /// The buffer row at which the glyph's bitmap starts.
    pub y_index: usize,
    pub top: i32,
    pub left: i32,
    pub width: i32,
    pub height: i32,
    /// Horizontal advance.
    pub ax: i32,
    /// Vertical advance.
    pub ay: i32,
}

/// Row `r` of a bitmap whose rows are `width` pixels long.
pub open spec fn bitmap_row(bitmap: Seq<Rgba>, width: nat, r: int) -> Seq<Rgba> {
    bitmap.subrange(r * width, (r + 1) * width)
}

/// A row brought to `width` pixels: cut where it is longer, filled up with
/// transparent pixels where it is shorter.
pub open spec fn fitted_row(row: Seq<Rgba>, width: nat) -> Seq<Rgba> {
    Seq::new(
        width,
        |j: int|
            if j < row.len() {
                row[j]
            } else {
                Rgba::transparent()
            },
    )
}

/// The first `rows` rows of a bitmap, each fitted to `dest_width`, one after
/// another.
pub open spec fn fitted_rows(bitmap: Seq<Rgba>, src_width: nat, dest_width: nat, rows: nat) -> Seq<
    Rgba,
>
    decreases rows,
{
    if rows == 0 {
        Seq::empty()
    } else {
        fitted_rows(bitmap, src_width, dest_width, (rows - 1) as nat) + fitted_row(
            bitmap_row(bitmap, src_width, rows - 1),
            dest_width,
        )
    }
}

/// A bitmap with rows of `src_width` pixels, re-laid with rows of `dest_width`
/// pixels. Pixels after the last whole row are dropped. A bitmap of width
/// zero becomes one transparent row.
pub open spec fn expanded(bitmap: Seq<Rgba>, src_width: nat, dest_width: nat) -> Seq<Rgba> {
    if src_width == 0 {
        fitted_row(Seq::empty(), dest_width)
    } else {
        fitted_rows(bitmap, src_width, dest_width, bitmap.len() / src_width)
    }
}

/// The rows that a glyph adds to a buffer of the given width: its bitmap, then
/// one transparent row that keeps it apart from the next glyph. A glyph of
/// negative width has no bitmap rows.
pub open spec fn packed_rows(glyph: Glyph, buffer_width: nat) -> Seq<Rgba> {
    let bitmap = if glyph.width < 0 {
        Seq::empty()
    } else {
        expanded(glyph.buffer.pixels(), glyph.width as nat, buffer_width)
    };
    bitmap + fitted_row(Seq::empty(), buffer_width)
}

/// The number of bitmap rows that a glyph adds to a buffer: the whole rows of
/// its bitmap; one transparent row where its width is zero; none where its
/// width is negative.
pub open spec fn bitmap_rows(glyph: Glyph) -> nat {
    if glyph.width < 0 {
        0
    } else if glyph.width == 0 {
        1
    } else {
        glyph.buffer.pixels().len() / (glyph.width as nat)
    }
}

/// Whether a glyph can be packed into rows of the given width: it is no wider
/// than a row, and its bitmap has at least as many rows as its height says.
pub open spec fn fits_row(glyph: Glyph, buffer_width: nat) -> bool {
    &&& 0 <= glyph.width <= buffer_width
    &&& 0 <= glyph.height <= bitmap_rows(glyph)
}

/// The index entry of a glyph whose rows start at row `y_index`.
pub open spec fn index_of(glyph: Glyph, y_index: usize) -> AtlasIndex {
    AtlasIndex {
        y_index,
        top: glyph.top,
        left: glyph.left,
        width: glyph.width,
        height: glyph.height,
        ax: glyph.advance.0,
        ay: glyph.advance.1,
    }
}

/// Fitted rows always fill whole rows of the destination.
pub proof fn lemma_fitted_rows_len(bitmap: Seq<Rgba>, src_width: nat, dest_width: nat, rows: nat)
    ensures
        fitted_rows(bitmap, src_width, dest_width, rows).len() == rows * dest_width,
    decreases rows,
{
    if rows == 0 {
        assert(0 * dest_width == 0) by (nonlinear_arith);
    } else {
        let before = (rows - 1) as nat;
        lemma_fitted_rows_len(bitmap, src_width, dest_width, before);
        assert(before * dest_width + dest_width == rows * dest_width) by (nonlinear_arith)
            requires
                before + 1 == rows,
        ;
    }
}

/// What a glyph adds to a buffer is a whole number of rows, and at least one.
pub proof fn lemma_packed_rows_len(glyph: Glyph, buffer_width: nat)
    requires
        buffer_width > 0,
    ensures
        packed_rows(glyph, buffer_width).len() % buffer_width == 0,
        packed_rows(glyph, buffer_width).len() >= buffer_width,
        packed_rows(glyph, buffer_width).len() == (bitmap_rows(glyph) + 1) * buffer_width,
        packed_rows(glyph, buffer_width).len() / buffer_width == bitmap_rows(glyph) + 1,
{
    let pixels = glyph.buffer.pixels();
    let rows: nat = bitmap_rows(glyph);
    if glyph.width > 0 {
        lemma_fitted_rows_len(pixels, glyph.width as nat, buffer_width, rows);
    }
    assert(packed_rows(glyph, buffer_width).len() == (rows + 1) * buffer_width) by {
        assert((rows + 1) * buffer_width == rows * buffer_width + buffer_width)
            by (nonlinear_arith);
    }
    assert(((rows + 1) * buffer_width) % buffer_width == 0 && (rows + 1) * buffer_width
        >= buffer_width && ((rows + 1) * buffer_width) / buffer_width == rows + 1)
        by (nonlinear_arith)
        requires
            buffer_width > 0,
    ;
}

/// Whether a glyph can be packed into rows of the given width.
pub fn glyph_fits(glyph: &Glyph, buffer_width: usize) -> (fits: bool)
    ensures
        fits == fits_row(*glyph, buffer_width as nat),
{
    if glyph.width < 0 || glyph.height < 0 {
        return false;
    }
    let width: usize = glyph.width as usize;
    if width > buffer_width {
        return false;
    }
    let pixels: usize = match &glyph.buffer {
        BitmapBuffer::Rgb(bytes) => bytes.len() / 3,
        BitmapBuffer::Rgba(bytes) => bytes.len() / 4,
    };
    let rows: usize = if width == 0 {
        1
    } else {
        pixels / width
    };
    glyph.height as usize <= rows
}

/// Re-lays a bitmap of `src_width` pixels per row with `dest_width` pixels per
/// row.
pub fn expand_width(bitmap: Vec<Rgba>, src_width: usize, dest_width: usize) -> (out: Vec<Rgba>)
    ensures
        out@ == expanded(bitmap@, src_width as nat, dest_width as nat),
{
    let mut out: Vec<Rgba> = Vec::new();
    if src_width == 0 {
        let mut j: usize = 0;
        while j < dest_width
            invariant
                j <= dest_width,
                out@ == fitted_row(Seq::empty(), dest_width as nat).take(j as int),
            decreases dest_width - j,
        {
            out.push(Rgba::blank());
            j += 1;
            assert(out@ =~= fitted_row(Seq::empty(), dest_width as nat).take(j as int));
        }
        assert(out@ =~= fitted_row(Seq::empty(), dest_width as nat));
        return out;
    }
    let rows: usize = bitmap.len() / src_width;
    let mut r: usize = 0;
    let mut base: usize = 0;
    while r < rows
        invariant
            src_width > 0,
            rows == bitmap.len() / src_width,
            r <= rows,
            base == r * src_width,
            base <= bitmap.len(),
            out@ == fitted_rows(bitmap@, src_width as nat, dest_width as nat, r as nat),
        decreases rows - r,
    {
        assert((r + 1) * src_width <= bitmap.len()) by (nonlinear_arith)
            requires
                r < rows,
                rows == bitmap.len() / src_width,
                src_width > 0,
        ;
        assert((r + 1) * src_width == base + src_width) by (nonlinear_arith)
            requires
                base == r * src_width,
        ;
        let ghost row = bitmap_row(bitmap@, src_width as nat, r as int);
        let ghost done = out@;
        let mut j: usize = 0;
        while j < dest_width
            invariant
                j <= dest_width,
                base + src_width <= bitmap.len(),
                row == bitmap@.subrange(base as int, base + src_width),
                out@ == done + fitted_row(row, dest_width as nat).take(j as int),
            decreases dest_width - j,
        {
            if j < src_width {
                out.push(bitmap[base + j]);
            } else {
                out.push(Rgba::blank());
            }
            j += 1;
            assert(out@ =~= done + fitted_row(row, dest_width as nat).take(j as int));
        }
        assert(out@ =~= done + fitted_row(row, dest_width as nat));
        base += src_width;
        r += 1;
    }
    out
}

/// Appends a glyph's rows to the buffer and says where they went.
pub fn push_pixels(glyph: &Glyph, pixel_buffer: &mut Vec<Rgba>, buffer_width: usize) -> (index:
    AtlasIndex)
    requires
        buffer_width > 0,
    ensures
        final(pixel_buffer)@ == old(pixel_buffer)@ + packed_rows(*glyph, buffer_width as nat),
        index == index_of(*glyph, (old(pixel_buffer)@.len() / buffer_width as nat) as usize),
        index.y_index == old(pixel_buffer)@.len() / buffer_width as nat,
{
    let y_index: usize = pixel_buffer.len() / buffer_width;
    let index = AtlasIndex {
        y_index,
        top: glyph.top,
        left: glyph.left,
        width: glyph.width,
        height: glyph.height,
        ax: glyph.advance.0,
        ay: glyph.advance.1,
    };
    let ghost before = pixel_buffer@;
    if glyph.width >= 0 {
        let pixels = glyph.buffer.to_pixels();
        let mut rows = expand_width(pixels, glyph.width as usize, buffer_width);
        pixel_buffer.append(&mut rows);
    }
    let ghost with_bitmap = pixel_buffer@;
    let mut j: usize = 0;
    while j < buffer_width
        invariant
            j <= buffer_width,
            pixel_buffer@ == with_bitmap + fitted_row(Seq::empty(), buffer_width as nat).take(
                j as int,
            ),
        decreases buffer_width - j,
    {
        pixel_buffer.push(Rgba::blank());
        j += 1;
        assert(pixel_buffer@ =~= with_bitmap + fitted_row(Seq::empty(), buffer_width as nat).take(
            j as int,
        ));
    }
    assert(pixel_buffer@ =~= before + packed_rows(*glyph, buffer_width as nat));
    index
}

} // verus!
