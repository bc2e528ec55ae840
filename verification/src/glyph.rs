//! Rasterised glyphs and their pixels.

use vstd::prelude::*;

verus! {

/// One texture pixel: four channels of eight bits each.
#[derive(Clone, Copy, Debug, PartialEq, Eq, Structural)]
pub struct Rgba {
    pub red: u8,
    pub green: u8,
    pub blue: u8,
    pub alpha: u8,
}

impl Rgba {
    /// The pixel that padding is made of: every channel zero.
    pub open spec fn transparent() -> Rgba {
        Rgba { red: 0, green: 0, blue: 0, alpha: 0 }
    }

    /// A transparent pixel.
    pub fn blank() -> (pixel: Rgba)
        ensures
            pixel == Rgba::transparent(),
    {
        Rgba { red: 0, green: 0, blue: 0, alpha: 0 }
    }
}

/// The bytes of a rasterised glyph, row by row, with their channel layout.
#[derive(Debug)]
pub enum BitmapBuffer {
    /// Three bytes per pixel: red, green, blue.
    Rgb(Vec<u8>),
    /// Four bytes per pixel: red, green, blue, alpha.
    Rgba(Vec<u8>),
}

/// The pixels that a run of three-byte groups stands for. Each group becomes an
/// opaque pixel; bytes left over after the last whole group are dropped.
pub open spec fn rgb_pixels(bytes: Seq<u8>) -> Seq<Rgba> {
    Seq::new(
        (bytes.len() / 3) as nat,
        |i: int| Rgba { red: bytes[3 * i], green: bytes[3 * i + 1], blue: bytes[3 * i + 2], alpha: 0xff },
    )
}

/// The pixels that a run of four-byte groups stands for; bytes left over after
/// the last whole group are dropped.
pub open spec fn rgba_pixels(bytes: Seq<u8>) -> Seq<Rgba> {
    Seq::new(
        (bytes.len() / 4) as nat,
        |i: int|
            Rgba {
                red: bytes[4 * i],
                green: bytes[4 * i + 1],
                blue: bytes[4 * i + 2],
                alpha: bytes[4 * i + 3],
            },
    )
}

impl BitmapBuffer {
    /// The pixels held in the buffer.
    pub open spec fn pixels(&self) -> Seq<Rgba> {
        match self {
            BitmapBuffer::Rgb(bytes) => rgb_pixels(bytes@),
            BitmapBuffer::Rgba(bytes) => rgba_pixels(bytes@),
        }
    }

    /// Unpacks the buffer into four-channel pixels.
    pub fn to_pixels(&self) -> (out: Vec<Rgba>)
        ensures
            out@ == self.pixels(),
    {
        let mut out: Vec<Rgba> = Vec::new();
        match self {
            BitmapBuffer::Rgb(bytes) => {
                let count: usize = bytes.len() / 3;
                let mut i: usize = 0;
                while i < count
                    invariant
                        count == bytes.len() / 3,
                        i <= count,
                        out@ == rgb_pixels(bytes@).take(i as int),
                    decreases count - i,
                {
                    let pixel = Rgba {
                        red: bytes[3 * i],
                        green: bytes[3 * i + 1],
                        blue: bytes[3 * i + 2],
                        alpha: 0xff,
                    };
                    out.push(pixel);
                    i += 1;
                    assert(out@ =~= rgb_pixels(bytes@).take(i as int));
                }
                assert(out@ =~= rgb_pixels(bytes@));
            },
            BitmapBuffer::Rgba(bytes) => {
                let count: usize = bytes.len() / 4;
                let mut i: usize = 0;
                while i < count
                    invariant
                        count == bytes.len() / 4,
                        i <= count,
                        out@ == rgba_pixels(bytes@).take(i as int),
                    decreases count - i,
                {
                    let pixel = Rgba {
                        red: bytes[4 * i],
                        green: bytes[4 * i + 1],
                        blue: bytes[4 * i + 2],
                        alpha: bytes[4 * i + 3],
                    };
                    out.push(pixel);
                    i += 1;
                    assert(out@ =~= rgba_pixels(bytes@).take(i as int));
                }
                assert(out@ =~= rgba_pixels(bytes@));
            },
        }
        out
    }
}

/// A glyph as the rasteriser hands it over: its bitmap and its placement, all in
/// whole pixels of the raster it was drawn at.
#[derive(Debug)]
pub struct Glyph {
    pub character: char,
    /// Pixels per bitmap row.
    pub width: i32,
    /// Number of bitmap rows.
    pub height: i32,
    /// Distance from the baseline up to the first bitmap row.
    pub top: i32,
    /// Distance from the pen position to the first bitmap column.
    pub left: i32,
    /// How far the pen moves after the glyph, horizontally and vertically.
    pub advance: (i32, i32),
    pub buffer: BitmapBuffer,
}

} // verus!
