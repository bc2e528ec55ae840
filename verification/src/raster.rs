//! The boundary to the font backend. Nothing in this file is proved: each item
//! states what the rest of the crate takes on trust about `crossfont`. Glyphs
//! are not drawn here: the backend can abort while it draws, on a bitmap in
//! a format it does not know, so the caller draws them and hands them in.

use crate::font::{Slant, Weight};
use crossfont::Rasterize;
use vstd::prelude::*;

verus! {

/// `crossfont::ft::FreeTypeRasterizer`, the FreeType backend that
/// `crossfont::Rasterizer` names on this platform. Opaque: it is handed to
/// the backend and back.
#[verifier::external_type_specification]
#[verifier::external_body]
pub struct ExRasterizer(crossfont::ft::FreeTypeRasterizer);

/// `crossfont::FontKey`, the backend's name for a loaded font. Opaque.
#[verifier::external_type_specification]
#[verifier::external_body]
pub struct ExFontKey(crossfont::FontKey);

/// `crossfont::Size`, a font size. Opaque: it is made from a floating-point
/// number, which only the caller can do.
#[verifier::external_type_specification]
#[verifier::external_body]
pub struct ExSize(crossfont::Size);

/// `crossfont::Metrics`, the line metrics of a font as floating-point
/// numbers. Opaque: it is stored for the caller to read.
#[verifier::external_type_specification]
#[verifier::external_body]
pub struct ExMetrics(crossfont::Metrics);

/// `crossfont::Error`, what the backend reports when it fails. Opaque.
#[verifier::external_type_specification]
#[verifier::external_body]
pub struct ExError(crossfont::Error);

/// `Rasterize::load_font` for a family name with a slant and a weight. The
/// backend turns the name into a C string and aborts on a NUL character,
/// which the precondition rules out. Which font it finds is the machine's
/// affair: nothing is claimed of the answer.
#[verifier::external_body]
pub(crate) fn load_font(
    rasteriser: &mut crossfont::ft::FreeTypeRasterizer,
    name: &str,
    slant: Slant,
    weight: Weight,
    size: crossfont::Size,
) -> (loaded: Result<crossfont::FontKey, crossfont::Error>)
    requires
        !name@.contains('\0'),
{
    let slant = match slant {
        Slant::Normal => crossfont::Slant::Normal,
        Slant::Italic => crossfont::Slant::Italic,
        Slant::Oblique => crossfont::Slant::Oblique,
    };
    let weight = match weight {
        Weight::Normal => crossfont::Weight::Normal,
        Weight::Bold => crossfont::Weight::Bold,
    };
    let style = crossfont::Style::Description { slant, weight };
    rasteriser.load_font(&crossfont::FontDesc::new(name, style), size)
}

/// `Rasterize::metrics`: the line metrics of a font at the size that its
/// glyphs were last drawn at. An unknown key is answered with an error.
#[verifier::external_body]
pub(crate) fn line_metrics(
    rasteriser: &crossfont::ft::FreeTypeRasterizer,
    font_key: crossfont::FontKey,
    size: crossfont::Size,
) -> (measured: Result<crossfont::Metrics, crossfont::Error>)
{
    rasteriser.metrics(font_key, size)
}

/// The full names of the fonts that Fontconfig lists for the system, through
/// `crossfont::ft::fc::Config::get_current`, `ConfigRef::get_fonts` and
/// `PatternRef::fullname`. Which fonts are installed is the machine's affair:
/// nothing is claimed of the names.
#[verifier::external_body]
pub(crate) fn system_font_names() -> (names: Vec<&'static str>) {
    crossfont::ft::fc::Config::get_current()
        .get_fonts(crossfont::ft::fc::SetName::System)
        .into_iter()
        .flat_map(|font| font.fullname())
        .collect()
}

} // verus!
