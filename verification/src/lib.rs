//! The logic of a small text editor front end: a glyph atlas that packs
//! rasterised characters into one texture, the editing state machine, and the
//! arithmetic of the draw calls.
//!
//! Lengths are whole numbers throughout. A glyph cache keeps its glyphs in
//! the pixels of the raster they were drawn at; a cache of scale key `k`
//! stands for a scale of `k / SCALE_STEPS`, so one of its pixels is
//! `SCALE_STEPS / k` units long on screen. Turning lengths into screen units
//! is left to the caller, and so are the calls that draw.
//!
//! The glyphs themselves are drawn by the caller too. A cache says which
//! characters it wants drawn, and takes what was drawn for them; what it
//! makes of the glyphs depends on nothing else.

pub mod atlas;
pub mod editor;
pub mod font;
pub mod glyph;
pub mod glyph_map;
pub mod layout;
pub mod packing;
pub mod raster;
pub mod rope;
pub mod shader;
pub mod strings;
pub mod text;
