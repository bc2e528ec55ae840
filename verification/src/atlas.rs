//! The glyph atlas: one glyph cache for each scale that was ever selected,
//! one of them current. The caches are built by the caller from what the
//! backend draws; the atlas decides which cache is current, which one text
//! is measured in, and when the texture has to be uploaded.

use crate::glyph::Glyph;
use crate::glyph_map::{packable, GlyphMap, GlyphQuad};
use crate::text::first_line;
use std::collections::BTreeMap;
use vstd::prelude::*;

verus! {

broadcast use {vstd::std_specs::btree::group_btree_axioms, vstd::laws_cmp::group_laws_cmp};

/// The number of scale keys in one unit of scale: a scale is quantised to
/// steps of one part in this many.
pub const SCALE_STEPS: u32 = 32;

/// The scale key that a new atlas starts at: four units of scale.
pub const MIN_SCALE: u32 = 128;

/// The letter size that a new atlas starts with.
pub const DEFAULT_LETTER_SIZE: u32 = 2;

/// The glyph caches of one font, by scale.
pub struct GlyphAtlas {
    /// The caches built so far, by scale key.
    sizes: BTreeMap<u32, GlyphMap>,
    font_key: crossfont::FontKey,
    /// The texture that the current cache is shown through.
    texture1: u32,
    /// The key of the current cache.
    current_scale: u32,
    /// The largest key among the caches.
    largest_scale: u32,
    /// How large the letters are on screen.
    letter_size: u32,
}

impl GlyphAtlas {
    /// The caches by scale key.
    pub closed spec fn maps(&self) -> Map<u32, GlyphMap> {
        self.sizes@
    }

    /// The key of the current cache.
    pub closed spec fn scale(&self) -> u32 {
        self.current_scale
    }

    /// The key of the cache that text is measured in.
    pub closed spec fn measuring_scale(&self) -> u32 {
        self.largest_scale
    }

    /// The letter size last selected.
    pub closed spec fn letters(&self) -> u32 {
        self.letter_size
    }

    /// The font that the caches are drawn from.
    pub closed spec fn font(&self) -> crossfont::FontKey {
        self.font_key
    }

    /// The texture handle given at construction.
    pub closed spec fn texture(&self) -> u32 {
        self.texture1
    }

    /// The current cache.
    pub open spec fn current(&self) -> GlyphMap {
        self.maps()[self.scale()]
    }

    /// There is a cache for the current scale; every cache is well formed;
    /// text is measured in the cache of the largest scale.
    pub open spec fn wf(&self) -> bool {
        &&& self.maps().contains_key(self.scale())
        &&& self.maps().contains_key(self.measuring_scale())
        &&& forall|key: u32| #[trigger]
            self.maps().contains_key(key) ==> {
                &&& key <= self.measuring_scale()
                &&& self.maps()[key].wf()
            }
    }

    /// Everything but the caches is the same in both atlases.
    pub open spec fn same_setup(&self, other: &GlyphAtlas) -> bool {
        &&& self.texture() == other.texture()
        &&& self.font() == other.font()
        &&& self.scale() == other.scale()
        &&& self.measuring_scale() == other.measuring_scale()
        &&& self.letters() == other.letters()
    }

    /// The caches other than the current one are the same in both atlases,
    /// and both have caches for the same scales.
    pub open spec fn same_other_caches(&self, other: &GlyphAtlas) -> bool {
        &&& self.maps().dom() == other.maps().dom()
        &&& forall|key: u32|
            key != other.scale() && #[trigger] other.maps().contains_key(key) ==> self.maps()[key]
                == other.maps()[key]
    }

    /// An atlas with one cache, which becomes the cache of `MIN_SCALE`: the
    /// atlas is populated from the start.
    pub fn new(texture1: u32, font_key: crossfont::FontKey, map: GlyphMap) -> (atlas: GlyphAtlas)
        requires
            map.wf(),
        ensures
            atlas.wf(),
            atlas.maps() == Map::<u32, GlyphMap>::empty().insert(MIN_SCALE, map),
            atlas.font() == font_key,
            atlas.texture() == texture1,
            atlas.scale() == MIN_SCALE,
            atlas.measuring_scale() == MIN_SCALE,
            atlas.letters() == DEFAULT_LETTER_SIZE,
    {
        let mut sizes: BTreeMap<u32, GlyphMap> = BTreeMap::new();
        sizes.insert(MIN_SCALE, map);
        GlyphAtlas {
            sizes,
            font_key,
            texture1,
            current_scale: MIN_SCALE,
            largest_scale: MIN_SCALE,
            letter_size: DEFAULT_LETTER_SIZE,
        }
    }

    /// Switches to another font. Every cache is dropped, and the given one,
    /// drawn from that font, becomes the cache of the current scale, so the
    /// texture has to be uploaded anew.
    pub fn change_font(&mut self, font_key: crossfont::FontKey, map: GlyphMap)
        requires
            old(self).wf(),
            map.wf(),
        ensures
            final(self).wf(),
            final(self).maps() == Map::<u32, GlyphMap>::empty().insert(old(self).scale(), map),
            final(self).font() == font_key,
            final(self).measuring_scale() == old(self).scale(),
            final(self).scale() == old(self).scale(),
            final(self).letters() == old(self).letters(),
            final(self).texture() == old(self).texture(),
    {
        let mut sizes: BTreeMap<u32, GlyphMap> = BTreeMap::new();
        sizes.insert(self.current_scale, map);
        self.sizes = sizes;
        self.font_key = font_key;
        self.largest_scale = self.current_scale;
    }

    /// Makes the cache of the given scale key the current one, and sets the
    /// letter size. Answers with the key that was current before, and with
    /// whether the texture has to be uploaded: it has whenever the key
    /// changes. A key that was selected before keeps the cache it has, and
    /// a cache that is handed in for it is dropped. A key that was never
    /// selected takes the cache that is handed in; where none is, there is
    /// no answer, and only the letter size changes.
    pub fn select_scale(
        &mut self,
        scale_key: u32,
        letter_size: u32,
        cache: Option<GlyphMap>,
    ) -> (switched: Option<(u32, bool)>)
        requires
            old(self).wf(),
            cache matches Some(map) ==> map.wf(),
        ensures
            final(self).wf(),
            final(self).font() == old(self).font(),
            final(self).texture() == old(self).texture(),
            final(self).letters() == letter_size,
            switched is Some <==> old(self).maps().contains_key(scale_key) || cache is Some,
            switched == if old(self).maps().contains_key(scale_key) || cache is Some {
                Some((old(self).scale(), scale_key != old(self).scale()))
            } else {
                None
            },
            final(self).scale() == if switched is Some {
                scale_key
            } else {
                old(self).scale()
            },
            final(self).maps() == if old(self).maps().contains_key(scale_key) || cache is None {
                old(self).maps()
            } else {
                old(self).maps().insert(scale_key, cache->Some_0)
            },
            final(self).measuring_scale() == if switched is Some && scale_key > old(
                self,
            ).measuring_scale() {
                scale_key
            } else {
                old(self).measuring_scale()
            },
    {
        self.letter_size = letter_size;
        let previous = self.current_scale;
        if previous == scale_key {
            return Some((previous, false));
        }
        if !self.sizes.contains_key(&scale_key) {
            match cache {
                Some(map) => {
                    self.sizes.insert(scale_key, map);
                    if scale_key > self.largest_scale {
                        self.largest_scale = scale_key;
                    }
                },
                None => {
                    return None;
                },
            }
        }
        self.current_scale = scale_key;
        Some((previous, true))
    }

    /// The characters that have to be drawn before the current cache has a
    /// glyph for each of the given ones: those it lacks, each once, in the
    /// order in which they first occur.
    pub fn wanted(&self, chars: &[char]) -> (wanted: Vec<char>)
        requires
            self.wf(),
        ensures
            wanted@ == crate::glyph_map::wanted_of(self.current().held(), chars@, chars@.len()),
            forall|c: char|
                #![trigger wanted@.contains(c)]
                #![trigger chars@.contains(c)]
                wanted@.contains(c) <==> !self.current().cached(c) && chars@.contains(c),
            wanted@.no_duplicates(),
    {
        self.get_current().wanted(chars)
    }

    /// Makes sure that the characters have glyphs in the current cache, given
    /// what the backend drew for each, as `GlyphMap::add_characters` does.
    /// Answers with whether the texture has to be uploaded, which it has
    /// when the buffer has grown, and with the characters that are left
    /// without a glyph.
    pub fn add_characters(&mut self, chars: &[char], drawn: &[Option<Glyph>]) -> (added: (bool, Vec<char>))
        requires
            old(self).wf(),
        ensures
            final(self).wf(),
            final(self).same_setup(old(self)),
            final(self).same_other_caches(old(self)),
            final(self).current().grown_from(&old(self).current(), chars@, drawn@),
            added.1@ == crate::glyph_map::reported(
                old(self).current().held(),
                old(self).current().width(),
                chars@,
                drawn@,
                chars@.len(),
            ),
            added.0 == (final(self).current().rows() != old(self).current().rows()),
            !added.0 ==> final(self).maps() == old(self).maps(),
            added.0 <==> exists|c: char|
                final(self).current().cached(c) && !old(self).current().cached(c),
    {
        let key = self.current_scale;
        let mut map = match self.sizes.remove(&key) {
            Some(map) => map,
            None => {
                proof {
                    assert(false);
                }
                vstd::pervasive::unreached()
            },
        };
        let old_height = map.buffer_height();
        let failed = map.add_characters(chars, drawn);
        let new_height = map.buffer_height();
        let ghost after = map;
        self.sizes.insert(key, map);
        assert(self.maps().dom() =~= old(self).maps().dom());
        assert(self.current() == after);
        if old_height == new_height {
            assert(self.maps() =~= old(self).maps());
        }
        (old_height != new_height, failed)
    }

    /// The current cache.
    pub fn get_current(&self) -> (map: &GlyphMap)
        requires
            self.wf(),
        ensures
            *map == self.current(),
            map.wf(),
    {
        match self.sizes.get(&self.current_scale) {
            Some(map) => map,
            None => {
                proof {
                    assert(false);
                }
                vstd::pervasive::unreached()
            },
        }
    }

    /// The cache of the largest scale selected so far.
    pub fn get_largest(&self) -> (map: &GlyphMap)
        requires
            self.wf(),
        ensures
            *map == self.maps()[self.measuring_scale()],
            map.wf(),
    {
        match self.sizes.get(&self.largest_scale) {
            Some(map) => map,
            None => {
                proof {
                    assert(false);
                }
                vstd::pervasive::unreached()
            },
        }
    }

    /// The width of the text before the first line break, in raster pixels of
    /// the largest scale selected so far, where glyphs are drawn in most
    /// detail, and that cache's line metrics, from which the height of a
    /// line is read.
    pub fn measure_dims(&self, chars: &[char]) -> (dims: (i128, crossfont::Metrics))
        requires
            self.wf(),
        ensures
            dims.0 == self.maps()[self.measuring_scale()].advance_sum(first_line(chars@)),
            dims.1 == self.maps()[self.measuring_scale()].line_metrics(),
    {
        self.get_largest().measure_dims(chars)
    }

    /// The largest width among the lines of a text, in raster pixels of the
    /// largest scale selected so far, and that cache's line metrics.
    pub fn measure_lines(&self, chars: &[char]) -> (dims: (i128, crossfont::Metrics))
        requires
            self.wf(),
        ensures
            dims.0 == self.maps()[self.measuring_scale()].lines_max(chars@),
            dims.1 == self.maps()[self.measuring_scale()].line_metrics(),
    {
        self.get_largest().measure_lines(chars)
    }

    /// The placement and texture region of a character's glyph in the current
    /// cache. A character that the cache lacks is cached first, given what
    /// the backend drew for it; where nothing was drawn, or nothing that can
    /// be packed, the fallback glyph answers for it. Says also whether the
    /// texture has to be uploaded, which it has when the character was
    /// cached just now.
    pub fn get_glyph_data(&mut self, c: char, drawn: &Option<Glyph>) -> (found: (GlyphQuad, bool))
        requires
            old(self).wf(),
        ensures
            final(self).wf(),
            final(self).same_setup(old(self)),
            final(self).same_other_caches(old(self)),
            final(self).current().extends(&old(self).current()),
            forall|d: char|
                d != c ==> final(self).current().cached(d) == old(self).current().cached(d),
            final(self).current().cached(c) == (old(self).current().cached(c) || packable(
                seq![*drawn],
                0,
                old(self).current().width(),
            )),
            found.0 == final(self).current().quad_of(c),
            found.0.rows > 0,
            found.0.columns > 0,
            0 <= found.0.width <= found.0.columns,
            0 <= found.0.height,
            found.0.row + found.0.height < found.0.rows,
            found.1 == (final(self).current().cached(c) && !old(self).current().cached(c)),
            found.1 ==> {
                &&& final(self).current().holds_glyph(c, drawn->Some_0)
                &&& final(self).current().entry(c).y_index == old(self).current().rows()
                &&& final(self).current().pixels() == old(self).current().pixels()
                    + crate::packing::packed_rows(drawn->Some_0, old(self).current().width())
            },
            !found.1 ==> final(self).maps() == old(self).maps(),
    {
        let key = self.current_scale;
        let mut map = match self.sizes.remove(&key) {
            Some(map) => map,
            None => {
                proof {
                    assert(false);
                }
                vstd::pervasive::unreached()
            },
        };
        let before = map.contains(c);
        let after = map.add_character(c, drawn);
        let quad = map.get_glyph_data(c);
        let ghost grown = map;
        self.sizes.insert(key, map);
        assert(self.maps().dom() =~= old(self).maps().dom());
        assert(self.current() == grown);
        if before || !after {
            assert(self.maps() =~= old(self).maps());
        }
        (quad, after && !before)
    }

    /// Whether there is a cache for a scale key.
    pub fn has_scale(&self, scale_key: u32) -> (found: bool)
        ensures
            found == self.maps().contains_key(scale_key),
    {
        self.sizes.contains_key(&scale_key)
    }

    /// The number of caches.
    pub fn cache_count(&self) -> (count: usize)
        ensures
            count == self.maps().len(),
    {
        self.sizes.len()
    }

    /// The key of the current cache.
    pub fn current_scale(&self) -> (key: u32)
        ensures
            key == self.scale(),
    {
        self.current_scale
    }

    /// The key of the cache that text is measured in.
    pub fn largest_scale(&self) -> (key: u32)
        ensures
            key == self.measuring_scale(),
    {
        self.largest_scale
    }

    /// The letter size last selected.
    pub fn letter_size(&self) -> (size: u32)
        ensures
            size == self.letters(),
    {
        self.letter_size
    }

    /// The texture handle given at construction.
    pub fn texture1(&self) -> (texture: u32)
        ensures
            texture == self.texture(),
    {
        self.texture1
    }

    /// The font that the caches are drawn from.
    pub fn font_key(&self) -> (key: crossfont::FontKey)
        ensures
            key == self.font(),
    {
        self.font_key
    }
}

} // verus!
