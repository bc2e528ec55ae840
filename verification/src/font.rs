//! Font names, and which of the system's fonts the editor offers.

use crate::raster::{load_font, system_font_names};
use crate::strings::{contains_str, has_substring, lowercase_of};
use crate::text::chars_of;
use vstd::prelude::*;

verus! {

/// Whether a lower-case font name is that of an upright monospace font of
/// regular weight: it says "mono", and neither "italic", "oblique" nor "bold".
pub open spec fn plain_monospace(lower: Seq<char>) -> bool {
    &&& has_substring(lower, seq!['m', 'o', 'n', 'o'])
    &&& !has_substring(lower, seq!['i', 't', 'a', 'l', 'i', 'c'])
    &&& !has_substring(lower, seq!['o', 'b', 'l', 'i', 'q', 'u', 'e'])
    &&& !has_substring(lower, seq!['b', 'o', 'l', 'd'])
}

/// Whether a font of this name is offered: the name can be handed to the
/// font backend, and in lower case it is that of a plain monospace font.
pub open spec fn offered(name: Seq<char>) -> bool {
    !name.contains('\0') && plain_monospace(lowercase_of(name))
}

/// The names among `names` that are offered, in the order given.
pub open spec fn offered_names(names: Seq<&str>) -> Seq<Seq<char>>
    decreases names.len(),
{
    if names.len() == 0 {
        Seq::empty()
    } else if offered(names.last()@) {
        offered_names(names.drop_last()).push(names.last()@)
    } else {
        offered_names(names.drop_last())
    }
}

/// Whether a name that is already in lower case is that of a plain monospace
/// font.
pub fn is_plain_monospace(lower: &str) -> (plain: bool)
    ensures
        plain == plain_monospace(lower@),
{
    proof {
        reveal_strlit("mono");
        reveal_strlit("italic");
        reveal_strlit("oblique");
        reveal_strlit("bold");
        assert("mono"@ =~= seq!['m', 'o', 'n', 'o']);
        assert("italic"@ =~= seq!['i', 't', 'a', 'l', 'i', 'c']);
        assert("oblique"@ =~= seq!['o', 'b', 'l', 'i', 'q', 'u', 'e']);
        assert("bold"@ =~= seq!['b', 'o', 'l', 'd']);
    }
    contains_str(lower, "mono") && !contains_str(lower, "italic") && !contains_str(
        lower,
        "oblique",
    ) && !contains_str(lower, "bold")
}

/// Whether a text holds a NUL character.
pub fn has_nul(text: &str) -> (found: bool)
    ensures
        found == text@.contains('\0'),
{
    let chars = chars_of(text);
    let mut i: usize = 0;
    while i < chars.len()
        invariant
            i <= chars.len(),
            chars@ == text@,
            forall|j: int| 0 <= j < i ==> chars@[j] != '\0',
        decreases chars.len() - i,
    {
        if chars[i] == '\0' {
            assert(text@[i as int] == '\0');
            return true;
        }
        i += 1;
    }
    false
}

/// How much the letters of a font lean.
#[derive(Clone, Copy, Debug, PartialEq, Eq, Structural)]
pub enum Slant {
    Normal,
    Italic,
    Oblique,
}

/// How heavy the strokes of a font are.
#[derive(Clone, Copy, Debug, PartialEq, Eq, Structural)]
pub enum Weight {
    Normal,
    Bold,
}

/// The name of a font that can be asked of the font backend.
#[derive(Debug, Clone, Copy, PartialEq, Eq)]
pub struct Font<'a>(&'a str);

impl<'a> Font<'a> {
    /// A font name never holds a NUL character.
    #[verifier::type_invariant]
    spec fn nul_free(self) -> bool {
        !self.0@.contains('\0')
    }

    /// The name as a sequence of characters.
    pub closed spec fn view(&self) -> Seq<char> {
        self.0@
    }

    /// The font of the given name; none where the name holds a NUL character.
    pub fn new(name: &'a str) -> (font: Option<Font<'a>>)
        ensures
            font is Some <==> !name@.contains('\0'),
            font matches Some(font) ==> font@ == name@,
    {
        if has_nul(name) {
            None
        } else {
            Some(Font(name))
        }
    }

    /// The font's name.
    pub fn name(&self) -> (name: &'a str)
        ensures
            name@ == self@,
            !name@.contains('\0'),
    {
        proof {
            use_type_invariant(self);
        }
        self.0
    }

    /// The font that the editor starts with.
    pub fn standard() -> (font: Font<'static>)
        ensures
            font@ == "Liberation Mono"@,
    {
        let name = "Liberation Mono";
        proof {
            reveal_strlit("Liberation Mono");
            assert(!name@.contains('\0'));
        }
        Font(name)
    }

    /// Asks the font backend for the font, in upright style and regular
    /// weight. The backend answers with the key of the nearest font that it
    /// finds, or with its error.
    pub fn load(
        &self,
        rasteriser: &mut crossfont::ft::FreeTypeRasterizer,
        size: crossfont::Size,
    ) -> (loaded: Result<crossfont::FontKey, crossfont::Error>)
    {
        load_font(rasteriser, self.name(), Slant::Normal, Weight::Normal, size)
    }

    /// Whether the editor offers a font of this name.
    pub fn accepts(name: &str) -> (accepted: bool)
        ensures
            accepted == offered(name@),
    {
        if has_nul(name) {
            return false;
        }
        let lower = name.to_lowercase();
        is_plain_monospace(lower.as_str())
    }

    /// The offered fonts among the given names, in the order given.
    pub fn select(names: &[&'a str]) -> (fonts: Vec<Font<'a>>)
        ensures
            fonts@.map_values(|font: Font<'a>| font@) == offered_names(names@),
    {
        let mut fonts: Vec<Font<'a>> = Vec::new();
        let mut i: usize = 0;
        while i < names.len()
            invariant
                i <= names.len(),
                fonts@.map_values(|font: Font<'a>| font@) == offered_names(names@.take(i as int)),
            decreases names.len() - i,
        {
            let name = names[i];
            let ghost before = fonts@;
            proof {
                assert(names@.take(i + 1).drop_last() =~= names@.take(i as int));
            }
            if Font::accepts(name) {
                fonts.push(Font(name));
                assert(fonts@.map_values(|font: Font<'a>| font@) =~= before.map_values(
                    |font: Font<'a>| font@,
                ).push(name@));
            }
            i += 1;
        }
        assert(names@.take(names@.len() as int) =~= names@);
        fonts
    }

    /// The system's fonts that the editor offers: the plain monospace ones.
    pub fn query() -> (fonts: Vec<Font<'static>>)
        ensures
            forall|i: int| 0 <= i < fonts@.len() ==> offered(#[trigger] fonts@[i]@),
    {
        let names = system_font_names();
        let fonts = Font::select(names.as_slice());
        proof {
            lemma_offered_names(names@);
            assert forall|i: int| 0 <= i < fonts@.len() implies offered(#[trigger] fonts@[i]@) by {
                assert(fonts@.map_values(|font: Font<'static>| font@)[i] == fonts@[i]@);
            }
        }
        fonts
    }
}

/// Every selected name is an offered one.
pub proof fn lemma_offered_names(names: Seq<&str>)
    ensures
        forall|i: int| 0 <= i < offered_names(names).len() ==> offered(#[trigger] offered_names(names)[i]),
    decreases names.len(),
{
    if names.len() > 0 {
        lemma_offered_names(names.drop_last());
        let earlier = offered_names(names.drop_last());
        assert forall|i: int| 0 <= i < offered_names(names).len() implies offered(
            #[trigger] offered_names(names)[i],
        ) by {
            if i < earlier.len() {
                assert(offered_names(names)[i] == earlier[i]);
            }
        }
    }
}

} // verus!
