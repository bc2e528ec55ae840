use crossfont::{FontKey, Metrics, Size};
use saphedit::glyph::{BitmapBuffer, Glyph, Rgba};
use saphedit::glyph_map::{printable_ascii, AtlasError, GlyphMap, GlyphQuad, MAX_WIDTH_RATIO};

fn metrics() -> Metrics {
    Metrics {
        average_advance: 6.0,
        line_height: 12.0,
        descent: -3.0,
        underline_position: -1.0,
        underline_thickness: 1.0,
        strikeout_position: 4.0,
        strikeout_thickness: 1.0,
    }
}

fn glyph(character: char, width: i32, height: i32, advance: (i32, i32)) -> Glyph {
    let pixels = (width.max(0) * height.max(0)) as usize;
    Glyph {
        character,
        width,
        height,
        top: height,
        left: 1,
        advance,
        buffer: BitmapBuffer::Rgb(vec![0x80; pixels * 3]),
    }
}

fn map_with_fallback() -> GlyphMap {
    GlyphMap::with_fallback(glyph('?', 4, 2, (6, 0)), FontKey::next(), Size::new(1.0), metrics())
        .unwrap()
}

#[test]
fn fallback_fixes_the_row_width() {
    let map = map_with_fallback();
    assert_eq!(MAX_WIDTH_RATIO, 3);
    assert_eq!(map.buffer_width(), 12);
    assert_eq!(map.buffer_height(), 3);
}

#[test]
fn fallback_without_width_is_refused() {
    let made =
        GlyphMap::with_fallback(glyph('?', 0, 2, (6, 0)), FontKey::next(), Size::new(1.0), metrics());
    assert!(matches!(made, Err(AtlasError::FallbackWidth)));
    let made =
        GlyphMap::with_fallback(glyph('?', -2, 2, (6, 0)), FontKey::next(), Size::new(1.0), metrics());
    assert!(matches!(made, Err(AtlasError::FallbackWidth)));
}

#[test]
fn fallback_of_width_one_is_accepted() {
    let made =
        GlyphMap::with_fallback(glyph('?', 1, 1, (1, 0)), FontKey::next(), Size::new(1.0), metrics());
    let map = made.unwrap();
    assert_eq!(map.buffer_width(), 3);
    assert_eq!(map.buffer_height(), 2);
}

#[test]
fn new_map_caches_no_character() {
    let map = map_with_fallback();
    for c in printable_ascii() {
        assert!(!map.contains(c));
    }
    assert!(!map.contains('?'));
}

#[test]
fn map_keeps_font_and_metrics() {
    let key = FontKey::next();
    let map =
        GlyphMap::with_fallback(glyph('?', 4, 2, (6, 0)), key, Size::new(1.0), metrics()).unwrap();
    assert_eq!(map.font_key(), key);
    assert_eq!(map.metrics().line_height, 12.0);
    assert_eq!(map.metrics().descent, -3.0);
}

#[test]
fn unknown_character_gets_the_fallback_quad() {
    let map = map_with_fallback();
    let quad = map.get_glyph_data('x');
    assert_eq!(
        quad,
        GlyphQuad {
            left: 1,
            top: 2,
            width: 4,
            height: 2,
            row: 0,
            rows: 3,
            columns: 12,
            ax: 6,
            ay: 0,
        }
    );
}

#[test]
fn added_glyph_lies_below_the_fallback() {
    let mut map = map_with_fallback();
    map.add_glyph('a', &glyph('a', 3, 4, (5, 1)));
    assert!(map.contains('a'));
    assert_eq!(map.buffer_height(), 3 + 4 + 1);
    let quad = map.get_glyph_data('a');
    assert_eq!(
        quad,
        GlyphQuad {
            left: 1,
            top: 4,
            width: 3,
            height: 4,
            row: 3,
            rows: 8,
            columns: 12,
            ax: 5,
            ay: 1,
        }
    );
}

#[test]
fn adding_a_cached_character_changes_nothing() {
    let mut map = map_with_fallback();
    map.add_glyph('a', &glyph('a', 3, 4, (5, 1)));
    let height = map.buffer_height();
    let bytes = map.texture_bytes();
    map.add_glyph('a', &glyph('a', 2, 9, (7, 7)));
    assert_eq!(map.buffer_height(), height);
    assert_eq!(map.texture_bytes(), bytes);
    assert_eq!(map.get_glyph_data('a').ax, 5);
    assert_eq!(map.get_glyph_data('a').ay, 1);
}

#[test]
fn cached_advance_stays_after_later_additions() {
    let mut map = map_with_fallback();
    map.add_glyph('a', &glyph('a', 3, 4, (5, 1)));
    let before = map.get_glyph_data('a');
    map.add_glyph('b', &glyph('b', 2, 2, (9, 0)));
    map.add_glyph('c', &glyph('c', 1, 1, (2, 0)));
    let after = map.get_glyph_data('a');
    assert_eq!(after.ax, before.ax);
    assert_eq!(after.ay, before.ay);
    assert_eq!(after.row, before.row);
    assert_eq!(after.rows, 8 + 3 + 2);
}

#[test]
fn geometry_is_finite_for_every_character() {
    let mut map = map_with_fallback();
    map.add_glyph('a', &glyph('a', 3, 4, (5, 1)));
    for c in ['a', 'b', '?', '\n', '\u{10ffff}', '\0'] {
        let quad = map.get_glyph_data(c);
        assert!(quad.rows > 0);
        assert!(quad.columns > 0);
        assert!(quad.row < quad.rows);
    }
}

#[test]
fn measure_sums_advances() {
    let mut map = map_with_fallback();
    map.add_glyph('a', &glyph('a', 3, 4, (5, 1)));
    map.add_glyph('b', &glyph('b', 2, 2, (9, -2)));
    let text: Vec<char> = "ab".chars().collect();
    assert_eq!(map.measure_dims(&text).0, 14);
}

#[test]
fn measure_is_additive() {
    let mut map = map_with_fallback();
    map.add_glyph('A', &glyph('A', 3, 4, (5, 1)));
    map.add_glyph('B', &glyph('B', 2, 2, (9, 0)));
    let a = map.measure_dims(&['A']);
    let ab = map.measure_dims(&['A', 'B']);
    let b = map.get_glyph_data('B');
    assert_eq!(a.0, 5);
    assert_eq!(ab.0, a.0 + b.ax as i128);
}

#[test]
fn measure_uses_the_fallback_for_unknown_characters() {
    let mut map = map_with_fallback();
    map.add_glyph('a', &glyph('a', 3, 4, (5, 0)));
    let text: Vec<char> = "axa".chars().collect();
    assert_eq!(map.measure_dims(&text).0, 16);
}

#[test]
fn measure_stops_at_the_line_break() {
    let mut map = map_with_fallback();
    map.add_glyph('a', &glyph('a', 3, 4, (5, 0)));
    let text: Vec<char> = "aa\naaaa".chars().collect();
    assert_eq!(map.measure_dims(&text).0, 10);
    let text: Vec<char> = "\naaaa".chars().collect();
    assert_eq!(map.measure_dims(&text).0, 0);
}

#[test]
fn measure_of_nothing_is_zero() {
    let map = map_with_fallback();
    assert_eq!(map.measure_dims(&[]).0, 0);
}

#[test]
fn texture_bytes_are_four_per_pixel() {
    let mut map = map_with_fallback();
    map.add_glyph('a', &glyph('a', 3, 4, (5, 1)));
    let bytes = map.texture_bytes();
    assert_eq!(bytes.len(), 4 * map.buffer_width() * map.buffer_height());
}

#[test]
fn texture_bytes_follow_the_pixels() {
    let unknown = Glyph {
        character: '?',
        width: 1,
        height: 1,
        top: 1,
        left: 0,
        advance: (1, 0),
        buffer: BitmapBuffer::Rgba(vec![10, 20, 30, 40]),
    };
    let map = GlyphMap::with_fallback(unknown, FontKey::next(), Size::new(1.0), metrics()).unwrap();
    assert_eq!(
        map.texture_bytes(),
        vec![
            10, 20, 30, 40, 0, 0, 0, 0, 0, 0, 0, 0,
            0, 0, 0, 0, 0, 0, 0, 0, 0, 0, 0, 0,
        ]
    );
}

#[test]
fn printable_ascii_is_space_to_tilde() {
    let chars = printable_ascii();
    assert_eq!(chars.len(), 95);
    assert_eq!(chars[0], ' ');
    assert_eq!(chars[94], '~');
    let text: String = chars.into_iter().collect();
    assert_eq!(
        text,
        " !\"#$%&'()*+,-./0123456789:;<=>?@ABCDEFGHIJKLMNOPQRSTUVWXYZ[\\]^_`abcdefghijklmnopqrstuvwxyz{|}~"
    );
}

#[test]
fn pixel_type_is_plain_data() {
    let pixel = Rgba { red: 1, green: 2, blue: 3, alpha: 4 };
    let copy = pixel;
    assert_eq!(pixel, copy);
}

#[test]
fn measure_lines_takes_the_largest_of_each() {
    let mut map = map_with_fallback();
    map.add_glyph('a', &glyph('a', 3, 4, (5, 0)));
    map.add_glyph('b', &glyph('b', 2, 2, (2, 3)));
    let text: Vec<char> = "aaa\nbb\na".chars().collect();
    assert_eq!(map.measure_lines(&text).0, 15);
}

#[test]
fn measure_lines_of_one_line_is_its_measure() {
    let mut map = map_with_fallback();
    map.add_glyph('a', &glyph('a', 3, 4, (5, 1)));
    let text: Vec<char> = "aaxa".chars().collect();
    assert_eq!(map.measure_lines(&text).0, map.measure_dims(&text).0);
    assert_eq!(map.measure_lines(&text).0, 21);
}

#[test]
fn measure_lines_counts_the_empty_last_line() {
    let mut map = map_with_fallback();
    map.add_glyph('n', &glyph('n', 3, 4, (-5, -1)));
    assert_eq!(map.measure_lines(&['n']).0, -5);
    assert_eq!(map.measure_lines(&['n', '\n']).0, 0);
    assert_eq!(map.measure_lines(&['n', '\n', 'n', 'n']).0, -5);
    assert_eq!(map.measure_lines(&[]).0, 0);
}

#[test]
fn fallback_with_a_short_bitmap_is_refused() {
    let mut unknown = glyph('?', 4, 2, (6, 0));
    unknown.height = 3;
    let made = GlyphMap::with_fallback(unknown, FontKey::next(), Size::new(1.0), metrics());
    assert!(matches!(made, Err(AtlasError::FallbackBitmap)));
    let mut unknown = glyph('?', 4, 2, (6, 0));
    unknown.height = -1;
    let made = GlyphMap::with_fallback(unknown, FontKey::next(), Size::new(1.0), metrics());
    assert!(matches!(made, Err(AtlasError::FallbackBitmap)));
}

#[test]
fn fallback_with_a_taller_bitmap_is_accepted() {
    let mut unknown = glyph('?', 4, 2, (6, 0));
    unknown.height = 1;
    let map =
        GlyphMap::with_fallback(unknown, FontKey::next(), Size::new(1.0), metrics()).unwrap();
    assert_eq!(map.buffer_height(), 3);
    assert_eq!(map.get_glyph_data('x').height, 1);
}

#[test]
fn add_glyph_says_whether_it_added() {
    let mut map = map_with_fallback();
    assert!(map.add_glyph('a', &glyph('a', 3, 4, (5, 1))));
    assert!(!map.add_glyph('a', &glyph('a', 3, 4, (5, 1))));
    assert!(map.add_glyph(' ', &glyph(' ', 0, 0, (6, 0))));
    assert_eq!(map.buffer_height(), 3 + 5 + 2);
}

#[test]
fn a_glyph_wider_than_a_row_is_left_out() {
    let mut map = map_with_fallback();
    let bytes = map.texture_bytes();
    assert!(!map.add_glyph('w', &glyph('w', 13, 1, (14, 0))));
    assert!(!map.contains('w'));
    assert_eq!(map.texture_bytes(), bytes);
    assert_eq!(map.get_glyph_data('w'), map.get_glyph_data('?'));
    assert!(map.add_glyph('w', &glyph('w', 12, 1, (14, 0))));
    assert!(map.contains('w'));
}

#[test]
fn a_glyph_with_a_short_bitmap_is_left_out() {
    let mut map = map_with_fallback();
    let mut short = glyph('s', 2, 2, (3, 0));
    short.height = 3;
    assert!(!map.add_glyph('s', &short));
    let mut negative = glyph('s', 2, 2, (3, 0));
    negative.height = -2;
    assert!(!map.add_glyph('s', &negative));
    assert!(!map.add_glyph('s', &glyph('s', -1, 0, (3, 0))));
    assert!(!map.contains('s'));
    assert_eq!(map.buffer_height(), 3);
}

#[test]
fn cached_glyphs_lie_inside_the_buffer() {
    let mut map = map_with_fallback();
    map.add_glyph('a', &glyph('a', 3, 4, (5, 1)));
    map.add_glyph(' ', &glyph(' ', 0, 0, (6, 0)));
    map.add_glyph('b', &glyph('b', 12, 2, (9, 0)));
    for c in ['a', ' ', 'b', '?', 'x'] {
        let quad = map.get_glyph_data(c);
        assert!(quad.width >= 0 && quad.width as usize <= quad.columns);
        assert!(quad.row + (quad.height as usize) < quad.rows);
    }
    let rows: Vec<usize> = ['?', 'a', ' ', 'b'].iter().map(|c| map.get_glyph_data(*c).row).collect();
    assert_eq!(rows, vec![0, 3, 8, 10]);
    assert_eq!(map.buffer_height(), 13);
}

#[test]
fn a_cached_glyph_stands_at_its_row() {
    let mut map = map_with_fallback();
    let drawn = Glyph {
        character: 'a',
        width: 1,
        height: 1,
        top: 1,
        left: 0,
        advance: (2, 0),
        buffer: BitmapBuffer::Rgba(vec![1, 2, 3, 4]),
    };
    assert!(map.add_glyph('a', &drawn));
    let quad = map.get_glyph_data('a');
    let bytes = map.texture_bytes();
    let start = 4 * quad.columns * quad.row;
    assert_eq!(&bytes[start..start + 8], &[1, 2, 3, 4, 0, 0, 0, 0]);
    assert!(bytes[start + 8..].iter().all(|byte| *byte == 0));
    assert_eq!(bytes.len(), start + 2 * 4 * quad.columns);
}

#[test]
fn a_cache_of_the_fallback_alone_notes_nothing_as_left_out() {
    let mut map = map_with_fallback();
    assert!(map.undrawn().is_empty());
    map.add_glyph('a', &glyph('a', 3, 4, (5, 1)));
    assert!(map.undrawn().is_empty());
}

#[test]
fn measured_height_is_that_of_a_line_whatever_the_characters() {
    let mut map = map_with_fallback();
    map.add_glyph('a', &glyph('a', 3, 4, (5, 7)));
    for text in ["", "a", "aaa", "a?a\nb", "\n"] {
        let text: Vec<char> = text.chars().collect();
        assert_eq!(map.measure_dims(&text).1.line_height, 12.0);
        assert_eq!(map.measure_lines(&text).1.line_height, 12.0);
        assert_eq!(map.measure_dims(&text).1.descent, -3.0);
    }
}

fn some(character: char, width: i32, height: i32, advance: (i32, i32)) -> Option<Glyph> {
    Some(glyph(character, width, height, advance))
}

#[test]
fn wanted_are_the_missing_characters_once_each() {
    let mut map = map_with_fallback();
    map.add_glyph('a', &glyph('a', 3, 4, (5, 1)));
    let text: Vec<char> = "banana bread".chars().collect();
    assert_eq!(map.wanted(&text), vec!['b', 'n', ' ', 'r', 'e', 'd']);
    assert_eq!(map.wanted(&['a', 'a']), Vec::<char>::new());
    assert_eq!(map.wanted(&[]), Vec::<char>::new());
    assert_eq!(map.wanted(&['?']), vec!['?']);
}

#[test]
fn add_characters_takes_the_glyphs_in_order() {
    let mut map = map_with_fallback();
    let failed = map.add_characters(
        &['a', 'b', 'c'],
        &[some('a', 3, 4, (5, 1)), some('b', 2, 2, (9, 0)), some('c', 1, 1, (2, 0))],
    );
    assert!(failed.is_empty());
    let rows: Vec<usize> = ['a', 'b', 'c'].iter().map(|c| map.get_glyph_data(*c).row).collect();
    assert_eq!(rows, vec![3, 8, 11]);
    assert_eq!(map.buffer_height(), 13);
    assert_eq!(map.get_glyph_data('b').ax, 9);
}

#[test]
fn add_characters_skips_what_was_not_drawn() {
    let mut map = map_with_fallback();
    let failed = map.add_characters(
        &['a', 'b', 'c', 'd'],
        &[None, some('b', 2, 2, (9, 0)), some('c', 13, 1, (2, 0)), some('d', 1, 1, (4, 0))],
    );
    assert_eq!(failed, vec!['a', 'c']);
    assert!(!map.contains('a'));
    assert!(map.contains('b'));
    assert!(!map.contains('c'));
    assert!(map.contains('d'));
    assert_eq!(map.get_glyph_data('a'), map.get_glyph_data('?'));
    assert_eq!(map.get_glyph_data('d').row, 3 + 3);
}

#[test]
fn add_characters_reports_characters_without_a_place_in_the_glyphs() {
    let mut map = map_with_fallback();
    let failed = map.add_characters(&['a', 'b', 'c'], &[some('a', 3, 4, (5, 1))]);
    assert_eq!(failed, vec!['b', 'c']);
    assert!(map.contains('a'));
    let failed = map.add_characters(&['a', 'b'], &[]);
    assert_eq!(failed, vec!['b']);
}

#[test]
fn add_characters_keeps_the_first_glyph_of_a_character() {
    let mut map = map_with_fallback();
    let failed = map.add_characters(
        &['a', 'a', 'b', 'b', 'b'],
        &[some('a', 3, 4, (5, 1)), some('a', 1, 1, (7, 0)), None, some('b', 2, 2, (9, 0)), None],
    );
    assert_eq!(failed, vec!['b']);
    assert_eq!(map.get_glyph_data('a').ax, 5);
    assert_eq!(map.get_glyph_data('b').ax, 9);
    assert_eq!(map.buffer_height(), 3 + 5 + 3);
    let bytes = map.texture_bytes();
    let failed = map.add_characters(&['a', 'b'], &[some('a', 1, 1, (7, 0)), None]);
    assert!(failed.is_empty());
    assert_eq!(map.texture_bytes(), bytes);
}

#[test]
fn add_character_says_whether_the_character_is_cached() {
    let mut map = map_with_fallback();
    assert!(!map.add_character('a', &None));
    assert!(!map.add_character('a', &some('a', 13, 1, (5, 1))));
    assert_eq!(map.buffer_height(), 3);
    assert!(map.add_character('a', &some('a', 3, 4, (5, 1))));
    assert!(map.add_character('a', &None));
    assert!(map.add_character('a', &some('a', 1, 1, (7, 0))));
    assert_eq!(map.get_glyph_data('a').ax, 5);
    assert_eq!(map.buffer_height(), 8);
}

fn ascii_glyphs(width: i32) -> Vec<Option<Glyph>> {
    printable_ascii().into_iter().map(|c| some(c, width, 1, (c as i32, 0))).collect()
}

#[test]
fn a_cache_built_from_all_glyphs_holds_the_printable_ascii_characters() {
    let map = GlyphMap::from_glyphs(
        glyph('?', 4, 2, (6, 0)),
        &ascii_glyphs(2),
        FontKey::next(),
        Size::new(1.0),
        metrics(),
    )
    .unwrap();
    assert!(map.undrawn().is_empty());
    for (i, c) in printable_ascii().into_iter().enumerate() {
        assert!(map.contains(c));
        let quad = map.get_glyph_data(c);
        assert_eq!(quad.row, 3 + 2 * i);
        assert_eq!(quad.ax, c as i32);
    }
    assert!(!map.contains('\u{7f}'));
    assert!(!map.contains('\u{1f}'));
    assert_eq!(map.buffer_width(), 12);
    assert_eq!(map.buffer_height(), 3 + 2 * 95);
    assert_eq!(map.get_glyph_data('\u{e9}').row, 0);
    assert_eq!(map.get_glyph_data('\u{e9}').ax, 6);
    assert_ne!(map.get_glyph_data('?').row, 0);
}

#[test]
fn a_cache_notes_the_characters_it_was_built_without() {
    let mut drawn = ascii_glyphs(2);
    drawn[1] = None;
    drawn[10] = some('*', 13, 1, (1, 0));
    drawn.truncate(93);
    let map = GlyphMap::from_glyphs(
        glyph('?', 4, 2, (6, 0)),
        &drawn,
        FontKey::next(),
        Size::new(1.0),
        metrics(),
    )
    .unwrap();
    assert_eq!(map.undrawn(), &vec!['!', '*', '}', '~']);
    assert!(map.contains(' '));
    assert!(!map.contains('!'));
    assert!(map.contains('"'));
    assert!(!map.contains('*'));
    assert!(map.contains('|'));
    assert!(!map.contains('~'));
    assert_eq!(map.get_glyph_data('"').row, 3 + 2);
    assert_eq!(map.buffer_height(), 3 + 2 * 91);
}

#[test]
fn a_cache_is_not_built_on_a_bad_fallback() {
    let made = GlyphMap::from_glyphs(
        glyph('?', 0, 2, (6, 0)),
        &ascii_glyphs(2),
        FontKey::next(),
        Size::new(1.0),
        metrics(),
    );
    assert!(matches!(made, Err(AtlasError::FallbackWidth)));
    let mut unknown = glyph('?', 4, 2, (6, 0));
    unknown.height = 5;
    let made =
        GlyphMap::from_glyphs(unknown, &ascii_glyphs(2), FontKey::next(), Size::new(1.0), metrics());
    assert!(matches!(made, Err(AtlasError::FallbackBitmap)));
}

#[test]
fn glyph_bands_do_not_meet() {
    let mut map = map_with_fallback();
    map.add_characters(
        &['a', ' ', 'b', 'c'],
        &[some('a', 3, 4, (5, 1)), some(' ', 0, 0, (6, 0)), some('b', 12, 2, (9, 0)), some('c', 1, 1, (1, 0))],
    );
    let mut bands: Vec<(usize, usize)> = ['?', 'a', ' ', 'b', 'c']
        .iter()
        .map(|c| map.get_glyph_data(*c))
        .map(|quad| (quad.row, quad.row + quad.height as usize))
        .collect();
    bands.sort();
    for pair in bands.windows(2) {
        assert!(pair[0].1 < pair[1].0);
    }
    assert!(bands[4].1 < map.buffer_height());
}
