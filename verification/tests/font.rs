use crossfont::{Rasterize, Rasterizer, Size};
use saphedit::font::{has_nul, is_plain_monospace, Font};

#[test]
fn plain_monospace_names() {
    assert!(is_plain_monospace("dejavu sans mono"));
    assert!(is_plain_monospace("monospace"));
    assert!(is_plain_monospace("mono"));
    assert!(!is_plain_monospace("dejavu sans"));
    assert!(!is_plain_monospace(""));
    assert!(!is_plain_monospace("mon o"));
}

#[test]
fn styled_monospace_names_are_not_plain() {
    assert!(!is_plain_monospace("dejavu sans mono bold"));
    assert!(!is_plain_monospace("liberation mono italic"));
    assert!(!is_plain_monospace("dejavu sans mono oblique"));
    assert!(!is_plain_monospace("dejavu sans mono bold oblique"));
    assert!(!is_plain_monospace("boldmono"));
}

#[test]
fn plain_monospace_reads_lower_case_only() {
    assert!(!is_plain_monospace("DejaVu Sans Mono"));
    assert!(is_plain_monospace("mono BOLD"));
}

#[test]
fn accepts_whatever_the_case() {
    assert!(Font::accepts("DejaVu Sans Mono"));
    assert!(Font::accepts("LIBERATION MONO"));
    assert!(!Font::accepts("DejaVu Sans Mono BOLD"));
    assert!(!Font::accepts("Liberation Mono Italic"));
    assert!(!Font::accepts("Nimbus Mono Oblique"));
    assert!(!Font::accepts("DejaVu Serif"));
}

#[test]
fn accepts_no_name_with_a_nul() {
    assert!(!Font::accepts("Mono\0"));
    assert!(has_nul("Mono\0"));
    assert!(has_nul("\0"));
    assert!(!has_nul("Mono"));
    assert!(!has_nul(""));
}

#[test]
fn font_of_a_name() {
    let font = Font::new("DejaVu Sans Mono").unwrap();
    assert_eq!(font.name(), "DejaVu Sans Mono");
    assert!(Font::new("a\0b").is_none());
    assert!(Font::new("").is_some());
    assert!(Font::new("Comic Sans").is_some());
}

#[test]
fn fonts_compare_by_name() {
    assert_eq!(Font::new("Mono"), Font::new("Mono"));
    assert_ne!(Font::new("Mono"), Font::new("Mono 2"));
}

#[test]
fn select_keeps_the_offered_names_in_order() {
    let names = [
        "DejaVu Sans",
        "Liberation Mono",
        "DejaVu Sans Mono Bold",
        "DejaVu Sans Mono",
        "Bad\0Mono",
        "Liberation Mono",
    ];
    let fonts = Font::select(&names);
    let selected: Vec<&str> = fonts.iter().map(|font| font.name()).collect();
    assert_eq!(selected, vec!["Liberation Mono", "DejaVu Sans Mono", "Liberation Mono"]);
}

#[test]
fn select_of_nothing_is_empty() {
    assert!(Font::select(&[]).is_empty());
}

#[test]
fn query_offers_plain_monospace_fonts_only() {
    for font in Font::query() {
        let lower = font.name().to_lowercase();
        assert!(lower.contains("mono"), "{}", font.name());
        assert!(!lower.contains("italic"), "{}", font.name());
        assert!(!lower.contains("oblique"), "{}", font.name());
        assert!(!lower.contains("bold"), "{}", font.name());
    }
}

#[test]
fn loading_a_font_gives_a_key_with_metrics() {
    let mut rasteriser = Rasterizer::new().unwrap();
    let font = Font::new("monospace").unwrap();
    let key = font.load(&mut rasteriser, Size::new(1.0)).unwrap();
    assert!(rasteriser.metrics(key, Size::new(1.0)).is_ok());
    let again = font.load(&mut rasteriser, Size::new(1.0)).unwrap();
    assert_eq!(key, again);
}

#[test]
fn the_standard_font_is_liberation_mono() {
    assert_eq!(Font::standard().name(), "Liberation Mono");
    assert!(Font::accepts(Font::standard().name()));
}
