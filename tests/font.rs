use alacritty::font::{Family, FontDesc, FontKey, GlyphKey, KeyCounter, Size, Variant};
use alacritty::util::encode_char;

#[test]
fn get_font_families() {
    let families = alacritty::font::get_font_families(vec![Family::new(
        "DejaVu Sans Mono".to_string(),
        vec![Variant::new("Book".to_string(), "/fonts/DejaVuSansMono.ttf".to_string(), 0)],
    )]);
    assert!(!families.is_empty());
}

#[test]
fn families_keyed_by_name_later_wins() {
    let families = alacritty::font::get_font_families(vec![
        Family::new("A".to_string(), vec![]),
        Family::new("B".to_string(), vec![Variant::new("Bold".to_string(), "b.ttf".to_string(), 1)]),
        Family::new("A".to_string(), vec![Variant::new("Italic".to_string(), "a.ttf".to_string(), 2)]),
    ]);
    assert_eq!(families.len(), 2);
    assert_eq!(families["A"].variants().len(), 1);
    assert_eq!(families["B"].name(), "B");
}

#[test]
fn family_variants_by_style() {
    let f = Family::new(
        "Mono".to_string(),
        vec![
            Variant::new("Regular".to_string(), "one.ttf".to_string(), 0),
            Variant::new("Bold".to_string(), "two.ttf".to_string(), 1),
            Variant::new("Regular".to_string(), "three.ttf".to_string(), 2),
        ],
    );
    let v = f.variants();
    assert_eq!(v.len(), 2);
    assert_eq!(v["Regular"].path(), "three.ttf");
    assert_eq!(v["Regular"].index(), 2);
    assert_eq!(v["Bold"].style(), "Bold");
}

#[test]
fn font_keys_are_distinct() {
    let mut counter = KeyCounter::new();
    let a = FontKey::next(&mut counter);
    let b = FontKey::next(&mut counter);
    assert_ne!(a, b);
    assert_eq!((a.token(), b.token()), (0, 1));
    assert!(counter.has_next());
}

#[test]
fn glyph_keys_compare_by_value() {
    let mut counter = KeyCounter::new();
    let k = FontKey::next(&mut counter);
    let g1 = GlyphKey { c: 'a', font_key: k, size: Size::from_half_points(24) };
    let g2 = GlyphKey { c: 'a', font_key: k, size: Size::from_half_points(24) };
    assert_eq!(g1, g2);
    assert_eq!(g1.size.half_points(), 24);
    let d = FontDesc::new("Mono".to_string(), "Bold".to_string());
    assert_eq!(d, FontDesc::new("Mono".to_string(), "Bold".to_string()));
    assert_eq!((d.name().as_str(), d.style().as_str()), ("Mono", "Bold"));
}

#[test]
fn encode_char_utf8() {
    assert_eq!(encode_char('a'), vec![0x61]);
    assert_eq!(encode_char('é'), vec![0xC3, 0xA9]);
    assert_eq!(encode_char('€'), vec![0xE2, 0x82, 0xAC]);
    assert_eq!(encode_char('😀'), vec![0xF0, 0x9F, 0x98, 0x80]);
    for c in ['a', 'ß', '中', '𝄞', '\u{7f}', '\u{80}', '\u{7ff}', '\u{800}', '\u{ffff}', '\u{10000}', '\u{10ffff}'] {
        let mut buf = [0u8; 4];
        assert_eq!(encode_char(c), c.encode_utf8(&mut buf).as_bytes().to_vec());
    }
}

fn record(format: &str, families: &[&str]) -> alacritty::font::FontRecord {
    alacritty::font::FontRecord {
        format: format.to_string(),
        families: families.iter().map(|f| f.to_string()).collect(),
    }
}

#[test]
fn select_families_filters_sorts_and_dedups() {
    let fonts = vec![
        record("TrueType", &["Noto Sans", "DejaVu Sans"]),
        record("Type 1", &["Nimbus"]),
        record("CFF", &["Cantarell", "Noto Sans"]),
        record("TrueType", &["DejaVu Sans"]),
        record("PCF", &["Fixed"]),
    ];
    let names = alacritty::font::select_families(&fonts);
    assert_eq!(names, vec!["Cantarell", "DejaVu Sans", "Noto Sans"]);
}

#[test]
fn select_families_of_nothing_is_empty() {
    assert!(alacritty::font::select_families(&vec![]).is_empty());
    assert!(alacritty::font::select_families(&vec![record("PCF", &["Fixed"])]).is_empty());
}
