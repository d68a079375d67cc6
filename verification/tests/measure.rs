use font_atlas::FontError;
use font_atlas::PackConfig;
use font_atlas::RawGlyph;
use font_atlas::ScaledFont;
use font_atlas::is_text_whitespace;
use font_atlas::pack_glyphs;

fn glyph(w: i32, h: i32, adv: i64) -> RawGlyph {
    RawGlyph {
        width: w,
        rows: h,
        pitch: w,
        buffer: vec![255; (w * h) as usize],
        bearing_left: 0,
        bearing_top: h,
        advance_x: adv * 64,
    }
}

/// A-E advance 10, digits 0-4 advance 10 with height 20, space advance 25.
fn table() -> ScaledFont {
    let charset = vec!['A', 'B', 'C', 'D', 'E', '0', '1', '2', '3', '4', ' '];
    let glyphs: Vec<RawGlyph> = charset
        .iter()
        .map(|c| if *c == ' ' { glyph(0, 0, 25) } else { glyph(5, 20, 10) })
        .collect();
    pack_glyphs(&charset, &glyphs, 32, 50 * 64, 25 * 64, PackConfig::default()).unwrap()
}

#[test]
fn empty_text_measures_zero() {
    let sf = table();
    assert_eq!(sf.get_width("").unwrap(), 0);
    assert_eq!(sf.get_width_chars(&vec![]).unwrap(), 0);
}

#[test]
fn width_sums_advances() {
    let sf = table();
    assert_eq!(sf.get_width("AB").unwrap(), 20);
    assert_eq!(sf.get_width("ABCDE").unwrap(), 50);
}

#[test]
fn width_is_nonnegative_on_table_text() {
    let sf = table();
    assert!(sf.get_width("A B12  E").unwrap() >= 0);
    assert!(sf.get_width("   ").unwrap() >= 0);
}

#[test]
fn the_two_width_entry_points_treat_whitespace_differently() {
    let sf = table();
    // get_width charges every whitespace character a fixed 10 px and never
    // looks it up; get_width_chars looks the space up and uses its
    // advance of 25 px.
    assert_eq!(sf.get_width("A A").unwrap(), 30);
    assert_eq!(sf.get_width_chars(&vec!['A', ' ', 'A']).unwrap(), 45);
    // Tab is whitespace for get_width though it is not in the table.
    assert_eq!(sf.get_width("A\tA").unwrap(), 30);
    assert_eq!(sf.get_width_chars(&vec!['A', '\t', 'A']).unwrap_err(), FontError::UnknownGlyph);
}

#[test]
fn width_fails_on_a_character_outside_the_table() {
    let sf = table();
    assert_eq!(sf.get_width("AZB").unwrap_err(), FontError::UnknownGlyph);
    assert_eq!(sf.get_width_chars(&vec!['Z']).unwrap_err(), FontError::UnknownGlyph);
}

#[test]
fn height_of_uniform_digits_is_exact() {
    let sf = table();
    assert_eq!(sf.get_height("01234").unwrap(), 20);
    assert_eq!(sf.get_height("0 1 2").unwrap(), 20);
}

#[test]
fn height_of_whitespace_only_text_is_a_defined_error() {
    let sf = table();
    assert_eq!(sf.get_height("   ").unwrap_err(), FontError::EmptyMeasurement);
    assert_eq!(sf.get_height("").unwrap_err(), FontError::EmptyMeasurement);
    assert_eq!(sf.get_height("Z").unwrap_err(), FontError::UnknownGlyph);
}

#[test]
fn fit_count_scenario_locks_the_off_by_one() {
    let sf = table();
    // "ABCDE" at 10 px per character with a 25 px budget: two characters
    // fit, and the search reports the fitting prefix length minus one.
    assert_eq!(sf.get_chars(25, "ABCDE"), Some(1));
    assert_eq!(sf.get_chars(1000, "ABCDE"), Some(4));
    assert_eq!(sf.get_chars(5, "ABCDE"), None);
    assert_eq!(sf.get_chars(10, "ABCDE"), Some(0));
}

#[test]
fn fit_count_sequence_rejects_empty_input() {
    let sf = table();
    assert_eq!(sf.get_chars_test(1000, &vec![]), None);
    assert_eq!(sf.get_chars_test(25, &vec!['A', 'B', 'C']), Some(1));
    assert_eq!(sf.get_chars_test(5, &vec!['A']), None);
    // The sequence flavour charges the space its real 25 px advance.
    assert_eq!(sf.get_chars_test(30, &vec!['A', ' ', 'B']), Some(0));
}

#[test]
fn lookup_finds_exactly_the_packed_records() {
    let sf = table();
    let a = sf.get('A').unwrap();
    assert_eq!(a.id, 'A');
    assert_eq!(a.x_advance, 10);
    assert_eq!(a.height, 20);
    assert!(sf.get('Z').is_none());
    let sp = sf.get(' ').unwrap();
    assert_eq!(sp.x_advance, 25);
}

#[test]
fn whitespace_classification_matches_the_standard_one() {
    let samples = [
        ' ', '\t', '\n', '\r', '\u{b}', '\u{c}', '\u{85}', '\u{a0}', '\u{1680}', '\u{2000}',
        '\u{2005}', '\u{200a}', '\u{2028}', '\u{2029}', '\u{202f}', '\u{205f}', '\u{3000}', 'A',
        'z', '0', 'ü', 'ß', '№', '_', '\u{200b}',
    ];
    for c in samples {
        assert_eq!(is_text_whitespace(c), c.is_whitespace(), "mismatch on {:?}", c);
    }
}
