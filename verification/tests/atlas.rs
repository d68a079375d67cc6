use font_atlas::Canvas;
use font_atlas::Character;
use font_atlas::FontError;
use font_atlas::PackConfig;
use font_atlas::RawGlyph;
use font_atlas::ScaledFont;
use font_atlas::calculate_value;
use font_atlas::default_charset;
use font_atlas::pack_glyphs;

fn glyph(w: i32, h: i32, adv: i64, bearing_left: i32, bearing_top: i32, fill: u8) -> RawGlyph {
    RawGlyph {
        width: w,
        rows: h,
        pitch: w,
        buffer: vec![fill; (w * h) as usize],
        bearing_left,
        bearing_top,
        advance_x: adv * 64,
    }
}

fn simple_font() -> ScaledFont {
    // Five letters and a space, all advance 10 px, bitmaps 5x20.
    let charset = vec!['A', 'B', 'C', 'D', 'E', ' '];
    let glyphs: Vec<RawGlyph> = charset
        .iter()
        .map(|_| glyph(5, 20, 10, 1, 18, 200))
        .collect();
    pack_glyphs(&charset, &glyphs, 32, 50 * 64, 10 * 64, PackConfig::default()).unwrap()
}

#[test]
fn pack_makes_one_record_per_character() {
    let sf = simple_font();
    assert_eq!(sf.chars.len(), 6);
    let ids: Vec<char> = sf.chars.iter().map(|c| c.id).collect();
    assert_eq!(ids, vec!['A', 'B', 'C', 'D', 'E', ' ']);
    for rec in sf.chars.iter() {
        assert!(rec.x >= 0);
        assert!(rec.y >= 0);
        assert!(rec.x + rec.width <= 2000);
        assert!((rec.y + rec.height) as u32 <= sf.image.height());
        assert_eq!(rec.x_advance, 10);
        assert_eq!(rec.x_offset, 1);
        assert_eq!(rec.y_offset, 18 - 20);
    }
}

#[test]
fn pack_canvas_size_follows_the_estimate() {
    let sf = simple_font();
    // 2000 / 10 glyphs per row, 6 glyphs -> 6/200 + 1 = 1 row of 50 px,
    // plus 1000 px of slack.
    assert_eq!(sf.image.width(), 2000);
    assert_eq!(sf.image.height(), 1050);
}

#[test]
fn pack_places_first_glyph_at_the_inset() {
    let sf = simple_font();
    let a = &sf.chars[0];
    // Left inset 10, top inset line height 50 + 20.
    assert_eq!(a.x, 10);
    assert_eq!(a.y, 70);
    // Second glyph one advance + padding (12) to the right, same row.
    let b = &sf.chars[1];
    assert_eq!(b.y, 70);
    assert_eq!(b.x, 10 + 10 + 12);
}

#[test]
fn pack_blits_coverage_as_alpha() {
    let sf = simple_font();
    let a = &sf.chars[0];
    let p = sf.image.get(a.x as u32, a.y as u32);
    assert_eq!(p, (255, 255, 255, 200));
    // A pixel outside every glyph is still transparent.
    let q = sf.image.get(1999, 1049);
    assert_eq!(q, (0, 0, 0, 0));
}

#[test]
fn pack_does_not_blit_the_space() {
    let sf = simple_font();
    let sp = &sf.chars[5];
    // The space has a record and an advance but wrote no pixels.
    assert_eq!(sp.id, ' ');
    assert_eq!(sp.x_advance, 10);
    let p = sf.image.get(sp.x as u32, sp.y as u32);
    assert_eq!(p, (0, 0, 0, 0));
}

#[test]
fn pack_wraps_rows_when_the_canvas_width_is_reached() {
    let charset = vec!['A', 'B', 'C'];
    let glyphs: Vec<RawGlyph> = charset.iter().map(|_| glyph(40, 10, 45, 0, 10, 9)).collect();
    let cfg = PackConfig { canvas_width: 100, pad_x: 0, pad_y: 0 };
    let sf = pack_glyphs(&charset, &glyphs, 16, 50 * 64, 45 * 64, cfg).unwrap();
    let a = &sf.chars[0];
    let b = &sf.chars[1];
    let c = &sf.chars[2];
    // A at (10, 70); pen moves to 55; B fits (55 + 40 <= 100); pen 100;
    // C wraps to the next row, exactly one line height lower.
    assert_eq!((a.x, a.y), (10, 70));
    assert_eq!((b.x, b.y), (55, 70));
    assert_eq!((c.x, c.y), (10, 120));
    // Same-row glyphs do not overlap.
    assert!(a.x + a.width <= b.x);
    // Rows never move up.
    assert!(a.y <= b.y && b.y <= c.y);
}

#[test]
fn pack_rejects_a_bad_line_height() {
    let charset = vec!['A'];
    let glyphs = vec![glyph(5, 5, 10, 0, 5, 1)];
    let r = pack_glyphs(&charset, &glyphs, 16, 0, 10 * 64, PackConfig::default());
    match r {
        Err(e) => assert_eq!(e, FontError::InvalidConfiguration),
        Ok(_) => panic!("expected an error"),
    }
}

#[test]
fn pack_rejects_a_max_advance_wider_than_the_canvas() {
    let charset = vec!['A'];
    let glyphs = vec![glyph(5, 5, 10, 0, 5, 1)];
    let cfg = PackConfig { canvas_width: 100, pad_x: 0, pad_y: 0 };
    let r = pack_glyphs(&charset, &glyphs, 16, 50 * 64, 200 * 64, cfg);
    match r {
        Err(e) => assert_eq!(e, FontError::InvalidConfiguration),
        Ok(_) => panic!("expected an error"),
    }
}

#[test]
fn pack_rejects_malformed_glyph_data() {
    let charset = vec!['A'];
    let mut g = glyph(5, 5, 10, 0, 5, 1);
    g.buffer.pop();
    let r = pack_glyphs(&charset, &vec![g], 16, 50 * 64, 10 * 64, PackConfig::default());
    match r {
        Err(e) => assert_eq!(e, FontError::GlyphRasterizationFailure),
        Ok(_) => panic!("expected an error"),
    }
}

#[test]
fn pack_rejects_a_negative_advance() {
    let charset = vec!['A'];
    let g = RawGlyph {
        width: 5,
        rows: 5,
        pitch: 5,
        buffer: vec![1; 25],
        bearing_left: 0,
        bearing_top: 5,
        advance_x: -64,
    };
    let r = pack_glyphs(&charset, &vec![g], 16, 50 * 64, 10 * 64, PackConfig::default());
    match r {
        Err(e) => assert_eq!(e, FontError::GlyphRasterizationFailure),
        Ok(_) => panic!("expected an error"),
    }
}

#[test]
fn pack_reports_overflow_past_the_bottom_edge() {
    // The estimate plans 2 rows (advances up to 10), but tall glyphs that
    // each wrap to a new row run past the canvas bottom.
    let charset: Vec<char> = "ABCDEFGHIJ".chars().collect();
    let glyphs: Vec<RawGlyph> = charset.iter().map(|_| glyph(5, 601, 90, 0, 10, 3)).collect();
    let cfg = PackConfig { canvas_width: 100, pad_x: 0, pad_y: 0 };
    let r = pack_glyphs(&charset, &glyphs, 16, 50 * 64, 10 * 64, cfg);
    match r {
        Err(e) => assert_eq!(e, FontError::AtlasOverflow),
        Ok(_) => panic!("expected an error"),
    }
}

#[test]
fn calculate_value_floors_fixed_point() {
    assert_eq!(calculate_value(0), 0);
    assert_eq!(calculate_value(64), 1);
    assert_eq!(calculate_value(130), 2);
    assert_eq!(calculate_value(63), 0);
    assert_eq!(calculate_value(-130), -3);
    assert_eq!(calculate_value(-64), -1);
}

#[test]
fn canvas_starts_transparent_and_keeps_writes() {
    let mut c = Canvas::new(4, 3);
    assert_eq!(c.width(), 4);
    assert_eq!(c.height(), 3);
    assert_eq!(c.get(0, 0), (0, 0, 0, 0));
    assert_eq!(c.get(3, 2), (0, 0, 0, 0));
    c.put(2, 1, 255, 128, 7, 99);
    assert_eq!(c.get(2, 1), (255, 128, 7, 99));
    assert_eq!(c.get(1, 1), (0, 0, 0, 0));
}

#[test]
fn default_charset_has_the_expected_shape() {
    let cs = default_charset();
    assert_eq!(cs.len(), 95);
    assert_eq!(cs[0], '0');
    assert_eq!(cs[10], 'a');
    assert_eq!(cs[36], 'A');
    assert_eq!(*cs.last().unwrap(), ' ');
    assert!(cs.contains(&'ß'));
    assert!(cs.contains(&'№'));
}

#[test]
fn canvas_height_grows_with_the_character_set() {
    let cfg = PackConfig::default();
    let mut last: u32 = 0;
    for n in [1usize, 50, 150, 400] {
        let charset: Vec<char> = (0..n).map(|i| char::from_u32(33 + i as u32).unwrap()).collect();
        let glyphs: Vec<RawGlyph> = charset.iter().map(|_| glyph(5, 20, 10, 0, 18, 1)).collect();
        let sf = pack_glyphs(&charset, &glyphs, 32, 50 * 64, 10 * 64, cfg).unwrap();
        assert_eq!(sf.chars.len(), n);
        assert!(sf.image.height() >= last);
        last = sf.image.height();
    }
}

#[test]
fn records_are_immutable_copies() {
    let sf = simple_font();
    let rec: Character = sf.chars[0];
    let again: Character = sf.chars[0];
    assert_eq!(rec, again);
}
