use rigorstarter_rust_tauri_webgpu::gpu::font::{glyph_for, glyph_pixels, FONT_DATA};

#[test]
fn glyphs_are_found_by_code_point() {
    assert_eq!(glyph_for('A'), Some(FONT_DATA[33]));
    assert_eq!(glyph_for('~'), Some(FONT_DATA[94]));
    assert_eq!(glyph_for(' '), Some(FONT_DATA[0]));
    assert_eq!(glyph_for('\t'), Some(FONT_DATA[0]));
    assert_eq!(glyph_for('\u{7f}'), None);
    assert_eq!(glyph_for('é'), None);
}

#[test]
fn pixels_follow_the_low_five_bits_of_each_row() {
    // '!' has 0x5F in row 2: the low five bits light all five columns
    let bang = glyph_for('!').unwrap();
    assert_eq!(glyph_pixels(bang), vec![(0, 2), (1, 2), (2, 2), (3, 2), (4, 2)]);
    // '"' has 0x07 in rows 1 and 3: the three right-hand columns
    let quote = glyph_for('"').unwrap();
    assert_eq!(glyph_pixels(quote), vec![(2, 1), (3, 1), (4, 1), (2, 3), (3, 3), (4, 3)]);
    assert!(glyph_pixels(glyph_for(' ').unwrap()).is_empty());
}
