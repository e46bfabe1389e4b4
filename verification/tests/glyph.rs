use led_matrix::chain::Chain;
use led_matrix::framebuffer::Framebuffer;
use led_matrix::glyph::{render_char, render_text, Glyph, GlyphTable};
use max7219_display::led_matrix::fonts::{FONT8X8, STANDARD_LED_FONT};

fn small_table() -> GlyphTable {
    GlyphTable::new(vec![
        Glyph { ch: 'a', rows: [1, 2, 3, 4, 5, 6, 7, 8] },
        Glyph { ch: 'b', rows: [0x11; 8] },
        Glyph { ch: 'a', rows: [0xEE; 8] },
    ])
}

#[test]
fn lookup_finds_the_first_glyph_of_a_character() {
    let table = small_table();
    assert_eq!(table.len(), 3);
    assert_eq!(table.lookup('a'), Some([1, 2, 3, 4, 5, 6, 7, 8]));
    assert_eq!(table.lookup('b'), Some([0x11; 8]));
    assert_eq!(table.lookup('c'), None);
    assert_eq!(GlyphTable::new(vec![]).lookup('a'), None);
}

#[test]
fn builtin_font_holds_every_entry_in_order() {
    let table = GlyphTable::builtin();
    assert_eq!(table.len(), FONT8X8.len());
    for (rows, ch) in FONT8X8.iter() {
        assert_eq!(table.lookup(*ch), Some(STANDARD_LED_FONT.get_char(*ch)));
        assert_eq!(table.lookup(*ch).is_some(), FONT8X8.iter().any(|(_, c)| c == ch));
        let first = FONT8X8.iter().find(|(_, c)| c == ch).unwrap().0;
        assert_eq!(table.lookup(*ch), Some(first));
        let _ = rows;
    }
}

#[test]
fn builtin_font_has_the_known_glyphs() {
    let table = GlyphTable::builtin();
    assert_eq!(
        table.lookup('A'),
        Some([
            0b00011000, 0b00111100, 0b01100110, 0b01100110, 0b01111110, 0b01100110, 0b01100110,
            0b00000000,
        ])
    );
    assert_eq!(
        table.lookup('0'),
        Some([
            0b00111100, 0b01100110, 0b01101110, 0b01110110, 0b01100110, 0b01100110, 0b00111100,
            0b00000000,
        ])
    );
    assert_eq!(table.lookup(' '), Some([0u8; 8]));
    assert_eq!(table.lookup('\u{20AC}'), None);
}

#[test]
fn render_char_overwrites_the_whole_buffer() {
    let table = small_table();
    let mut fb = Framebuffer::from_rows([0xFF; 8]);
    render_char(&mut fb, &table, 'a');
    assert_eq!(fb.rows(), [1, 2, 3, 4, 5, 6, 7, 8]);
}

#[test]
fn render_char_without_a_glyph_clears_the_buffer() {
    let table = small_table();
    let mut fb = Framebuffer::from_rows([0xFF; 8]);
    render_char(&mut fb, &table, 'z');
    assert_eq!(fb.rows(), [0u8; 8]);
    let builtin = GlyphTable::builtin();
    let mut other = Framebuffer::from_rows([0xA5; 8]);
    render_char(&mut other, &builtin, '\u{20AC}');
    assert_eq!(other.rows(), [0u8; 8]);
}

#[test]
fn render_text_rust_on_four_modules() {
    let table = GlyphTable::builtin();
    let mut chain = Chain::new(4).unwrap();
    for m in 0..4 {
        chain.set_module(m, Framebuffer::from_rows([0xFF; 8])).unwrap();
    }
    render_text(&mut chain, &table, "Rust");
    assert_eq!(chain.module(0).unwrap().rows(), STANDARD_LED_FONT.get_char('R'));
    assert_eq!(chain.module(1).unwrap().rows(), STANDARD_LED_FONT.get_char('u'));
    assert_eq!(chain.module(2).unwrap().rows(), STANDARD_LED_FONT.get_char('s'));
    assert_eq!(chain.module(3).unwrap().rows(), STANDARD_LED_FONT.get_char('t'));
    assert_ne!(chain.module(0).unwrap().rows(), chain.module(1).unwrap().rows());
}

#[test]
fn render_text_drops_what_does_not_fit() {
    let table = small_table();
    let mut chain = Chain::new(2).unwrap();
    render_text(&mut chain, &table, "bazaar");
    assert_eq!(chain.module(0).unwrap().rows(), [0x11; 8]);
    assert_eq!(chain.module(1).unwrap().rows(), [1, 2, 3, 4, 5, 6, 7, 8]);
}

#[test]
fn render_text_leaves_the_modules_behind_the_text() {
    let table = small_table();
    let mut chain = Chain::new(3).unwrap();
    for m in 0..3 {
        chain.set_module(m, Framebuffer::from_rows([0x77; 8])).unwrap();
    }
    render_text(&mut chain, &table, "bz");
    assert_eq!(chain.module(0).unwrap().rows(), [0x11; 8]);
    assert_eq!(chain.module(1).unwrap().rows(), [0u8; 8]);
    assert_eq!(chain.module(2).unwrap().rows(), [0x77; 8]);
    render_text(&mut chain, &table, "");
    assert_eq!(chain.module(0).unwrap().rows(), [0x11; 8]);
}

#[test]
fn render_text_counts_characters_not_bytes() {
    let table = small_table();
    let mut chain = Chain::new(3).unwrap();
    render_text(&mut chain, &table, "\u{20AC}ab");
    assert_eq!(chain.module(0).unwrap().rows(), [0u8; 8]);
    assert_eq!(chain.module(1).unwrap().rows(), [1, 2, 3, 4, 5, 6, 7, 8]);
    assert_eq!(chain.module(2).unwrap().rows(), [0x11; 8]);
}
