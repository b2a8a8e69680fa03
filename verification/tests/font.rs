use csg::assets::TextureKey;
use csg::font::{Font, GlyphRef};

#[test]
fn later_description_wins() {
    let f = Font::create(&vec!['a', 'b', 'a'], 16, TextureKey::null());
    assert_eq!(f.glyph_for('a'), GlyphRef::Atlas(2));
    assert_eq!(f.glyph_for('b'), GlyphRef::Atlas(1));
    assert_eq!(f.size(), 16);
    assert_eq!(f.atlas(), TextureKey::null());
}

#[test]
fn question_mark_is_the_fallback() {
    let f = Font::create(&vec!['?', 'x', 'y'], 16, TextureKey::null());
    assert_eq!(f.glyph_for('z'), GlyphRef::Atlas(0));
    assert_eq!(f.glyph_for('?'), GlyphRef::Atlas(0));
}

#[test]
fn without_question_mark_a_described_glyph_is_the_fallback() {
    let f = Font::create(&vec!['x', 'y'], 16, TextureKey::null());
    assert_eq!(f.glyph_for('z'), GlyphRef::Atlas(1));
}

#[test]
fn empty_font_draws_blank_squares() {
    let f = Font::create(&vec![], 24, TextureKey::null());
    assert_eq!(f.glyph_for('a'), GlyphRef::Blank(24));
}

#[test]
fn placeholder_font() {
    let f = Font::placeholder();
    assert_eq!(f.size(), 32);
    assert_eq!(f.atlas(), TextureKey::null());
    assert_eq!(f.glyph_for('H'), GlyphRef::Blank(32));
}

#[test]
fn hello_world_lookup() {
    let chars: Vec<char> = "Helo, Wrd!".chars().collect();
    let f = Font::create(&chars, 32, TextureKey::null());
    let glyphs: Vec<GlyphRef> = "Hello, World!".chars().map(|c| f.glyph_for(c)).collect();
    assert_eq!(glyphs[0], GlyphRef::Atlas(0));
    assert_eq!(glyphs[2], GlyphRef::Atlas(2));
    assert_eq!(glyphs[3], GlyphRef::Atlas(2));
    assert_eq!(glyphs[12], GlyphRef::Atlas(9));
}

#[test]
fn missing_glyph_is_exposed() {
    let f = Font::create(&vec!['a', '?'], 16, TextureKey::null());
    assert_eq!(f.missing_glyph(), GlyphRef::Atlas(1));
    let e = Font::create(&vec![], 9, TextureKey::null());
    assert_eq!(e.missing_glyph(), GlyphRef::Blank(9));
}
