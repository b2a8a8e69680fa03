use csg::assets::{AssetManager, FontKey, FontOrMissing, TextureKey, TextureOrMissing};
use std::cell::Cell;

#[test]
fn empty_manager_answers_missing() {
    let am = AssetManager::create(100, 200);
    assert_eq!(am.texture_count(), 0);
    assert_eq!(am.font_count(), 0);
    assert_eq!(am.texture_by_name("anything"), TextureOrMissing::Missing(100));
    assert_eq!(am.font_by_name("anything"), FontOrMissing::Missing(200));
    assert_eq!(am.texture_by_id(TextureKey::null()), TextureOrMissing::Missing(100));
    assert_eq!(am.font_by_id(FontKey::null()), FontOrMissing::Missing(200));
}

#[test]
fn created_texture_is_found_by_name_and_key() {
    let mut am = AssetManager::create(100, 200);
    let wall = am.create_texture(1, "wall".to_string());
    let floor = am.create_texture(2, "floor".to_string());
    assert_ne!(wall, floor);
    assert_ne!(wall, TextureKey::null());
    assert_eq!(am.texture_count(), 2);
    assert_eq!(am.texture_by_name("wall"), TextureOrMissing::Texture(1));
    assert_eq!(am.texture_by_name("floor"), TextureOrMissing::Texture(2));
    assert_eq!(am.texture_by_id(wall), TextureOrMissing::Texture(1));
    assert_eq!(am.texture_by_id(floor), TextureOrMissing::Texture(2));
    assert_eq!(am.texture_by_name("ceiling"), TextureOrMissing::Missing(100));
}

#[test]
fn same_name_again_keeps_the_old_key_alive() {
    let mut am = AssetManager::create(100, 200);
    let first = am.create_texture(1, "card".to_string());
    let second = am.create_texture(2, "card".to_string());
    assert_ne!(first, second);
    assert_eq!(am.texture_by_name("card"), TextureOrMissing::Texture(2));
    assert_eq!(am.texture_by_id(first), TextureOrMissing::Texture(1));
    assert_eq!(am.texture_by_id(second), TextureOrMissing::Texture(2));
    assert_eq!(am.texture_count(), 2);
}

#[test]
fn keys_have_odd_versions_and_are_not_null() {
    let mut am = AssetManager::create(100, 200);
    let k = am.create_texture(9, "chip".to_string());
    assert_ne!(k.as_ffi(), TextureKey::null().as_ffi());
    assert_eq!(TextureKey::null().as_ffi(), 0x1_ffff_ffff);
    assert_eq!(k.as_ffi() >> 32 & 1, 1);
}

#[test]
fn texture_or_create_finds_without_creating() {
    let mut am = AssetManager::create(100, 200);
    let k = am.create_texture(3, "deck".to_string());
    let calls = Cell::new(0);
    let r = am.texture_or_create(
        "deck",
        Some(|| {
            calls.set(calls.get() + 1);
            42
        }),
    );
    assert_eq!(r, Some((k, 3)));
    assert_eq!(calls.get(), 0);
    assert_eq!(am.texture_count(), 1);
}

#[test]
fn texture_or_create_creates_once() {
    let mut am = AssetManager::create(100, 200);
    let calls = Cell::new(0);
    let make = || {
        calls.set(calls.get() + 1);
        42
    };
    let r = am.texture_or_create("deck", Some(make));
    let (k, h) = r.unwrap();
    assert_eq!(h, 42);
    assert_eq!(calls.get(), 1);
    let again = am.texture_or_create("deck", Some(|| {
        calls.set(calls.get() + 1);
        43
    }));
    assert_eq!(again, Some((k, 42)));
    assert_eq!(calls.get(), 1);
    assert_eq!(am.texture_by_id(k), TextureOrMissing::Texture(42));
}

#[test]
fn texture_or_create_without_creator_gives_none() {
    let mut am = AssetManager::create(100, 200);
    let none: Option<fn() -> u64> = None;
    assert_eq!(am.texture_or_create("nothing", none), None);
    assert_eq!(am.texture_count(), 0);
    assert_eq!(am.texture_by_name("nothing"), TextureOrMissing::Missing(100));
}

#[test]
fn create_font_registers_its_atlas() {
    let mut am = AssetManager::create(100, 200);
    let seen: Cell<Option<(TextureKey, u32)>> = Cell::new(None);
    let fk = am.create_font(7, 12u32, "KiwiSoda".to_string(), |atlas, glyphs| {
        seen.set(Some((atlas, glyphs)));
        77
    });
    let (atlas, glyphs) = seen.get().unwrap();
    assert_eq!(glyphs, 12);
    assert_eq!(am.texture_by_name("ATLAS[KiwiSoda]"), TextureOrMissing::Texture(7));
    assert_eq!(am.texture_by_id(atlas), TextureOrMissing::Texture(7));
    assert_eq!(am.font_by_name("KiwiSoda"), FontOrMissing::Font(77));
    assert_eq!(am.font_by_id(fk), FontOrMissing::Font(77));
    assert_eq!(am.texture_count(), 1);
    assert_eq!(am.font_count(), 1);
}

#[test]
fn font_or_create_creates_then_finds() {
    let mut am = AssetManager::create(100, 200);
    let r = am.font_or_create("Mono", Some(|| (5u64, "json")), |_atlas, data: &str| {
        assert_eq!(data, "json");
        55
    });
    let (fk, h) = r.unwrap();
    assert_eq!(h, 55);
    assert_eq!(am.texture_by_name("ATLAS[Mono]"), TextureOrMissing::Texture(5));
    let again = am.font_or_create(
        "Mono",
        Some(|| -> (u64, &str) { panic!("must not create twice") }),
        |_atlas, _data: &str| -> u64 { panic!("must not build twice") },
    );
    assert_eq!(again, Some((fk, 55)));
    assert_eq!(am.font_count(), 1);
    assert_eq!(am.texture_count(), 1);
}

#[test]
fn font_or_create_without_creator_gives_none() {
    let mut am = AssetManager::create(100, 200);
    let none: Option<fn() -> (u64, u8)> = None;
    let r = am.font_or_create("Mono", none, |_a, _d: u8| 1);
    assert_eq!(r, None);
    assert_eq!(am.font_by_name("Mono"), FontOrMissing::Missing(200));
    assert_eq!(am.texture_count(), 0);
}

#[test]
fn or_missing_inner() {
    assert_eq!(TextureOrMissing::Texture(3).inner(), 3);
    assert_eq!(TextureOrMissing::Missing(4).inner(), 4);
    assert_eq!(FontOrMissing::Font(5).inner(), 5);
    assert_eq!(FontOrMissing::Missing(6).inner(), 6);
}
