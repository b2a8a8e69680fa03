use csg::pixels::{check_atlas_size, decode_texture, load_atlas_image};

// A 16x16 PNG: the texture drawn where one is missing.
const MISSING_TEXTURE: &[u8; 120] = b"\x89PNG\r\n\x1a\n\x00\x00\x00\rIHDR\x00\x00\x00\x10\x00\x00\x00\x10\x08\x06\x00\x00\x00\x1f\xf3\xffa\x00\x00\x00\x01sRGB\x00\xae\xce\x1c\xe9\x00\x00\x002IDAT8\x8dc\xfc\xcf\xf0\xff?\x03\x1e\xc0\xc8\xc0\x88O\x9a\x81\t\xaf,\x11`\xd4\x80\xc1`\x00#\x03\x03\x03\xdet\xf0\x1f\xbf\xf4 \xf0\xc2\xa8\x01T0\x00\x001\xfa\x06\x1b\xa4}\x155\x00\x00\x00\x00IEND\xaeB`\x82";

#[test]
fn decodes_png_to_rgba() {
    let (w, h, px) = decode_texture(MISSING_TEXTURE).unwrap();
    assert_eq!((w, h), (16, 16));
    assert_eq!(px.len(), 16 * 16 * 4);
}

#[test]
fn garbage_is_not_an_image() {
    assert_eq!(decode_texture(b"not an image"), None);
    assert_eq!(decode_texture(&[]), None);
}

#[test]
fn atlas_image_must_match_its_description() {
    let (w, h, px) = load_atlas_image(MISSING_TEXTURE, 16, 16).unwrap();
    assert_eq!((w, h), (16, 16));
    assert_eq!(px, decode_texture(MISSING_TEXTURE).unwrap().2);
    assert_eq!(load_atlas_image(MISSING_TEXTURE, 32, 32), None);
    assert_eq!(load_atlas_image(MISSING_TEXTURE, 16, 15), None);
    assert_eq!(load_atlas_image(b"junk", 16, 16), None);
}

#[test]
fn atlas_size_check_keeps_a_matching_image() {
    let px = vec![7u8; 2 * 3 * 4];
    assert_eq!(check_atlas_size(Some((2, 3, px.clone())), 2, 3), Some((2, 3, px)));
}

#[test]
fn atlas_size_check_refuses_other_sizes_and_no_image() {
    let px = vec![7u8; 2 * 3 * 4];
    assert_eq!(check_atlas_size(Some((2, 3, px.clone())), 3, 2), None);
    assert_eq!(check_atlas_size(Some((2, 3, px.clone())), 2, 4), None);
    assert_eq!(check_atlas_size(Some((2, 3, px)), 1, 3), None);
    assert_eq!(check_atlas_size(None, 2, 3), None);
}

#[test]
fn decoded_pixels_cover_every_pixel() {
    let (w, h, px) = decode_texture(MISSING_TEXTURE).unwrap();
    assert!(px.len() >= 4 * (w as usize) * (h as usize));
    let (w, h, px) = load_atlas_image(MISSING_TEXTURE, 16, 16).unwrap();
    assert!(px.len() >= 4 * (w as usize) * (h as usize));
}
