use vstd::prelude::*;
use std::io::Cursor;

verus! {

/// `ImageReader::with_guessed_format`, `ImageReader::decode`,
/// `DynamicImage::to_rgba8` and `ImageBuffer::into_raw` on `bytes`: width,
/// height and pixels of the decoded image, or `None` when guessing the format
/// or decoding fails.
///
/// Claimed: a decoded image holds at least four bytes for each of its
/// `w * h` pixels. `ImageBuffer::from_raw` refuses any shorter buffer, and
/// `to_rgba8` either clones such an RGBA8 buffer or converts into one of
/// exactly that size, which `into_raw` hands back.
///
/// Left unsaid: which image comes out, and whether one does. The `image`
/// crate first consults format detection and decoding hooks that any code in
/// the process may register at run time, so equal bytes need not decode alike
/// from one call to the next; and a decoder installed that way may report
/// more bytes than that, so the buffer may be longer than `4 * w * h`.
#[verifier::external_body]
fn decode_rgba8(bytes: &[u8]) -> (r: Option<(u32, u32, Vec<u8>)>)
    ensures
        r matches Some((w, h, px)) ==> px@.len() >= 4 * (w as int) * (h as int),
{
    let image = image::ImageReader::new(Cursor::new(bytes)).with_guessed_format().ok()?.decode().ok()?;
    let rgba = image.to_rgba8();
    let (w, h) = rgba.dimensions();
    Some((w, h, rgba.into_raw()))
}

/// The pixels of a texture stored as an encoded image (PNG and the like), in
/// 8-bit RGBA, with its width and height; `None` when the bytes are not an
/// image the `image` crate reads. The pixels hold at least four bytes for
/// each of the `w * h` pixels.
pub fn decode_texture(bytes: &[u8]) -> (r: Option<(u32, u32, Vec<u8>)>)
    ensures
        r matches Some((w, h, px)) ==> px@.len() >= 4 * (w as int) * (h as int),
{
    decode_rgba8(bytes)
}

/// Accepts a decoded atlas image only when it has the size that the atlas
/// description gives: the image itself, unchanged, when it is
/// `atlas_width` by `atlas_height`, and `None` when it is not or when there
/// is no image.
pub fn check_atlas_size(decoded: Option<(u32, u32, Vec<u8>)>, atlas_width: u32, atlas_height: u32) -> (r: Option<(u32, u32, Vec<u8>)>)
    ensures
        r is Some <==> (decoded matches Some((w, h, _)) && w == atlas_width && h == atlas_height),
        r matches Some((w, h, px)) ==> decoded == Some((w, h, px)),
{
    match decoded {
        Some((w, h, px)) => {
            if w == atlas_width && h == atlas_height {
                Some((w, h, px))
            } else {
                None
            }
        },
        None => None,
    }
}

/// The pixels of a font's atlas image: the decoded `png` when it is
/// `atlas_width` by `atlas_height`, the size the atlas description gives, and
/// `None` when the bytes are not an image or the image has another size.
pub fn load_atlas_image(png: &[u8], atlas_width: u32, atlas_height: u32) -> (r: Option<(u32, u32, Vec<u8>)>)
    ensures
        r matches Some((w, h, px)) ==> w == atlas_width && h == atlas_height
            && px@.len() >= 4 * (atlas_width as int) * (atlas_height as int),
{
    check_atlas_size(decode_rgba8(png), atlas_width, atlas_height)
}

} // verus!
