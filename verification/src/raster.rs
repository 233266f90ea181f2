//! PNG tiles decoded through the `image` crate.
use vstd::prelude::*;

verus! {

/// `image::load_from_memory(bytes)` converted with `to_rgb8`: width, height
/// and raw row-major RGB bytes, or `None` when decoding fails.
pub uninterp spec fn png_rgb8(bytes: Seq<u8>) -> Option<(u32, u32, Seq<u8>)>;

/// `image::load_from_memory(bytes)` converted with `to_rgba8`.
pub uninterp spec fn png_rgba8(bytes: Seq<u8>) -> Option<(u32, u32, Seq<u8>)>;

/// Decodes an image with `image::load_from_memory` and converts it with
/// `DynamicImage::to_rgb8`; an `ImageBuffer` holds at least
/// `width * height * 3` subpixels, row-major, as `into_raw` returns them.
#[verifier::external_body]
pub(crate) fn decode_rgb8(bytes: &[u8]) -> (r: Option<(u32, u32, Vec<u8>)>)
    ensures
        match r {
            Some((w, h, v)) => png_rgb8(bytes@) == Some((w, h, v@)) && v@.len() >= w * h * 3,
            None => png_rgb8(bytes@) is None,
        },
{
    match image::load_from_memory(bytes) {
        Ok(img) => {
            let b = img.to_rgb8();
            Some((b.width(), b.height(), b.into_raw()))
        },
        Err(_) => None,
    }
}

/// Decodes an image with `image::load_from_memory` and converts it with
/// `DynamicImage::to_rgba8`; at least `width * height * 4` subpixels.
#[verifier::external_body]
pub(crate) fn decode_rgba8(bytes: &[u8]) -> (r: Option<(u32, u32, Vec<u8>)>)
    ensures
        match r {
            Some((w, h, v)) => png_rgba8(bytes@) == Some((w, h, v@)) && v@.len() >= w * h * 4,
            None => png_rgba8(bytes@) is None,
        },
{
    match image::load_from_memory(bytes) {
        Ok(img) => {
            let b = img.to_rgba8();
            Some((b.width(), b.height(), b.into_raw()))
        },
        Err(_) => None,
    }
}

/// The default allocation limit of `image`'s decoders (`Limits::default`,
/// 512 MiB), against which `load_from_memory` reserves the decoded buffer.
pub const DECODE_LIMIT: usize = 536_870_912;

/// Encodes an RGBA buffer as PNG: `ImageBuffer::from_raw(w, h, ..)` written
/// with `write_to(.., ImageFormat::Png)`. For a buffer of exactly `w * h * 4`
/// bytes, `from_raw` accepts it, and the PNG encoder writing into memory
/// fails only on a zero width or height (`png::Encoder` checks, besides these,
/// only the buffer size); so the bytes come back whenever both are positive.
/// PNG is lossless and `PngEncoder` writes 8-bit RGBA (`encode_inner`), which
/// `load_from_memory` decodes back as `ImageRgba8`, so those bytes decode to
/// the same size and pixels when the buffer fits the decoder's default
/// allocation limit.
#[verifier::external_body]
pub(crate) fn encode_png_rgba8(w: u32, h: u32, rgba: &[u8]) -> (r: Option<Vec<u8>>)
    ensures
        rgba@.len() == w * h * 4 && w > 0 && h > 0 ==> r is Some,
        (r is Some && rgba@.len() == w * h * 4 && rgba@.len() <= DECODE_LIMIT) ==> png_rgba8(
            r.unwrap()@,
        ) == Some((w, h, rgba@)),
{
    let buf = image::RgbaImage::from_raw(w, h, rgba.to_vec())?;
    let mut out = std::io::Cursor::new(Vec::new());
    buf.write_to(&mut out, image::ImageFormat::Png).ok()?;
    Some(out.into_inner())
}

} // verus!
