//! JPEG encoding of RGB frames, done by the `image` crate.

use image::codecs::jpeg::JpegEncoder;
use image::{ColorType, ImageError};
use vstd::prelude::*;

verus! {

/// The longest side that a JPEG image can have, in pixels.
pub const JPEG_MAX_SIDE: u32 = 65535;

/// Whether both sides of a picture fit a JPEG image.
pub open spec fn fits_jpeg(width: u32, height: u32) -> bool {
    width <= JPEG_MAX_SIDE && height <= JPEG_MAX_SIDE
}

/// The error type of the `image` crate, `image::ImageError`. Nothing is read
/// from a value of it.
#[verifier::external_type_specification]
#[verifier::external_body]
pub struct ExImageError(ImageError);

/// The bytes that `image`'s JPEG encoder writes for an RGB picture of the
/// given size at the given quality.
pub uninterp spec fn jpeg_encoding(rgb: Seq<u8>, width: u32, height: u32, quality: u8) -> Seq<u8>;

/// Calls `image::codecs::jpeg::JpegEncoder::new_with_quality` on an empty
/// buffer and then `JpegEncoder::encode` with `ColorType::Rgb8`.
///
/// Not proved, and taken from the encoder's source: `encode` panics unless the
/// buffer holds three bytes for each pixel, and where three times the width
/// does not fit a `usize`; `requires` rules out both. It fails only where a
/// side does not fit the sixteen bits that a JPEG frame header has for it,
/// which `requires` rules out too, since writing into a `Vec` cannot fail. So
/// it succeeds, and what it writes depends on the pixels, the size and the
/// quality alone. The quality is held to at most 50: there the quantised
/// coefficients stay well inside what the encoder's fixed Huffman tables can
/// code.
#[verifier::external_body]
pub(crate) fn encode_rgb8(
    rgb: &[u8],
    width: u32,
    height: u32,
    quality: u8,
) -> (encoded: Result<Vec<u8>, ImageError>)
    requires
        rgb@.len() == width * height * 3,
        fits_jpeg(width, height),
        quality <= 50,
    ensures
        encoded is Ok,
        encoded matches Ok(bytes) ==> bytes@ == jpeg_encoding(rgb@, width, height, quality),
{
    let mut buffer = Vec::new();
    let outcome = JpegEncoder::new_with_quality(&mut buffer, quality).encode(
        rgb,
        width,
        height,
        ColorType::Rgb8,
    );
    match outcome {
        Ok(()) => Ok(buffer),
        Err(e) => Err(e),
    }
}

} // verus!
