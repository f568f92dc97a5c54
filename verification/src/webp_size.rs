//! Real-world comparison figure: the size of a lossless WebP encode.
//!
//! The encoder is an external black-box collaborator; the library only
//! asks it for a byte count and never feeds the figure into the clamp
//! logic. libwebp refuses pictures wider or taller than 16383
//! (`WEBP_MAX_DIMENSION`) and empty pictures, so the comparison is only
//! offered inside those bounds.

use vstd::prelude::*;

use crate::channels::RasterImage;

verus! {

/// Largest width or height libwebp will encode (`WEBP_MAX_DIMENSION`).
pub const WEBP_MAX_DIMENSION: u32 = 16383;

/// Length in bytes of the lossless WebP encoding of an RGBA pixel
/// buffer. The encoder is deterministic: the length is a function of
/// the samples and the dimensions alone.
pub uninterp spec fn webp_lossless_len(pixels: Seq<u8>, width: u32, height: u32) -> usize;

/// Relies on `webp::Encoder::new` with the RGBA pixel layout and
/// `webp::Encoder::encode_lossless`: given a buffer of exactly
/// `4 * width * height` samples (so the encoder's length check cannot
/// panic) and dimensions in `1 ..= WEBP_MAX_DIMENSION` (so libwebp
/// cannot fail with a bad-dimension error, which `encode_lossless`
/// would turn into a panic), it returns the encoded bytes, whose number
/// depends only on the arguments.
#[verifier::external_body]
fn encode_lossless_rgba(pixels: &Vec<u8>, width: u32, height: u32) -> (n: usize)
    requires
        pixels@.len() == 4 * ((width as int) * (height as int)),
        1 <= width <= WEBP_MAX_DIMENSION,
        1 <= height <= WEBP_MAX_DIMENSION,
    ensures
        n == webp_lossless_len(pixels@, width, height),
{
    let encoder = webp::Encoder::new(pixels.as_slice(), webp::PixelLayout::Rgba, width, height);
    let encoded = encoder.encode_lossless();
    encoded.len()
}

/// Size in bytes of the lossless WebP encoding of the image, for
/// comparison against the theoretical bound. `None` exactly when the
/// image is outside what libwebp accepts: zero-sized, or wider or
/// taller than `WEBP_MAX_DIMENSION`.
pub fn webp_lossless_size(img: &RasterImage) -> (r: Option<usize>)
    requires
        img.wf(),
    ensures
        match r {
            Some(n) => n == webp_lossless_len(img.pixels@, img.width, img.height),
            None => !(1 <= img.width <= WEBP_MAX_DIMENSION && 1 <= img.height
                <= WEBP_MAX_DIMENSION),
        },
        r is Some <==> (1 <= img.width <= WEBP_MAX_DIMENSION && 1 <= img.height
            <= WEBP_MAX_DIMENSION),
{
    if 1 <= img.width && img.width <= WEBP_MAX_DIMENSION && 1 <= img.height && img.height
        <= WEBP_MAX_DIMENSION {
        Some(encode_lossless_rgba(&img.pixels, img.width, img.height))
    } else {
        None
    }
}

} // verus!
