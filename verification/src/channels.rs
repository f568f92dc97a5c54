//! Decoded raster images and the channel splitter.
//!
//! A `RasterImage` is the library's own model of a decoded image: the
//! dimensions and the pixel samples in RGBA scan order, four bytes per
//! pixel. The I/O shell fills one from whatever codec decoded the file;
//! inside the library it is plain data with a checked shape. The
//! splitter decomposes it into the three independent per-channel byte
//! sequences, discarding alpha.

use vstd::prelude::*;

verus! {

/// A decoded pixel grid: `width * height` pixels, each four bytes
/// (red, green, blue, alpha) in scan order.
pub struct RasterImage {
    pub width: u32,
    pub height: u32,
    pub pixels: Vec<u8>,
}

impl RasterImage {
    /// Number of pixels in the grid.
    pub open spec fn pixel_count(&self) -> int {
        self.width as int * self.height as int
    }

    /// Shape invariant: exactly four samples per pixel.
    pub open spec fn wf(&self) -> bool {
        self.pixels@.len() == 4 * self.pixel_count()
    }
}

/// Builds a well-formed image from raw RGBA samples; rejects a buffer
/// whose length does not match the dimensions.
pub fn rgba_image(width: u32, height: u32, pixels: Vec<u8>) -> (r: Option<RasterImage>)
    ensures
        match r {
            Some(img) => {
                &&& img.wf()
                &&& img.width == width
                &&& img.height == height
                &&& img.pixels@ == pixels@
                &&& pixels@.len() == 4 * ((width as int) * (height as int))
            },
            None => pixels@.len() != 4 * ((width as int) * (height as int)),
        },
{
    proof {
        assert((width as int) * (height as int) < 0x1_0000_0000_0000_0000) by (nonlinear_arith)
            requires
                (width as int) < 0x1_0000_0000,
                (height as int) < 0x1_0000_0000,
        ;
    }
    let expected: u128 = (width as u128) * (height as u128) * 4;
    if pixels.len() as u128 == expected {
        Some(RasterImage { width, height, pixels })
    } else {
        None
    }
}

/// Splits a decoded image into its red, green and blue channels, in that
/// order: channel `k` of the result holds, for every pixel in scan
/// order, sample `k` of that pixel. Alpha is discarded. Each channel is
/// exactly `width * height` bytes long.
pub fn split_rgb_channels(img: &RasterImage) -> (channels: (Vec<u8>, Vec<u8>, Vec<u8>))
    requires
        img.wf(),
    ensures
        channels.0@.len() == img.pixel_count(),
        channels.1@.len() == img.pixel_count(),
        channels.2@.len() == img.pixel_count(),
        forall|p: int|
            0 <= p < img.pixel_count() ==> {
                &&& channels.0@[p] == img.pixels@[4 * p]
                &&& channels.1@[p] == img.pixels@[4 * p + 1]
                &&& channels.2@[p] == img.pixels@[4 * p + 2]
            },
{
    let n: usize = img.pixels.len() / 4;
    proof {
        assert(img.pixels@.len() == 4 * img.pixel_count());
        assert(n == img.pixel_count());
    }
    let mut red: Vec<u8> = Vec::new();
    let mut green: Vec<u8> = Vec::new();
    let mut blue: Vec<u8> = Vec::new();
    let mut p: usize = 0;
    while p < n
        invariant
            p <= n,
            n == img.pixel_count(),
            4 * n <= usize::MAX,
            img.wf(),
            red@.len() == p,
            green@.len() == p,
            blue@.len() == p,
            forall|q: int|
                0 <= q < p ==> {
                    &&& red@[q] == img.pixels@[4 * q]
                    &&& green@[q] == img.pixels@[4 * q + 1]
                    &&& blue@[q] == img.pixels@[4 * q + 2]
                },
        decreases n - p,
    {
        red.push(img.pixels[4 * p]);
        green.push(img.pixels[4 * p + 1]);
        blue.push(img.pixels[4 * p + 2]);
        p += 1;
    }
    (red, green, blue)
}

} // verus!
