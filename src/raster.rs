//! Plain 8-bit image buffers, row-major.
use vstd::prelude::*;

verus! {

/// A single-channel 8-bit image.
#[derive(Clone, Debug, PartialEq, Eq)]
pub struct GrayImage {
    pub width: u32,
    pub height: u32,
    pub data: Vec<u8>,
}

/// A four-channel (RGBA) 8-bit image, channels interleaved per pixel.
#[derive(Clone, Debug, PartialEq, Eq)]
pub struct RgbaImage {
    pub width: u32,
    pub height: u32,
    pub data: Vec<u8>,
}

/// A three-channel (RGB) 8-bit image, channels interleaved per pixel.
#[derive(Clone, Debug, PartialEq, Eq)]
pub struct RgbImage {
    pub width: u32,
    pub height: u32,
    pub data: Vec<u8>,
}

impl RgbImage {
    /// Three samples per pixel.
    pub open spec fn wf(&self) -> bool {
        self.data@.len() == 3 * (self.width as int * self.height as int)
    }
}

impl GrayImage {
    /// One sample per pixel.
    pub open spec fn wf(&self) -> bool {
        self.data@.len() == self.width as int * self.height as int
    }

    /// The sample at column `x`, row `y`.
    pub open spec fn at(&self, x: int, y: int) -> u8 {
        self.data@[y * self.width as int + x]
    }
}

impl RgbaImage {
    /// Four samples per pixel.
    pub open spec fn wf(&self) -> bool {
        self.data@.len() == 4 * (self.width as int * self.height as int)
    }
}

/// Rec. 709 luma of an RGB triple, on the 0..=255 scale, rounded down.
pub open spec fn luma709(r: u8, g: u8, b: u8) -> u8 {
    ((2126 * r as int + 7152 * g as int + 722 * b as int) / 10000) as u8
}

/// Computes `luma709`.
pub fn luma_of(r: u8, g: u8, b: u8) -> (l: u8)
    ensures
        l == luma709(r, g, b),
{
    let s: u32 = 2126 * r as u32 + 7152 * g as u32 + 722 * b as u32;
    (s / 10000) as u8
}

/// Index of the sample at column `x`, row `y` of a `width` x `height` plane.
pub fn plane_index(x: u32, y: u32, width: u32, height: u32) -> (i: usize)
    requires
        x < width,
        y < height,
        width as int * height as int <= usize::MAX,
    ensures
        i as int == y as int * width as int + x as int,
        (i as int) < (width as int) * (height as int),
{
    proof {
        assert((y as int) * (width as int) + (x as int) < (width as int) * (height as int)) by (nonlinear_arith)
            requires x < width, y < height;
    }
    y as usize * width as usize + x as usize
}

/// `i` splits into column `x` and row `y` of rows `w` wide.
pub proof fn lemma_split_index(i: int, x: int, y: int, w: int)
    requires
        0 <= x < w,
        0 <= y,
        i == y * w + x,
    ensures
        i % w == x,
        i / w == y,
{
    vstd::arithmetic::div_mod::lemma_fundamental_div_mod_converse(i, w, y, x);
}

/// Clamps `v` to the 8-bit range.
pub open spec fn clamp_u8(v: int) -> u8 {
    if v < 0 {
        0u8
    } else if v > 255 {
        255u8
    } else {
        v as u8
    }
}

} // verus!
