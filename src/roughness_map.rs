//! Rule-based parts of roughness estimation: material classification and the
//! specular hint, decided exactly on the 8-bit samples. Thresholds written as
//! fractions of 1 compare a saturation `(max - min) / max`, a chroma
//! `(max - min) / 255` or a Rec. 709 luminance on the 0..1 scale.
use vstd::prelude::*;
use crate::guided::{clamp_coord, clamp_index};
use crate::raster::{lemma_split_index, plane_index, GrayImage, RgbaImage};

verus! {

/// Builds roughness maps from albedo images.
pub struct RoughnessMapGenerator;

/// Radius of the window whose luminance variance tells smooth from brushed metal.
pub const VARIANCE_RADIUS: i64 = 2;
/// Luminance of a pixel is `luma_sum / LUMA_SCALE` on the 0..1 scale.
pub const LUMA_SCALE: i64 = 2550000;

/// Roughness of a very smooth metal, in thousandths.
pub const METAL_SMOOTH: u32 = 150;
/// Roughness of a brushed metal, in thousandths.
pub const METAL_BRUSHED: u32 = 250;
/// Roughness of a saturated diffuse material (fabric, paint), in thousandths.
pub const DIFFUSE_SATURATED: u32 = 750;
/// Roughness of an organic material (wood, leather), in thousandths.
pub const ORGANIC: u32 = 650;
/// Roughness of stone or concrete, in thousandths.
pub const STONE: u32 = 800;
/// Roughness when no rule applies, in thousandths.
pub const DEFAULT_ROUGHNESS: u32 = 500;

/// Specular hint of a highlight, in thousandths.
pub const SPECULAR_HIGHLIGHT: u32 = 0;
/// Specular hint of a metal-like pixel, in thousandths.
pub const SPECULAR_METAL: u32 = 200;
/// Specular hint of anything else, in thousandths.
pub const SPECULAR_NONE: u32 = 500;

/// Rec. 709 luminance of an RGB triple, scaled by `LUMA_SCALE`.
pub open spec fn luma_sum(r: int, g: int, b: int) -> int {
    2126 * r + 7152 * g + 722 * b
}

pub open spec fn max3(a: int, b: int, c: int) -> int {
    if a >= b && a >= c { a } else if b >= c { b } else { c }
}

pub open spec fn min3(a: int, b: int, c: int) -> int {
    if a <= b && a <= c { a } else if b <= c { b } else { c }
}

/// Saturation `(mx - mn) / mx` (0 when `mx` is 0) is below `p / q`.
pub open spec fn saturation_below(mx: int, mn: int, p: int, q: int) -> bool {
    if mx == 0 { 0 < p } else { q * (mx - mn) < p * mx }
}

/// Saturation `(mx - mn) / mx` (0 when `mx` is 0) is above `p / q`.
pub open spec fn saturation_above(mx: int, mn: int, p: int, q: int) -> bool {
    if mx == 0 { 0 > p } else { q * (mx - mn) > p * mx }
}

/// The samples of the pixel at (`x`, `y`).
pub open spec fn pixel(img: RgbaImage, x: int, y: int) -> (int, int, int) {
    let i = 4 * (y * img.width + x);
    (img.data@[i] as int, img.data@[i + 1] as int, img.data@[i + 2] as int)
}

/// Scaled luminance of the pixel at (`x`, `y`).
pub open spec fn luma_at(img: RgbaImage, x: int, y: int) -> int {
    let (r, g, b) = pixel(img, x, y);
    luma_sum(r, g, b)
}

/// Sum of the scaled luminance (`sq` false) or of its square (`sq` true) over
/// the first `k` columns of window row `yy` around column `x`.
pub open spec fn luma_row_sum(img: RgbaImage, sq: bool, x: int, yy: int, k: int) -> int
    decreases k,
{
    if k <= 0 {
        0
    } else {
        let l = luma_at(img, clamp_coord(x - VARIANCE_RADIUS + k - 1, img.width as int), yy);
        luma_row_sum(img, sq, x, yy, k - 1) + if sq { l * l } else { l }
    }
}

/// The same over the first `k` rows of the window around (`x`, `y`).
pub open spec fn luma_window_sum(img: RgbaImage, sq: bool, x: int, y: int, k: int) -> int
    decreases k,
{
    if k <= 0 {
        0
    } else {
        luma_window_sum(img, sq, x, y, k - 1) + luma_row_sum(
            img,
            sq,
            x,
            clamp_coord(y - VARIANCE_RADIUS + k - 1, img.height as int),
            2 * VARIANCE_RADIUS + 1,
        )
    }
}

/// The luminance variance of the 5x5 window around (`x`, `y`) is below 0.05.
pub open spec fn smooth_neighbourhood(img: RgbaImage, x: int, y: int) -> bool {
    let n = (2 * VARIANCE_RADIUS + 1) * (2 * VARIANCE_RADIUS + 1);
    let s1 = luma_window_sum(img, false, x, y, 2 * VARIANCE_RADIUS + 1);
    let s2 = luma_window_sum(img, true, x, y, 2 * VARIANCE_RADIUS + 1);
    20 * (n * s2 - s1 * s1) < n * n * LUMA_SCALE * LUMA_SCALE
}

/// Sum of the samples (`sq` false) or of their squares (`sq` true) over the
/// first `k` columns of window row `yy` around column `x` of a gray image.
pub open spec fn gray_row_sum(img: GrayImage, sq: bool, x: int, yy: int, k: int) -> int
    decreases k,
{
    if k <= 0 {
        0
    } else {
        let v = img.at(clamp_coord(x - VARIANCE_RADIUS + k - 1, img.width as int), yy) as int;
        gray_row_sum(img, sq, x, yy, k - 1) + if sq { v * v } else { v }
    }
}

/// The same over the first `k` rows of the window around (`x`, `y`).
pub open spec fn gray_window_sum(img: GrayImage, sq: bool, x: int, y: int, k: int) -> int
    decreases k,
{
    if k <= 0 {
        0
    } else {
        gray_window_sum(img, sq, x, y, k - 1) + gray_row_sum(
            img,
            sq,
            x,
            clamp_coord(y - VARIANCE_RADIUS + k - 1, img.height as int),
            2 * VARIANCE_RADIUS + 1,
        )
    }
}

/// The variance of the 5x5 window around (`x`, `y`), samples on the 0..1
/// scale, exceeds 0.1.
pub open spec fn busy_neighbourhood(img: GrayImage, x: int, y: int) -> bool {
    let n = (2 * VARIANCE_RADIUS + 1) * (2 * VARIANCE_RADIUS + 1);
    let s1 = gray_window_sum(img, false, x, y, 2 * VARIANCE_RADIUS + 1);
    let s2 = gray_window_sum(img, true, x, y, 2 * VARIANCE_RADIUS + 1);
    10 * (n * s2 - s1 * s1) > n * n * 65025
}

/// Material roughness, in thousandths, of the pixel at (`x`, `y`).
pub open spec fn material_class(img: RgbaImage, x: int, y: int) -> u32 {
    let (r, g, b) = pixel(img, x, y);
    let mx = max3(r, g, b);
    let mn = min3(r, g, b);
    let l = luma_sum(r, g, b);
    if saturation_below(mx, mn, 15, 100) && 10 * l > 4 * LUMA_SCALE && 10 * l < 9 * LUMA_SCALE {
        if smooth_neighbourhood(img, x, y) { METAL_SMOOTH } else { METAL_BRUSHED }
    } else if saturation_above(mx, mn, 6, 10) {
        DIFFUSE_SATURATED
    } else if saturation_above(mx, mn, 2, 10) && saturation_below(mx, mn, 5, 10) && 10 * l > 2
        * LUMA_SCALE && 10 * l < 7 * LUMA_SCALE {
        ORGANIC
    } else if saturation_below(mx, mn, 2, 10) && 10 * l < 5 * LUMA_SCALE {
        STONE
    } else {
        DEFAULT_ROUGHNESS
    }
}

/// Specular hint, in thousandths, of an RGB triple.
pub open spec fn specular_hint(r: int, g: int, b: int) -> u32 {
    let chroma = max3(r, g, b) - min3(r, g, b);
    let l = luma_sum(r, g, b);
    if 10 * l > 7 * LUMA_SCALE && 100 * chroma < 15 * 255 {
        SPECULAR_HIGHLIGHT
    } else if 10 * l > 4 * LUMA_SCALE && 10 * chroma < 2 * 255 {
        SPECULAR_METAL
    } else {
        SPECULAR_NONE
    }
}

fn max_of(a: u8, b: u8, c: u8) -> (m: i64)
    ensures
        m == max3(a as int, b as int, c as int),
{
    if a >= b && a >= c { a as i64 } else if b >= c { b as i64 } else { c as i64 }
}

fn min_of(a: u8, b: u8, c: u8) -> (m: i64)
    ensures
        m == min3(a as int, b as int, c as int),
{
    if a <= b && a <= c { a as i64 } else if b <= c { b as i64 } else { c as i64 }
}

/// Index of the first sample of the pixel at (`x`, `y`).
fn pixel_base(img: &RgbaImage, x: u32, y: u32) -> (i: usize)
    requires
        img.wf(),
        x < img.width,
        y < img.height,
    ensures
        i as int == 4 * (y as int * img.width as int + x as int),
        i + 3 < img.data@.len(),
{
    let _len: usize = img.data.len(); // bounds the pixel count by usize::MAX
    proof {
        assert((y as int) * (img.width as int) + (x as int) < (img.width as int) * (img.height as int))
            by (nonlinear_arith)
            requires x < img.width, y < img.height;
    }
    4 * (y as usize * img.width as usize + x as usize)
}

/// Scaled luminance of the pixel at (`x`, `y`).
fn luma_at_exec(img: &RgbaImage, x: u32, y: u32) -> (l: i64)
    requires
        img.wf(),
        x < img.width,
        y < img.height,
    ensures
        l == luma_at(*img, x as int, y as int),
        0 <= l <= LUMA_SCALE,
{
    let p = pixel_base(img, x, y);
    2126 * img.data[p] as i64 + 7152 * img.data[p + 1] as i64 + 722 * img.data[p + 2] as i64
}

/// Every pixel of `img` has RGB samples `(r, g, b)`.
pub open spec fn is_uniform(img: RgbaImage, r: u8, g: u8, b: u8) -> bool {
    forall|i: int| 0 <= i < img.width * img.height ==> #[trigger] rgb_of(img, i) == (r, g, b)
}

/// The RGB samples of pixel `i`, counted row by row.
pub open spec fn rgb_of(img: RgbaImage, i: int) -> (u8, u8, u8) {
    (img.data@[4 * i], img.data@[4 * i + 1], img.data@[4 * i + 2])
}

proof fn lemma_uniform_pixel(img: RgbaImage, r: u8, g: u8, b: u8, x: int, y: int)
    requires
        img.wf(),
        is_uniform(img, r, g, b),
        0 <= x < img.width,
        0 <= y < img.height,
    ensures
        pixel(img, x, y) == (r as int, g as int, b as int),
{
    assert(0 <= y * img.width + x < img.width * img.height) by (nonlinear_arith)
        requires 0 <= x < img.width, 0 <= y < img.height;
    let i = y * img.width + x;
    assert(rgb_of(img, i) == (r, g, b));
}

proof fn lemma_uniform_row_sum(img: RgbaImage, r: u8, g: u8, b: u8, sq: bool, x: int, yy: int, k: int)
    requires
        img.wf(),
        is_uniform(img, r, g, b),
        img.width > 0,
        0 <= yy < img.height,
        k >= 0,
    ensures
        ({
            let l = luma_sum(r as int, g as int, b as int);
            luma_row_sum(img, sq, x, yy, k) == k * (if sq { l * l } else { l })
        }),
    decreases k,
{
    let l = luma_sum(r as int, g as int, b as int);
    let t = if sq { l * l } else { l };
    if k > 0 {
        lemma_uniform_row_sum(img, r, g, b, sq, x, yy, k - 1);
        lemma_uniform_pixel(img, r, g, b, clamp_coord(x - VARIANCE_RADIUS + k - 1, img.width as int), yy);
        assert(k * t == (k - 1) * t + t) by (nonlinear_arith);
    } else {
        assert(k * t == 0) by (nonlinear_arith)
            requires k == 0;
    }
}

proof fn lemma_uniform_window_sum(img: RgbaImage, r: u8, g: u8, b: u8, sq: bool, x: int, y: int, k: int)
    requires
        img.wf(),
        is_uniform(img, r, g, b),
        img.width > 0,
        img.height > 0,
        k >= 0,
    ensures
        ({
            let l = luma_sum(r as int, g as int, b as int);
            luma_window_sum(img, sq, x, y, k) == k * 5 * (if sq { l * l } else { l })
        }),
    decreases k,
{
    let l = luma_sum(r as int, g as int, b as int);
    let t = if sq { l * l } else { l };
    if k > 0 {
        lemma_uniform_window_sum(img, r, g, b, sq, x, y, k - 1);
        lemma_uniform_row_sum(img, r, g, b, sq, x, clamp_coord(y - VARIANCE_RADIUS + k - 1, img.height as int), 5);
        assert(k * 5 * t == (k - 1) * 5 * t + 5 * t) by (nonlinear_arith);
    } else {
        assert(k * 5 * t == 0) by (nonlinear_arith)
            requires k == 0;
    }
}

/// On an albedo of one colour every neighbourhood is smooth, so the material
/// class and the specular hint are the same at every pixel.
pub proof fn lemma_uniform_albedo_decides_alike(img: RgbaImage, r: u8, g: u8, b: u8, x: int, y: int)
    requires
        img.wf(),
        is_uniform(img, r, g, b),
        0 <= x < img.width,
        0 <= y < img.height,
    ensures
        material_class(img, x, y) == material_class(img, 0, 0),
        specular_hint(pixel(img, x, y).0, pixel(img, x, y).1, pixel(img, x, y).2) == specular_hint(
            r as int,
            g as int,
            b as int,
        ),
{
    lemma_uniform_pixel(img, r, g, b, x, y);
    lemma_uniform_pixel(img, r, g, b, 0, 0);
    let l = luma_sum(r as int, g as int, b as int);
    assert forall|px: int, py: int| 0 <= px < img.width && 0 <= py < img.height implies smooth_neighbourhood(
        img,
        px,
        py,
    ) by {
        lemma_uniform_window_sum(img, r, g, b, false, px, py, 5);
        lemma_uniform_window_sum(img, r, g, b, true, px, py, 5);
        let s1 = luma_window_sum(img, false, px, py, 5);
        let s2 = luma_window_sum(img, true, px, py, 5);
        assert(s1 == 5 * 5 * l);
        assert(s2 == 5 * 5 * (l * l));
        assert(25 * s2 - s1 * s1 == 0) by (nonlinear_arith)
            requires s1 == 25 * l, s2 == 25 * (l * l);
        let n = (2 * VARIANCE_RADIUS + 1) * (2 * VARIANCE_RADIUS + 1);
        assert(n == 25);
        assert(20 * (n * s2 - s1 * s1) == 0);
        assert(n * n * LUMA_SCALE * LUMA_SCALE > 0) by (nonlinear_arith)
            requires n == 25, LUMA_SCALE == 2550000;
    }
}

/// `v` is what `fuse` may return for pixel `i` of `albedo` (counted row by
/// row), given the pixel's coordinates, material class and specular hint.
pub open spec fn fused_at<F: Fn(&RgbaImage, u32, u32, u32, u32) -> u8>(
    fuse: &F,
    albedo: &RgbaImage,
    i: int,
    v: u8,
) -> bool {
    let x = i % albedo.width as int;
    let y = i / albedo.width as int;
    let (r, g, b) = pixel(*albedo, x, y);
    fuse.ensures((albedo, x as u32, y as u32, material_class(*albedo, x, y), specular_hint(r, g, b)), v)
}

/// `raw` is a raw roughness map of `albedo`: its size, and at each pixel a
/// value `fuse` may return there.
pub open spec fn is_raw_roughness<F: Fn(&RgbaImage, u32, u32, u32, u32) -> u8>(
    fuse: &F,
    albedo: &RgbaImage,
    raw: GrayImage,
) -> bool {
    &&& raw.wf()
    &&& raw.width == albedo.width
    &&& raw.height == albedo.height
    &&& forall|i: int| 0 <= i < raw.data@.len() ==> fused_at(fuse, albedo, i, #[trigger] raw.data@[i])
}

/// `a` and `b` have the same size and the same RGB samples; alpha may differ.
pub open spec fn same_rgb(a: RgbaImage, b: RgbaImage) -> bool {
    &&& a.width == b.width && a.height == b.height
    &&& forall|i: int| 0 <= i < a.width * a.height ==> #[trigger] rgb_of(a, i) == rgb_of(b, i)
}

proof fn lemma_same_rgb_pixel(a: RgbaImage, b: RgbaImage, x: int, y: int)
    requires
        same_rgb(a, b),
        0 <= x < a.width,
        0 <= y < a.height,
    ensures
        pixel(a, x, y) == pixel(b, x, y),
{
    assert(0 <= y * a.width + x < a.width * a.height) by (nonlinear_arith)
        requires 0 <= x < a.width, 0 <= y < a.height;
    assert(rgb_of(a, y * a.width + x) == rgb_of(b, y * a.width + x));
}

proof fn lemma_same_rgb_row_sum(a: RgbaImage, b: RgbaImage, sq: bool, x: int, yy: int, k: int)
    requires
        same_rgb(a, b),
        a.width > 0,
        0 <= yy < a.height,
    ensures
        luma_row_sum(a, sq, x, yy, k) == luma_row_sum(b, sq, x, yy, k),
    decreases k,
{
    if k > 0 {
        lemma_same_rgb_row_sum(a, b, sq, x, yy, k - 1);
        lemma_same_rgb_pixel(a, b, clamp_coord(x - VARIANCE_RADIUS + k - 1, a.width as int), yy);
    }
}

proof fn lemma_same_rgb_window_sum(a: RgbaImage, b: RgbaImage, sq: bool, x: int, y: int, k: int)
    requires
        same_rgb(a, b),
        a.width > 0,
        a.height > 0,
    ensures
        luma_window_sum(a, sq, x, y, k) == luma_window_sum(b, sq, x, y, k),
    decreases k,
{
    if k > 0 {
        lemma_same_rgb_window_sum(a, b, sq, x, y, k - 1);
        lemma_same_rgb_row_sum(a, b, sq, x, clamp_coord(y - VARIANCE_RADIUS + k - 1, a.height as int), 5);
    }
}

/// The material class and the specular hint read the RGB samples alone: two
/// albedos that differ only in alpha are decided alike at every pixel.
pub proof fn lemma_decisions_ignore_alpha(a: RgbaImage, b: RgbaImage, x: int, y: int)
    requires
        same_rgb(a, b),
        0 <= x < a.width,
        0 <= y < a.height,
    ensures
        material_class(a, x, y) == material_class(b, x, y),
        pixel(a, x, y) == pixel(b, x, y),
{
    lemma_same_rgb_pixel(a, b, x, y);
    lemma_same_rgb_window_sum(a, b, false, x, y, 5);
    lemma_same_rgb_window_sum(a, b, true, x, y, 5);
}

impl RoughnessMapGenerator {
    /// Whether the luminance variance of the 5x5 window around (`x`, `y`),
    /// coordinates clamped to the border, is below 0.05.
    pub fn is_smooth_neighbourhood(image: &RgbaImage, x: u32, y: u32) -> (r: bool)
        requires
            image.wf(),
            x < image.width,
            y < image.height,
        ensures
            r == smooth_neighbourhood(*image, x as int, y as int),
    {
        let mut s1: i64 = 0;
        let mut s2: i64 = 0;
        let mut t: i64 = 0;
        while t < 2 * VARIANCE_RADIUS + 1
            invariant
                image.wf(),
                x < image.width,
                y < image.height,
                0 <= t <= 5,
                s1 as int == luma_window_sum(*image, false, x as int, y as int, t as int),
                s2 as int == luma_window_sum(*image, true, x as int, y as int, t as int),
                0 <= s1 <= t * 5 * LUMA_SCALE,
                0 <= s2 <= t * 5 * (LUMA_SCALE * LUMA_SCALE),
            decreases 5 - t,
        {
            let yy = clamp_index(y as i64 - VARIANCE_RADIUS + t, image.height);
            let ghost (b1, b2) = (s1 as int, s2 as int);
            let mut u: i64 = 0;
            while u < 2 * VARIANCE_RADIUS + 1
                invariant
                    image.wf(),
                    x < image.width,
                    yy < image.height,
                    0 <= t < 5,
                    0 <= u <= 5,
                    s1 as int == b1 + luma_row_sum(*image, false, x as int, yy as int, u as int),
                    s2 as int == b2 + luma_row_sum(*image, true, x as int, yy as int, u as int),
                    0 <= s1 <= (t * 5 + u) * LUMA_SCALE,
                    0 <= s2 <= (t * 5 + u) * (LUMA_SCALE * LUMA_SCALE),
                decreases 5 - u,
            {
                let xx = clamp_index(x as i64 - VARIANCE_RADIUS + u, image.width);
                let l = luma_at_exec(image, xx, yy);
                proof {
                    assert(0 <= l * l <= 6502500000000) by (nonlinear_arith)
                        requires 0 <= l <= 2550000;
                    assert((t * 5 + u + 1) * 6502500000000 == (t * 5 + u) * 6502500000000 + 6502500000000)
                        by (nonlinear_arith);
                    assert((t * 5 + u + 1) * 6502500000000 <= 25 * 6502500000000) by (nonlinear_arith)
                        requires 0 <= t < 5, 0 <= u < 5;
                }
                s1 = s1 + l;
                s2 = s2 + l * l;
                u += 1;
            }
            t += 1;
        }
        proof {
            assert(0 <= (s1 as int) * (s1 as int) <= 63750000 * 63750000) by (nonlinear_arith)
                requires 0 <= s1 <= 63750000;
        }
        let n: i64 = 25;
        let s1w: i128 = s1 as i128;
        let sq: i128 = s1w * s1w;
        let spread: i128 = n as i128 * s2 as i128 - sq;
        20 * spread < (n * n) as i128 * (LUMA_SCALE as i128 * LUMA_SCALE as i128)
    }

    /// Whether the variance of the 5x5 window around (`x`, `y`) of a gray
    /// image, coordinates clamped to the border and samples on the 0..1
    /// scale, exceeds 0.1; edge-aware smoothing then keeps edges sharper.
    pub fn is_busy_neighbourhood(image: &GrayImage, x: u32, y: u32) -> (r: bool)
        requires
            image.wf(),
            x < image.width,
            y < image.height,
        ensures
            r == busy_neighbourhood(*image, x as int, y as int),
    {
        let _len: usize = image.data.len(); // bounds the pixel count by usize::MAX
        let mut s1: i64 = 0;
        let mut s2: i64 = 0;
        let mut t: i64 = 0;
        while t < 2 * VARIANCE_RADIUS + 1
            invariant
                image.wf(),
                image.width as int * image.height as int <= usize::MAX,
                x < image.width,
                y < image.height,
                0 <= t <= 5,
                s1 as int == gray_window_sum(*image, false, x as int, y as int, t as int),
                s2 as int == gray_window_sum(*image, true, x as int, y as int, t as int),
                0 <= s1 <= t * 5 * 255,
                0 <= s2 <= t * 5 * 65025,
            decreases 5 - t,
        {
            let yy = clamp_index(y as i64 - VARIANCE_RADIUS + t, image.height);
            let ghost (b1, b2) = (s1 as int, s2 as int);
            let mut u: i64 = 0;
            while u < 2 * VARIANCE_RADIUS + 1
                invariant
                    image.wf(),
                    image.width as int * image.height as int <= usize::MAX,
                    x < image.width,
                    yy < image.height,
                    0 <= t < 5,
                    0 <= u <= 5,
                    s1 as int == b1 + gray_row_sum(*image, false, x as int, yy as int, u as int),
                    s2 as int == b2 + gray_row_sum(*image, true, x as int, yy as int, u as int),
                    0 <= s1 <= (t * 5 + u) * 255,
                    0 <= s2 <= (t * 5 + u) * 65025,
                decreases 5 - u,
            {
                let xx = clamp_index(x as i64 - VARIANCE_RADIUS + u, image.width);
                let k = plane_index(xx, yy, image.width, image.height);
                let v: i64 = image.data[k] as i64;
                proof {
                    assert(0 <= v * v <= 65025) by (nonlinear_arith)
                        requires 0 <= v <= 255;
                }
                s1 = s1 + v;
                s2 = s2 + v * v;
                u += 1;
            }
            t += 1;
        }
        proof {
            assert(0 <= (s1 as int) * (s1 as int) <= 6375 * 6375) by (nonlinear_arith)
                requires 0 <= s1 <= 6375;
        }
        let sq: i64 = s1 * s1;
        10 * (25 * s2 - sq) > 25 * 25 * 65025
    }

    /// Material roughness, in thousandths, of the pixel at (`x`, `y`):
    /// 150 for smooth metal (saturation < 0.15, 0.4 < luminance < 0.9, window
    /// variance < 0.05), 250 for other metal, 750 for saturation > 0.6, 650 for
    /// 0.2 < saturation < 0.5 with 0.2 < luminance < 0.7, 800 for
    /// saturation < 0.2 with luminance < 0.5, else 500; the first rule that
    /// applies decides.
    pub fn classify_material_enhanced(image: &RgbaImage, x: u32, y: u32) -> (r: u32)
        requires
            image.wf(),
            x < image.width,
            y < image.height,
        ensures
            r == material_class(*image, x as int, y as int),
    {
        let p = pixel_base(image, x, y);
        let (r, g, b) = (image.data[p], image.data[p + 1], image.data[p + 2]);
        let mx = max_of(r, g, b);
        let mn = min_of(r, g, b);
        let l = luma_at_exec(image, x, y);
        let sat_lt_015 = if mx == 0 { true } else { 100 * (mx - mn) < 15 * mx };
        let sat_lt_02 = if mx == 0 { true } else { 10 * (mx - mn) < 2 * mx };
        let sat_lt_05 = if mx == 0 { true } else { 10 * (mx - mn) < 5 * mx };
        let sat_gt_06 = if mx == 0 { false } else { 10 * (mx - mn) > 6 * mx };
        let sat_gt_02 = if mx == 0 { false } else { 10 * (mx - mn) > 2 * mx };
        if sat_lt_015 && 10 * l > 4 * LUMA_SCALE && 10 * l < 9 * LUMA_SCALE {
            if Self::is_smooth_neighbourhood(image, x, y) {
                METAL_SMOOTH
            } else {
                METAL_BRUSHED
            }
        } else if sat_gt_06 {
            DIFFUSE_SATURATED
        } else if sat_gt_02 && sat_lt_05 && 10 * l > 2 * LUMA_SCALE && 10 * l < 7 * LUMA_SCALE {
            ORGANIC
        } else if sat_lt_02 && 10 * l < 5 * LUMA_SCALE {
            STONE
        } else {
            DEFAULT_ROUGHNESS
        }
    }

    /// Specular hint, in thousandths, of the pixel at (`x`, `y`): 0 for a
    /// highlight (luminance > 0.7, chroma < 0.15), 200 for a metal-like pixel
    /// (luminance > 0.4, chroma < 0.2), else 500.
    pub fn estimate_specular(image: &RgbaImage, x: u32, y: u32) -> (r: u32)
        requires
            image.wf(),
            x < image.width,
            y < image.height,
        ensures
            r == ({
                let (pr, pg, pb) = pixel(*image, x as int, y as int);
                specular_hint(pr, pg, pb)
            }),
    {
        let p = pixel_base(image, x, y);
        let (r, g, b) = (image.data[p], image.data[p + 1], image.data[p + 2]);
        let chroma = max_of(r, g, b) - min_of(r, g, b);
        let l = luma_at_exec(image, x, y);
        if 10 * l > 7 * LUMA_SCALE && 100 * chroma < 15 * 255 {
            SPECULAR_HIGHLIGHT
        } else if 10 * l > 4 * LUMA_SCALE && 10 * chroma < 2 * 255 {
            SPECULAR_METAL
        } else {
            SPECULAR_NONE
        }
    }

    /// Raw roughness map of an albedo image, row by row: at each pixel the
    /// material class and the specular hint are decided here and handed, with
    /// the image and the pixel's coordinates, to `fuse`, which weighs them with
    /// the measured factors into the pixel's 8-bit roughness.
    pub fn raw_roughness<F: Fn(&RgbaImage, u32, u32, u32, u32) -> u8>(albedo: &RgbaImage, fuse: &F) -> (r: GrayImage)
        requires
            albedo.wf(),
            forall|img: &RgbaImage, x: u32, y: u32, m: u32, sp: u32| #[trigger] fuse.requires((img, x, y, m, sp)),
        ensures
            is_raw_roughness(fuse, albedo, r),
    {
        let width = albedo.width;
        let height = albedo.height;
        let _len: usize = albedo.data.len(); // bounds the pixel count by usize::MAX
        let ghost w = width as int;
        let mut raw: Vec<u8> = Vec::new();
        let mut y: u32 = 0;
        while y < height
            invariant
                albedo.wf(),
                forall|img: &RgbaImage, x: u32, y: u32, m: u32, sp: u32| #[trigger] fuse.requires((img, x, y, m, sp)),
                width == albedo.width,
                height == albedo.height,
                w == width,
                y <= height,
                raw@.len() == y * w,
                forall|i: int| 0 <= i < raw@.len() ==> fused_at(fuse, albedo, i, #[trigger] raw@[i]),
            decreases height - y,
        {
            let mut x: u32 = 0;
            while x < width
                invariant
                    albedo.wf(),
                    forall|img: &RgbaImage, x: u32, y: u32, m: u32, sp: u32| #[trigger] fuse.requires((img, x, y, m, sp)),
                    width == albedo.width,
                    height == albedo.height,
                    w == width,
                    y < height,
                    x <= width,
                    raw@.len() == y * w + x,
                    forall|i: int| 0 <= i < raw@.len() ==> fused_at(fuse, albedo, i, #[trigger] raw@[i]),
                decreases width - x,
            {
                let material = Self::classify_material_enhanced(albedo, x, y);
                let specular = Self::estimate_specular(albedo, x, y);
                let v = fuse(albedo, x, y, material, specular);
                proof {
                    lemma_split_index(y * w + x, x as int, y as int, w);
                }
                raw.push(v);
                proof {
                    assert forall|i: int| 0 <= i < raw@.len() implies fused_at(fuse, albedo, i, #[trigger] raw@[i]) by {
                        if i == y * w + x {
                            assert(raw@[i] == v);
                        }
                    }
                }
                x += 1;
            }
            proof {
                assert((y + 1) * w == y * w + w) by (nonlinear_arith);
            }
            y += 1;
        }
        proof {
            assert(raw@.len() == w * height) by (nonlinear_arith)
                requires raw@.len() == y * w, y == height;
        }
        GrayImage { width, height, data: raw }
    }

    /// Roughness map of an albedo image: `smooth`, the edge-aware smoothing,
    /// over the raw map of `raw_roughness`.
    pub fn generate<F: Fn(&RgbaImage, u32, u32, u32, u32) -> u8, S: Fn(&GrayImage) -> GrayImage>(
        albedo: &RgbaImage,
        fuse: &F,
        smooth: &S,
    ) -> (r: GrayImage)
        requires
            albedo.wf(),
            forall|img: &RgbaImage, x: u32, y: u32, m: u32, sp: u32| #[trigger] fuse.requires((img, x, y, m, sp)),
            forall|g: &GrayImage| g.wf() ==> #[trigger] smooth.requires((g,)),
            forall|g: &GrayImage, b: GrayImage| #[trigger] smooth.ensures((g,), b) ==> b.wf() && b.width
                == g.width && b.height == g.height,
        ensures
            r.wf(),
            r.width == albedo.width,
            r.height == albedo.height,
            exists|raw: GrayImage| #[trigger] is_raw_roughness(fuse, albedo, raw) && smooth.ensures((&raw,), r),
    {
        let raw_map = Self::raw_roughness(albedo, fuse);
        let r = smooth(&raw_map);
        assert(is_raw_roughness(fuse, albedo, raw_map) && smooth.ensures((&raw_map,), r));
        r
    }
}

} // verus!
