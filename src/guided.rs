//! Guided filter (He et al.) with radius 8 and regularization 0.01, computed
//! in exact integer arithmetic on the 0..=255 scale.
use vstd::prelude::*;
use crate::height_map::{same_size, HeightMapGenerator};
use crate::raster::{clamp_u8, lemma_split_index, plane_index, GrayImage};

verus! {

/// Window radius of the filter.
pub const RADIUS: i64 = 8;
/// Pixels in one window: (2 * RADIUS + 1)^2.
pub const WINDOW: i64 = 289;

/// `c` clamped into `0..n`.
pub open spec fn clamp_coord(c: int, n: int) -> int {
    if c < 0 {
        0
    } else if c > n - 1 {
        n - 1
    } else {
        c
    }
}

/// The window quantity of kind `kind` at one pixel: guide, input, guide
/// squared, guide times input.
pub open spec fn term(guide: GrayImage, input: GrayImage, kind: int, x: int, y: int) -> int {
    let g = guide.at(x, y) as int;
    let i = input.at(x, y) as int;
    if kind == 0 {
        g
    } else if kind == 1 {
        i
    } else if kind == 2 {
        g * g
    } else {
        g * i
    }
}

/// Sum of `term` over the first `k` columns of the window row `yy` around column `x`.
pub open spec fn row_sum(guide: GrayImage, input: GrayImage, kind: int, x: int, yy: int, k: int) -> int
    decreases k,
{
    if k <= 0 {
        0
    } else {
        row_sum(guide, input, kind, x, yy, k - 1) + term(
            guide,
            input,
            kind,
            clamp_coord(x - RADIUS + k - 1, guide.width as int),
            yy,
        )
    }
}

/// Sum of `term` over the first `k` rows of the window around (`x`, `y`),
/// coordinates clamped to the border.
pub open spec fn window_sum(guide: GrayImage, input: GrayImage, kind: int, x: int, y: int, k: int) -> int
    decreases k,
{
    if k <= 0 {
        0
    } else {
        window_sum(guide, input, kind, x, y, k - 1) + row_sum(
            guide,
            input,
            kind,
            x,
            clamp_coord(y - RADIUS + k - 1, guide.height as int),
            2 * RADIUS + 1,
        )
    }
}

/// Output of the filter from the window sums and the guide sample `g0`:
/// `a * g0 + b` with `a = cov / (var + 0.01)`, `b = mean(input) - a * mean(guide)`,
/// all on the 0..1 scale, clamped and rounded down on the 0..=255 scale.
pub open spec fn guided_value(sg: int, si: int, sgg: int, sgi: int, g0: int) -> u8 {
    let n = WINDOW as int;
    let d = 4 * (n * sgg - sg * sg) + 2601 * n * n;
    if d > 0 {
        clamp_u8((si * d + 4 * (n * sgi - sg * si) * (n * g0 - sg)) / (n * d))
    } else {
        clamp_u8(si / n)
    }
}

/// The filtered sample at (`x`, `y`).
pub open spec fn guided_pixel(input: GrayImage, guide: GrayImage, x: int, y: int) -> u8 {
    let k = 2 * RADIUS + 1;
    guided_value(
        window_sum(guide, input, 0, x, y, k),
        window_sum(guide, input, 1, x, y, k),
        window_sum(guide, input, 2, x, y, k),
        window_sum(guide, input, 3, x, y, k),
        guide.at(x, y) as int,
    )
}

/// The filtered image.
pub open spec fn guided_pixels(input: GrayImage, guide: GrayImage) -> Seq<u8> {
    let w = guide.width as int;
    Seq::new((w * guide.height) as nat, |i: int| guided_pixel(input, guide, i % w, i / w))
}

/// `c` clamped into `0..n`.
pub(crate) fn clamp_index(c: i64, n: u32) -> (r: u32)
    requires
        n > 0,
    ensures
        r as int == clamp_coord(c as int, n as int),
        r < n,
{
    if c < 0 {
        0
    } else if c > n as i64 - 1 {
        n - 1
    } else {
        c as u32
    }
}

/// Computes `guided_value` without overflow.
fn combine(sg: i64, si: i64, sgg: i64, sgi: i64, g0: i64) -> (r: u8)
    requires
        0 <= sg <= WINDOW * 255,
        0 <= si <= WINDOW * 255,
        0 <= sgg <= WINDOW * 65025,
        0 <= sgi <= WINDOW * 65025,
        0 <= g0 <= 255,
    ensures
        r == guided_value(sg as int, si as int, sgg as int, sgi as int, g0 as int),
{
    let n: i64 = WINDOW;
    proof {
        assert(0 <= n * sgg <= 289 * (289 * 65025)) by (nonlinear_arith)
            requires n == 289, 0 <= sgg <= 289 * 65025;
        assert(0 <= (sg as int) * (sg as int) <= 5430953025) by (nonlinear_arith)
            requires 0 <= sg <= 73695;
        assert(0 <= n * sgi <= 289 * (289 * 65025)) by (nonlinear_arith)
            requires n == 289, 0 <= sgi <= 289 * 65025;
        assert(0 <= sg * si <= (289 * 255) * (289 * 255)) by (nonlinear_arith)
            requires 0 <= sg <= 289 * 255, 0 <= si <= 289 * 255;
    }
    let sq: i64 = sg * sg;
    let var: i64 = n * sgg - sq;
    let d: i64 = 4 * var + 2601 * n * n;
    if d <= 0 {
        let q: i64 = si / n;
        return if q > 255 { 255u8 } else { q as u8 };
    }
    let cov: i64 = n * sgi - sg * si;
    let off: i64 = n * g0 - sg;
    proof {
        assert(-(289 * 255) <= off <= 289 * 255);
        let bd: int = 4int * (289 * (289 * 65025)) + 2601 * 289 * 289;
        assert(0 < d <= bd);
        assert(0 <= si * d <= (289 * 255) * bd) by (nonlinear_arith)
            requires 0 <= si <= 289 * 255, 0 < d <= bd;
        let cb: int = 289int * (289 * 65025) + (289 * 255) * (289 * 255);
        assert(-cb <= cov <= cb);
        assert(-(4 * cb) * (289 * 255) <= 4 * cov * off <= (4 * cb) * (289 * 255)) by (nonlinear_arith)
            requires -cb <= cov <= cb, -(289 * 255) <= off <= 289 * 255;
        assert(0 < n * d <= 289 * bd) by (nonlinear_arith)
            requires n == 289, 0 < d <= bd;
    }
    let num: i64 = si * d + 4 * cov * off;
    let den: i64 = n * d;
    if num < 0 {
        assert((num as int) / (den as int) < 0) by (nonlinear_arith)
            requires num < 0, den > 0;
        return 0u8;
    }
    let q: i64 = num / den;
    if q > 255 {
        255u8
    } else {
        q as u8
    }
}


/// The four window sums around (`x`, `y`).
fn window_sums(input: &GrayImage, guide: &GrayImage, x: u32, y: u32) -> (r: (i64, i64, i64, i64))
    requires
        input.wf(),
        guide.wf(),
        same_size(input, guide),
        x < guide.width,
        y < guide.height,
    ensures
        r.0 as int == window_sum(*guide, *input, 0, x as int, y as int, 2 * RADIUS + 1),
        r.1 as int == window_sum(*guide, *input, 1, x as int, y as int, 2 * RADIUS + 1),
        r.2 as int == window_sum(*guide, *input, 2, x as int, y as int, 2 * RADIUS + 1),
        r.3 as int == window_sum(*guide, *input, 3, x as int, y as int, 2 * RADIUS + 1),
        0 <= r.0 <= WINDOW * 255,
        0 <= r.1 <= WINDOW * 255,
        0 <= r.2 <= WINDOW * 65025,
        0 <= r.3 <= WINDOW * 65025,
{
    let _len: usize = guide.data.len(); // bounds the pixel count by usize::MAX
    let mut sg: i64 = 0;
    let mut si: i64 = 0;
    let mut sgg: i64 = 0;
    let mut sgi: i64 = 0;
    let mut t: i64 = 0;
    while t < 2 * RADIUS + 1
        invariant
            input.wf(),
            guide.wf(),
            same_size(input, guide),
            guide.width as int * guide.height as int <= usize::MAX,
            x < guide.width,
            y < guide.height,
            0 <= t <= 2 * RADIUS + 1,
            sg as int == window_sum(*guide, *input, 0, x as int, y as int, t as int),
            si as int == window_sum(*guide, *input, 1, x as int, y as int, t as int),
            sgg as int == window_sum(*guide, *input, 2, x as int, y as int, t as int),
            sgi as int == window_sum(*guide, *input, 3, x as int, y as int, t as int),
            0 <= sg <= t * 17 * 255,
            0 <= si <= t * 17 * 255,
            0 <= sgg <= t * 17 * 65025,
            0 <= sgi <= t * 17 * 65025,
        decreases 2 * RADIUS + 1 - t,
    {
        let yy = clamp_index(y as i64 - RADIUS + t, guide.height);
        let mut u: i64 = 0;
        let ghost (b0, b1, b2, b3) = (sg as int, si as int, sgg as int, sgi as int);
        while u < 2 * RADIUS + 1
            invariant
                input.wf(),
                guide.wf(),
                same_size(input, guide),
                guide.width as int * guide.height as int <= usize::MAX,
                x < guide.width,
                yy < guide.height,
                0 <= t < 2 * RADIUS + 1,
                0 <= u <= 2 * RADIUS + 1,
                sg as int == b0 + row_sum(*guide, *input, 0, x as int, yy as int, u as int),
                si as int == b1 + row_sum(*guide, *input, 1, x as int, yy as int, u as int),
                sgg as int == b2 + row_sum(*guide, *input, 2, x as int, yy as int, u as int),
                sgi as int == b3 + row_sum(*guide, *input, 3, x as int, yy as int, u as int),
                0 <= sg <= (t * 17 + u) * 255,
                0 <= si <= (t * 17 + u) * 255,
                0 <= sgg <= (t * 17 + u) * 65025,
                0 <= sgi <= (t * 17 + u) * 65025,
            decreases 2 * RADIUS + 1 - u,
        {
            let xx = clamp_index(x as i64 - RADIUS + u, guide.width);
            let k = plane_index(xx, yy, guide.width, guide.height);
            let g: i64 = guide.data[k] as i64;
            let v: i64 = input.data[k] as i64;
            proof {
                assert(0 <= g * g <= 65025 && 0 <= g * v <= 65025) by (nonlinear_arith)
                    requires 0 <= g <= 255, 0 <= v <= 255;
            }
            sg = sg + g;
            si = si + v;
            sgg = sgg + g * g;
            sgi = sgi + g * v;
            u += 1;
        }
        t += 1;
    }
    (sg, si, sgg, sgi)
}

impl HeightMapGenerator {
    /// Guided filter of `input` steered by `guide` over windows of radius 8
    /// (coordinates clamped to the border) with regularization 0.01.
    pub fn guided_filter(input: &GrayImage, guide: &GrayImage) -> (r: GrayImage)
        requires
            input.wf(),
            guide.wf(),
            same_size(input, guide),
        ensures
            r.wf(),
            same_size(&r, guide),
            r.data@ == guided_pixels(*input, *guide),
    {
        let width = guide.width;
        let height = guide.height;
        let _len: usize = guide.data.len(); // bounds the pixel count by usize::MAX
        let ghost w = width as int;
        let ghost spec_out = guided_pixels(*input, *guide);
        let mut out: Vec<u8> = Vec::new();
        let mut y: u32 = 0;
        while y < height
            invariant
                input.wf(),
                guide.wf(),
                same_size(input, guide),
                width == guide.width,
                height == guide.height,
                w == width,
                w * height <= usize::MAX,
                spec_out == guided_pixels(*input, *guide),
                y <= height,
                out@.len() == y * w,
                forall|j: int| 0 <= j < out@.len() ==> out@[j] == spec_out[j],
            decreases height - y,
        {
            let mut x: u32 = 0;
            while x < width
                invariant
                    input.wf(),
                    guide.wf(),
                    same_size(input, guide),
                    width == guide.width,
                    height == guide.height,
                    w == width,
                    w * height <= usize::MAX,
                    spec_out == guided_pixels(*input, *guide),
                    y < height,
                    x <= width,
                    out@.len() == y * w + x,
                    forall|j: int| 0 <= j < out@.len() ==> out@[j] == spec_out[j],
                decreases width - x,
            {
                let (sg, si, sgg, sgi) = window_sums(input, guide, x, y);
                let k = plane_index(x, y, width, height);
                let v = combine(sg, si, sgg, sgi, guide.data[k] as i64);
                proof {
                    let i = y * w + x;
                    lemma_split_index(i, x as int, y as int, w);
                    assert(i < w * height) by (nonlinear_arith)
                        requires i == y * w + x, x < w, y < height;
                }
                out.push(v);
                x += 1;
            }
            proof {
                assert(out@.len() == (y + 1) * w) by (nonlinear_arith)
                    requires out@.len() == y * w + w;
            }
            y += 1;
        }
        assert(out@.len() == w * height) by (nonlinear_arith)
            requires out@.len() == y * w, y == height;
        assert(out@ =~= spec_out);
        GrayImage { width, height, data: out }
    }
}


/// Every sample of `img` is `c`.
pub open spec fn is_flat(img: GrayImage, c: u8) -> bool {
    forall|i: int| 0 <= i < img.data@.len() ==> img.data@[i] == c
}

/// `term` of a flat image pair whose samples are all `c`.
pub open spec fn flat_term(kind: int, c: int) -> int {
    if kind == 0 || kind == 1 { c } else { c * c }
}

proof fn lemma_flat_at(img: GrayImage, c: u8, x: int, y: int)
    requires
        img.wf(),
        is_flat(img, c),
        0 <= x < img.width,
        0 <= y < img.height,
    ensures
        img.at(x, y) == c,
{
    assert(0 <= y * img.width + x < img.width * img.height) by (nonlinear_arith)
        requires 0 <= x < img.width, 0 <= y < img.height;
}

proof fn lemma_row_sum_flat(img: GrayImage, c: u8, kind: int, x: int, yy: int, k: int)
    requires
        img.wf(),
        is_flat(img, c),
        img.width > 0,
        0 <= yy < img.height,
        k >= 0,
    ensures
        row_sum(img, img, kind, x, yy, k) == k * flat_term(kind, c as int),
    decreases k,
{
    if k > 0 {
        lemma_row_sum_flat(img, c, kind, x, yy, k - 1);
        let cx = clamp_coord(x - RADIUS + k - 1, img.width as int);
        lemma_flat_at(img, c, cx, yy);
        assert(term(img, img, kind, cx, yy) == flat_term(kind, c as int));
        assert(k * flat_term(kind, c as int) == (k - 1) * flat_term(kind, c as int) + flat_term(kind, c as int))
            by (nonlinear_arith);
    } else {
        assert(k * flat_term(kind, c as int) == 0) by (nonlinear_arith)
            requires k == 0;
    }
}

proof fn lemma_window_sum_flat(img: GrayImage, c: u8, kind: int, x: int, y: int, k: int)
    requires
        img.wf(),
        is_flat(img, c),
        img.width > 0,
        img.height > 0,
        k >= 0,
    ensures
        window_sum(img, img, kind, x, y, k) == k * 17 * flat_term(kind, c as int),
    decreases k,
{
    if k > 0 {
        lemma_window_sum_flat(img, c, kind, x, y, k - 1);
        lemma_row_sum_flat(img, c, kind, x, clamp_coord(y - RADIUS + k - 1, img.height as int), 17);
        assert(k * 17 * flat_term(kind, c as int) == (k - 1) * 17 * flat_term(kind, c as int) + 17 * flat_term(
            kind,
            c as int,
        )) by (nonlinear_arith);
    } else {
        assert(k * 17 * flat_term(kind, c as int) == 0) by (nonlinear_arith)
            requires k == 0;
    }
}

/// Filtering a flat image with itself as the guide gives it back unchanged:
/// with no variance in any window, the output is the window mean.
pub proof fn lemma_guided_filter_keeps_flat_image(img: GrayImage, c: u8)
    requires
        img.wf(),
        is_flat(img, c),
    ensures
        guided_pixels(img, img) == img.data@,
{
    let w = img.width as int;
    let n = img.data@.len();
    assert forall|i: int| 0 <= i < n implies #[trigger] guided_pixels(img, img)[i] == img.data@[i] by {
        assert(w > 0 && img.height > 0) by (nonlinear_arith)
            requires 0 <= i < n, n == w * img.height, w >= 0, img.height >= 0;
        let x = i % w;
        let y = i / w;
        assert(0 <= y < img.height) by (nonlinear_arith)
            requires 0 <= i < w * img.height, w > 0, y == i / w;
        lemma_flat_at(img, c, x, y);
        let cc = c as int;
        lemma_window_sum_flat(img, c, 0, x, y, 17);
        lemma_window_sum_flat(img, c, 1, x, y, 17);
        lemma_window_sum_flat(img, c, 2, x, y, 17);
        lemma_window_sum_flat(img, c, 3, x, y, 17);
        let sg = 289 * cc;
        let sgg = 289 * (cc * cc);
        assert(289 * sgg - sg * sg == 0) by (nonlinear_arith)
            requires sg == 289 * cc, sgg == 289 * (cc * cc);
        let d = 4 * (289 * sgg - sg * sg) + 2601 * 289 * 289;
        assert(289 * sgg - sg * sg == 0);
        assert(d == 2601 * 289 * 289);
        assert((sg * d + 4 * (289 * sgg - sg * sg) * (289 * cc - sg)) / (289 * d) == cc) by (nonlinear_arith)
            requires d == 2601 * 289 * 289, sg == 289 * cc, 289 * sgg - sg * sg == 0;
        assert(guided_value(sg, sg, sgg, sgg, cc) == c);
    }
    assert(guided_pixels(img, img) =~= img.data@);
}

} // verus!
