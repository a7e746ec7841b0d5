//! Height-map synthesis: luminance, Laplacian pyramid with per-level detail
//! boost, guided filtering, clip-limited histogram equalization and unsharp
//! masking. Gaussian blurs are done by imageproc, handed in by the caller.
use vstd::prelude::*;
use crate::raster::{clamp_u8, lemma_split_index, luma709, luma_of, plane_index, GrayImage, RgbaImage};

verus! {

/// Builds height maps from albedo images.
pub struct HeightMapGenerator;

/// Signed difference of two samples, remapped so that equal samples give 127.
pub open spec fn diff_sample(a: u8, b: u8) -> u8 {
    ((a as int - b as int + 255) / 2) as u8
}

/// A band sample `lap` added back onto `up`, undoing the band's remap:
/// `up + 2 * lap - 254`, clamped.
pub open spec fn band_sample(up: u8, lap: u8) -> u8 {
    clamp_u8(up as int + 2 * lap as int - 254)
}

/// Adding a band back onto the image it was taken against gives the original
/// sample, or one above it where the difference was odd.
pub proof fn lemma_band_round_trip(a: u8, b: u8)
    ensures
        a as int <= band_sample(b, diff_sample(a, b)) as int <= a as int + 1,
{
}

/// `v` pushed away from mid-gray (127.5) by the factor `1 + 0.15 * level`,
/// clamped and rounded down.
pub open spec fn amplified_sample(v: u8, level: int) -> u8 {
    clamp_u8((25500 + (2 * v as int - 255) * (100 + 15 * level)) / 200)
}

/// Unsharp mask of strength 1.2: `o + 1.2 * (o - blur)`, clamped and rounded down.
pub open spec fn sharpened_sample(o: u8, blur: u8) -> u8 {
    clamp_u8((11 * o as int - 6 * blur as int) / 5)
}

/// Rec. 709 luminance of each pixel of an RGBA buffer.
pub open spec fn luminance_pixels(rgba: Seq<u8>) -> Seq<u8> {
    Seq::new(rgba.len() / 4, |i: int| luma709(rgba[4 * i], rgba[4 * i + 1], rgba[4 * i + 2]))
}

/// Nearest-neighbour expansion of `img` to `tw` x `th`: each target pixel takes
/// the source pixel at half its coordinates, clamped to the border.
pub open spec fn expanded_pixels(img: GrayImage, tw: int, th: int) -> Seq<u8> {
    Seq::new(
        (tw * th) as nat,
        |i: int| {
            let x = i % tw;
            let y = i / tw;
            let sx = if x / 2 < img.width - 1 { x / 2 } else { img.width - 1 };
            let sy = if y / 2 < img.height - 1 { y / 2 } else { img.height - 1 };
            img.at(sx, sy)
        },
    )
}

/// Mean, rounded down, of the 2x2 block of `img` whose top-left pixel is (`x`, `y`).
pub open spec fn box_mean(img: GrayImage, x: int, y: int) -> u8 {
    ((img.at(x, y) as int + img.at(x + 1, y) as int + img.at(x, y + 1) as int + img.at(x + 1, y + 1) as int)
        / 4) as u8
}

/// `img` halved to `nw` x `nh` by averaging each 2x2 block.
pub open spec fn subsampled_pixels(img: GrayImage, nw: int, nh: int) -> Seq<u8> {
    Seq::new((nw * nh) as nat, |i: int| box_mean(img, 2 * (i % nw), 2 * (i / nw)))
}

/// Two images have the same size.
pub open spec fn same_size(a: &GrayImage, b: &GrayImage) -> bool {
    a.width == b.width && a.height == b.height
}

impl HeightMapGenerator {
    /// Perceptual (Rec. 709) luminance of an albedo image.
    pub fn to_perceptual_luminance(image: &RgbaImage) -> (r: GrayImage)
        requires
            image.wf(),
        ensures
            r.wf(),
            r.width == image.width,
            r.height == image.height,
            r.data@ == luminance_pixels(image.data@),
    {
        let total: usize = image.data.len();
        let n: usize = total / 4;
        let mut out: Vec<u8> = Vec::new();
        let mut i: usize = 0;
        while i < n
            invariant
                total == image.data@.len(),
                n * 4 == total,
                i <= n,
                out@.len() == i,
                forall|j: int| 0 <= j < i ==> out@[j] == luminance_pixels(image.data@)[j],
            decreases n - i,
        {
            let p: usize = 4 * i;
            out.push(luma_of(image.data[p], image.data[p + 1], image.data[p + 2]));
            i += 1;
        }
        assert(out@ =~= luminance_pixels(image.data@));
        GrayImage { width: image.width, height: image.height, data: out }
    }

    /// Pixelwise remapped difference `(a - b + 255) / 2`.
    pub fn subtract_images(a: &GrayImage, b: &GrayImage) -> (r: GrayImage)
        requires
            a.wf(),
            b.wf(),
            same_size(a, b),
        ensures
            r.wf(),
            same_size(&r, a),
            r.data@ == Seq::new(a.data@.len(), |i: int| diff_sample(a.data@[i], b.data@[i])),
    {
        let n: usize = a.data.len();
        let mut out: Vec<u8> = Vec::new();
        let mut i: usize = 0;
        while i < n
            invariant
                n == a.data@.len(),
                n == b.data@.len(),
                i <= n,
                out@.len() == i,
                forall|j: int| 0 <= j < i ==> out@[j] == diff_sample(a.data@[j], b.data@[j]),
            decreases n - i,
        {
            let d: i16 = (a.data[i] as i16 - b.data[i] as i16 + 255) / 2;
            out.push(d as u8);
            i += 1;
        }
        assert(out@ =~= Seq::new(a.data@.len(), |i: int| diff_sample(a.data@[i], b.data@[i])));
        GrayImage { width: a.width, height: a.height, data: out }
    }

    /// Adds the band `b` back onto `a` pixel by pixel, undoing the band's
    /// remap: `a + 2 * b - 254`, clamped to 0..=255.
    pub fn add_images(a: &GrayImage, b: &GrayImage) -> (r: GrayImage)
        requires
            a.wf(),
            b.wf(),
            same_size(a, b),
        ensures
            r.wf(),
            same_size(&r, a),
            r.data@ == Seq::new(a.data@.len(), |i: int| band_sample(a.data@[i], b.data@[i])),
    {
        let n: usize = a.data.len();
        let mut out: Vec<u8> = Vec::new();
        let mut i: usize = 0;
        while i < n
            invariant
                n == a.data@.len(),
                n == b.data@.len(),
                i <= n,
                out@.len() == i,
                forall|j: int| 0 <= j < i ==> out@[j] == band_sample(a.data@[j], b.data@[j]),
            decreases n - i,
        {
            let s: i32 = a.data[i] as i32 + 2 * b.data[i] as i32 - 254;
            out.push(if s < 0 { 0u8 } else if s > 255 { 255u8 } else { s as u8 });
            i += 1;
        }
        assert(out@ =~= Seq::new(a.data@.len(), |i: int| band_sample(a.data@[i], b.data@[i])));
        GrayImage { width: a.width, height: a.height, data: out }
    }

    /// Amplifies each sample's deviation from mid-gray by `1 + 0.15 * level`.
    pub fn amplify_image(image: &GrayImage, level: u32) -> (r: GrayImage)
        requires
            image.wf(),
        ensures
            r.wf(),
            same_size(&r, image),
            r.data@ == Seq::new(image.data@.len(), |i: int| amplified_sample(image.data@[i], level as int)),
    {
        let n: usize = image.data.len();
        let factor: i64 = 100 + 15 * level as i64;
        let mut out: Vec<u8> = Vec::new();
        let mut i: usize = 0;
        while i < n
            invariant
                n == image.data@.len(),
                factor == 100 + 15 * level as int,
                i <= n,
                out@.len() == i,
                forall|j: int| 0 <= j < i ==> out@[j] == amplified_sample(image.data@[j], level as int),
            decreases n - i,
        {
            let dev: i64 = 2 * image.data[i] as i64 - 255;
            proof {
                assert(-255 * factor <= dev * factor <= 255 * factor) by (nonlinear_arith)
                    requires -255 <= dev <= 255, factor >= 0;
            }
            let num: i64 = 25500 + dev * factor;
            let q: i64 = if num >= 0 { num / 200 } else { -((-num + 199) / 200) };
            assert(q == num as int / 200);
            out.push(if q < 0 { 0u8 } else if q > 255 { 255u8 } else { q as u8 });
            i += 1;
        }
        assert(out@ =~= Seq::new(image.data@.len(), |i: int| amplified_sample(image.data@[i], level as int)));
        GrayImage { width: image.width, height: image.height, data: out }
    }

    /// Unsharp masking of strength 1.2 against `blurred`, a Gaussian blur
    /// (sigma 1.5) of `image`.
    pub fn enhance_details(image: &GrayImage, blurred: &GrayImage) -> (r: GrayImage)
        requires
            image.wf(),
            blurred.wf(),
            same_size(image, blurred),
        ensures
            r.wf(),
            same_size(&r, image),
            r.data@ == Seq::new(image.data@.len(), |i: int| sharpened_sample(image.data@[i], blurred.data@[i])),
    {
        let n: usize = image.data.len();
        let mut out: Vec<u8> = Vec::new();
        let mut i: usize = 0;
        while i < n
            invariant
                n == image.data@.len(),
                n == blurred.data@.len(),
                i <= n,
                out@.len() == i,
                forall|j: int| 0 <= j < i ==> out@[j] == sharpened_sample(image.data@[j], blurred.data@[j]),
            decreases n - i,
        {
            let num: i32 = 11 * image.data[i] as i32 - 6 * blurred.data[i] as i32;
            let q: i32 = if num >= 0 { num / 5 } else { -((-num + 4) / 5) };
            assert(q == num as int / 5);
            out.push(if q < 0 { 0u8 } else if q > 255 { 255u8 } else { q as u8 });
            i += 1;
        }
        assert(out@ =~= Seq::new(image.data@.len(), |i: int| sharpened_sample(image.data@[i], blurred.data@[i])));
        GrayImage { width: image.width, height: image.height, data: out }
    }
    /// Nearest-neighbour expansion of `image` to `target_width` x `target_height`
    /// (each target pixel reads the source at half its coordinates, clamped to
    /// the border); the caller blurs the result.
    pub fn expand_nearest(image: &GrayImage, target_width: u32, target_height: u32) -> (r: GrayImage)
        requires
            image.wf(),
            image.width > 0,
            image.height > 0,
            target_width as int * target_height as int <= usize::MAX,
        ensures
            r.wf(),
            r.width == target_width,
            r.height == target_height,
            r.data@ == expanded_pixels(*image, target_width as int, target_height as int),
    {
        let ghost tw = target_width as int;
        let ghost spec_out = expanded_pixels(*image, tw, target_height as int);
        let _len: usize = image.data.len(); // bounds the pixel count by usize::MAX
        let mut out: Vec<u8> = Vec::new();
        let mut y: u32 = 0;
        while y < target_height
            invariant
                image.wf(),
                image.width > 0,
                image.height > 0,
                image.width as int * image.height as int <= usize::MAX,
                tw == target_width,
                spec_out == expanded_pixels(*image, tw, target_height as int),
                tw * target_height <= usize::MAX,
                y <= target_height,
                out@.len() == y * tw,
                forall|j: int| 0 <= j < out@.len() ==> out@[j] == spec_out[j],
            decreases target_height - y,
        {
            let sy: u32 = if y / 2 < image.height - 1 { y / 2 } else { image.height - 1 };
            let mut x: u32 = 0;
            while x < target_width
                invariant
                    image.wf(),
                    image.width > 0,
                    image.height > 0,
                    image.width as int * image.height as int <= usize::MAX,
                    tw == target_width,
                    spec_out == expanded_pixels(*image, tw, target_height as int),
                    tw * target_height <= usize::MAX,
                    y < target_height,
                    sy as int == (if y / 2 < image.height - 1 { y as int / 2 } else { image.height - 1 }),
                    x <= target_width,
                    out@.len() == y * tw + x,
                    forall|j: int| 0 <= j < out@.len() ==> out@[j] == spec_out[j],
                decreases target_width - x,
            {
                let sx: u32 = if x / 2 < image.width - 1 { x / 2 } else { image.width - 1 };
                let k = plane_index(sx, sy, image.width, image.height);
                proof {
                    let i = y * tw + x;
                    lemma_split_index(i, x as int, y as int, tw);
                    assert(i < tw * target_height) by (nonlinear_arith)
                        requires i == y * tw + x, x < tw, y < target_height;
                }
                out.push(image.data[k]);
                x += 1;
            }
            proof {
                assert(out@.len() == (y + 1) * tw) by (nonlinear_arith)
                    requires out@.len() == y * tw + tw;
            }
            y += 1;
        }
        assert(out@.len() == tw * target_height) by (nonlinear_arith)
            requires out@.len() == y * tw, y == target_height;
        assert(out@ =~= spec_out);
        GrayImage { width: target_width, height: target_height, data: out }
    }

    /// Halves `image` by averaging each 2x2 block of `blurred`, its Gaussian
    /// blur (sigma 1.0). An image that would lose a whole side is returned as
    /// it is.
    pub fn downsample(image: &GrayImage, blurred: &GrayImage) -> (r: GrayImage)
        requires
            image.wf(),
            blurred.wf(),
            same_size(image, blurred),
        ensures
            r.wf(),
            image.width / 2 == 0 || image.height / 2 == 0 ==> r.data@ == image.data@ && same_size(&r, image),
            image.width / 2 > 0 && image.height / 2 > 0 ==> r.width == image.width / 2 && r.height
                == image.height / 2 && r.data@ == subsampled_pixels(
                *blurred,
                r.width as int,
                r.height as int,
            ),
    {
        let nw: u32 = image.width / 2;
        let nh: u32 = image.height / 2;
        if nw == 0 || nh == 0 {
            return GrayImage { width: image.width, height: image.height, data: image.data.clone() };
        }
        let _len: usize = blurred.data.len(); // bounds the pixel count by usize::MAX
        let ghost w = nw as int;
        let ghost spec_out = subsampled_pixels(*blurred, w, nh as int);
        proof {
            assert(w * nh <= blurred.width as int * blurred.height as int) by (nonlinear_arith)
                requires w == blurred.width / 2, nh == blurred.height / 2;
        }
        let mut out: Vec<u8> = Vec::new();
        let mut y: u32 = 0;
        while y < nh
            invariant
                blurred.wf(),
                nw == blurred.width / 2,
                nh == blurred.height / 2,
                w == nw,
                spec_out == subsampled_pixels(*blurred, w, nh as int),
                w * nh <= blurred.width as int * blurred.height as int,
                blurred.width as int * blurred.height as int <= usize::MAX,
                y <= nh,
                out@.len() == y * w,
                forall|j: int| 0 <= j < out@.len() ==> out@[j] == spec_out[j],
            decreases nh - y,
        {
            let mut x: u32 = 0;
            while x < nw
                invariant
                    blurred.wf(),
                    nw == blurred.width / 2,
                    nh == blurred.height / 2,
                    w == nw,
                    spec_out == subsampled_pixels(*blurred, w, nh as int),
                    w * nh <= blurred.width as int * blurred.height as int,
                    blurred.width as int * blurred.height as int <= usize::MAX,
                    y < nh,
                    x <= nw,
                    out@.len() == y * w + x,
                    forall|j: int| 0 <= j < out@.len() ==> out@[j] == spec_out[j],
                decreases nw - x,
            {
                let k00 = plane_index(2 * x, 2 * y, blurred.width, blurred.height);
                let k10 = plane_index(2 * x + 1, 2 * y, blurred.width, blurred.height);
                let k01 = plane_index(2 * x, 2 * y + 1, blurred.width, blurred.height);
                let k11 = plane_index(2 * x + 1, 2 * y + 1, blurred.width, blurred.height);
                let total: u16 = blurred.data[k00] as u16 + blurred.data[k10] as u16 + blurred.data[k01] as u16
                    + blurred.data[k11] as u16;
                proof {
                    let i = y * w + x;
                    lemma_split_index(i, x as int, y as int, w);
                    assert(i < w * nh) by (nonlinear_arith)
                        requires i == y * w + x, x < w, y < nh;
                }
                out.push((total / 4) as u8);
                x += 1;
            }
            proof {
                assert(out@.len() == (y + 1) * w) by (nonlinear_arith)
                    requires out@.len() == y * w + w;
            }
            y += 1;
        }
        assert(out@.len() == w * nh) by (nonlinear_arith)
            requires out@.len() == y * w, y == nh;
        assert(out@ =~= spec_out);
        GrayImage { width: nw, height: nh, data: out }
    }
}

} // verus!
