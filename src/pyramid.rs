//! Laplacian pyramid: decomposition, per-level detail boost and
//! reconstruction, and the whole height-map pipeline. Gaussian blurs come
//! from the caller, who runs them with imageproc.
use vstd::prelude::*;
use crate::equalize::equalization_table;
use crate::guided::guided_pixels;
use crate::height_map::{
    amplified_sample, band_sample, diff_sample, expanded_pixels, luminance_pixels, same_size, sharpened_sample,
    subsampled_pixels, HeightMapGenerator,
};
use crate::raster::{GrayImage, RgbaImage};

verus! {

/// `blur` may be called on any well-formed image and returns one of its size.
pub open spec fn keeps_size<F: Fn(&GrayImage) -> GrayImage>(blur: &F) -> bool {
    &&& forall|g: &GrayImage| g.wf() ==> #[trigger] blur.requires((g,))
    &&& forall|g: &GrayImage, b: GrayImage| #[trigger] blur.ensures((g,), b) ==> b.wf() && same_size(&b, g)
}

/// Size of an image after `k` halvings, each of which is skipped once a side
/// would reach 0.
pub open spec fn halved(w: u32, h: u32, k: nat) -> (u32, u32)
    decreases k,
{
    if k == 0 {
        (w, h)
    } else {
        let (pw, ph) = halved(w, h, (k - 1) as nat);
        if pw / 2 == 0 || ph / 2 == 0 { (pw, ph) } else { ((pw / 2) as u32, (ph / 2) as u32) }
    }
}

proof fn lemma_halved_positive(w: u32, h: u32, k: nat)
    requires
        w > 0,
        h > 0,
    ensures
        halved(w, h, k).0 > 0,
        halved(w, h, k).1 > 0,
    decreases k,
{
    if k > 0 {
        lemma_halved_positive(w, h, (k - 1) as nat);
    }
}

/// One rebuilding step: `e` is `coarser` expanded to `band`'s size, `up` is
/// what `blur` may return for it, and `rec` is `band` added back onto `up`.
pub open spec fn rebuild_step<F: Fn(&GrayImage) -> GrayImage>(
    blur: &F,
    coarser: GrayImage,
    band: GrayImage,
    e: GrayImage,
    up: GrayImage,
    rec: GrayImage,
) -> bool {
    &&& e.width == band.width && e.height == band.height
    &&& e.data@ == expanded_pixels(coarser, band.width as int, band.height as int)
    &&& blur.ensures((&e,), up)
    &&& rec.width == band.width && rec.height == band.height
    &&& rec.data@ == Seq::new(band.data@.len(), |i: int| band_sample(up.data@[i], band.data@[i]))
}

/// `recs[j]` is the image rebuilt at level `j` of `pyramid`, for every level
/// from `k` on: the residual as it is, each finer one by `rebuild_step` from
/// the level above, through the expansions `exps` and their blurs `ups`.
pub open spec fn rebuilt_from<F: Fn(&GrayImage) -> GrayImage>(
    blur: &F,
    pyramid: Seq<GrayImage>,
    exps: Seq<GrayImage>,
    ups: Seq<GrayImage>,
    recs: Seq<GrayImage>,
    k: int,
) -> bool {
    let last = pyramid.len() - 1;
    &&& recs.len() == pyramid.len() && exps.len() == pyramid.len() && ups.len() == pyramid.len()
    &&& recs[last].width == pyramid[last].width && recs[last].height == pyramid[last].height
    &&& recs[last].data@ == pyramid[last].data@
    &&& forall|j: int| k <= j < last ==> #[trigger] rebuild_step(blur, recs[j + 1], pyramid[j], exps[j], ups[j], recs[j])
}

/// `down` is what `downsample` gives for `cur` and its blur `b`.
pub open spec fn downsampled(cur: GrayImage, b: GrayImage, down: GrayImage) -> bool {
    if cur.width / 2 == 0 || cur.height / 2 == 0 {
        down.data@ == cur.data@ && down.width == cur.width && down.height == cur.height
    } else {
        down.width == cur.width / 2 && down.height == cur.height / 2 && down.data@ == subsampled_pixels(
            b,
            down.width as int,
            down.height as int,
        )
    }
}

/// One decomposition step: `b` is what `blur` may return for `cur`, `down`
/// its downsampling, `e` that expanded back to `cur`'s size, `up` what `blur`
/// may return for `e`, and `band` the remapped difference of `cur` and `up`.
pub open spec fn decompose_step<F: Fn(&GrayImage) -> GrayImage>(
    blur: &F,
    cur: GrayImage,
    b: GrayImage,
    down: GrayImage,
    e: GrayImage,
    up: GrayImage,
    band: GrayImage,
) -> bool {
    &&& blur.ensures((&cur,), b)
    &&& downsampled(cur, b, down)
    &&& e.width == cur.width && e.height == cur.height
    &&& e.data@ == expanded_pixels(down, cur.width as int, cur.height as int)
    &&& blur.ensures((&e,), up)
    &&& band.width == cur.width && band.height == cur.height
    &&& band.data@ == Seq::new(cur.data@.len(), |i: int| diff_sample(cur.data@[i], up.data@[i]))
}

/// `pyramid` holds, for the first `l` levels, the band of `decompose_step`
/// from `curs[j]` (`curs[0]` being `image`) to `curs[j + 1]`.
pub open spec fn decomposed_upto<F: Fn(&GrayImage) -> GrayImage>(
    blur: &F,
    image: GrayImage,
    curs: Seq<GrayImage>,
    bs: Seq<GrayImage>,
    exps: Seq<GrayImage>,
    ups: Seq<GrayImage>,
    pyramid: Seq<GrayImage>,
    l: int,
) -> bool {
    &&& curs.len() > l && bs.len() >= l && exps.len() >= l && ups.len() >= l && pyramid.len() >= l
    &&& curs[0].width == image.width && curs[0].height == image.height && curs[0].data@ == image.data@
    &&& forall|j: int| 0 <= j < l ==> #[trigger] decompose_step(blur, curs[j], bs[j], curs[j + 1], exps[j], ups[j], pyramid[j])
}

/// `pyramid` is a Laplacian pyramid of `image` with `levels` bands, built by
/// `decompose_step` through some outputs of `blur`, the last image being the
/// residual.
pub open spec fn laplacian_pyramid_of<F: Fn(&GrayImage) -> GrayImage>(
    blur: &F,
    image: GrayImage,
    pyramid: Seq<GrayImage>,
    levels: int,
) -> bool {
    &&& pyramid.len() == levels + 1
    &&& exists|curs: Seq<GrayImage>, bs: Seq<GrayImage>, exps: Seq<GrayImage>, ups: Seq<GrayImage>|
        #[trigger] decomposed_upto(blur, image, curs, bs, exps, ups, pyramid, levels) && pyramid[levels]
            == curs[levels]
}

/// `boosted` is `pyramid` with level `l` of `n` amplified by `1 + 0.15 * (n - 1 - l)`.
pub open spec fn boosted_levels(pyramid: Seq<GrayImage>, boosted: Seq<GrayImage>) -> bool {
    &&& boosted.len() == pyramid.len()
    &&& forall|l: int| 0 <= l < boosted.len() ==> {
        &&& (#[trigger] boosted[l]).wf()
        &&& same_size(&boosted[l], &pyramid[l])
        &&& boosted[l].data@ == Seq::new(
            pyramid[l].data@.len(),
            |i: int| amplified_sample(pyramid[l].data@[i], pyramid.len() - 1 - l),
        )
    }
}

/// `r` is the image rebuilt from `pyramid` through some outputs of `blur`.
pub open spec fn rebuilt_of<F: Fn(&GrayImage) -> GrayImage>(blur: &F, pyramid: Seq<GrayImage>, r: GrayImage) -> bool {
    exists|exps: Seq<GrayImage>, ups: Seq<GrayImage>, recs: Seq<GrayImage>|
        #[trigger] rebuilt_from(blur, pyramid, exps, ups, recs, 0) && r == recs[0]
}

/// The stages of the height map `r` of `albedo`: luminance `gray`, its
/// three-band pyramid `pyr`, boosted to `boosted` and rebuilt to `combined`;
/// `sm` its guided filtering steered by `gray`; `eq` that equalized; `bl` what
/// `soften` may return for `eq`; and `r` the unsharp mask of `eq` against `bl`.
pub open spec fn height_stages<F: Fn(&GrayImage) -> GrayImage, G: Fn(&GrayImage) -> GrayImage>(
    albedo: &RgbaImage,
    blur: &F,
    soften: &G,
    gray: GrayImage,
    pyr: Seq<GrayImage>,
    boosted: Seq<GrayImage>,
    combined: GrayImage,
    sm: GrayImage,
    eq: GrayImage,
    bl: GrayImage,
    r: GrayImage,
) -> bool {
    &&& gray.width == albedo.width && gray.height == albedo.height
    &&& gray.data@ == luminance_pixels(albedo.data@)
    &&& laplacian_pyramid_of(blur, gray, pyr, 3)
    &&& boosted_levels(pyr, boosted)
    &&& rebuilt_of(blur, boosted, combined)
    &&& sm.data@ == guided_pixels(combined, gray)
    &&& eq.data@ == Seq::new(sm.data@.len(), |i: int| equalization_table(sm.data@)[sm.data@[i] as int])
    &&& soften.ensures((&eq,), bl)
    &&& r.data@ == Seq::new(eq.data@.len(), |i: int| sharpened_sample(eq.data@[i], bl.data@[i]))
}

impl HeightMapGenerator {
    /// Splits `image` into `levels` band-pass images and a residual. At each
    /// level the current image is blurred and halved, the half is expanded back
    /// and blurred, and the remapped difference `(current - expanded + 255) / 2`
    /// is kept; the half becomes the current image. Level `l` has the size of
    /// the image halved `l` times.
    pub fn build_laplacian_pyramid<F: Fn(&GrayImage) -> GrayImage>(
        image: &GrayImage,
        levels: usize,
        blur: &F,
    ) -> (r: Vec<GrayImage>)
        requires
            image.wf(),
            image.width > 0,
            image.height > 0,
            levels < usize::MAX,
            keeps_size(blur),
        ensures
            r@.len() == levels + 1,
            forall|l: int| 0 <= l <= levels ==> (#[trigger] r@[l]).wf() && (r@[l].width, r@[l].height)
                == halved(image.width, image.height, l as nat),
            laplacian_pyramid_of(blur, *image, r@, levels as int),
    {
        let mut pyramid: Vec<GrayImage> = Vec::new();
        let mut current = GrayImage { width: image.width, height: image.height, data: image.data.clone() };
        let ghost mut curs: Seq<GrayImage> = seq![current];
        let ghost mut bs: Seq<GrayImage> = Seq::empty();
        let ghost mut exps: Seq<GrayImage> = Seq::empty();
        let ghost mut ups: Seq<GrayImage> = Seq::empty();
        let mut l: usize = 0;
        while l < levels
            invariant
                l <= levels,
                keeps_size(blur),
                image.width > 0,
                image.height > 0,
                current.wf(),
                (current.width, current.height) == halved(image.width, image.height, l as nat),
                pyramid@.len() == l,
                forall|k: int| 0 <= k < l ==> (#[trigger] pyramid@[k]).wf() && (pyramid@[k].width, pyramid@[k].height)
                    == halved(image.width, image.height, k as nat),
                curs.len() == l + 1 && bs.len() == l && exps.len() == l && ups.len() == l,
                current == curs[l as int],
                decomposed_upto(blur, *image, curs, bs, exps, ups, pyramid@, l as int),
            decreases levels - l,
        {
            proof {
                lemma_halved_positive(image.width, image.height, l as nat);
            }
            let blurred = blur(&current);
            let down = Self::downsample(&current, &blurred);
            proof {
                lemma_halved_positive(image.width, image.height, (l + 1) as nat);
            }
            let _len: usize = current.data.len(); // bounds the pixel count by usize::MAX
            let expanded = Self::expand_nearest(&down, current.width, current.height);
            let up = blur(&expanded);
            let laplacian = Self::subtract_images(&current, &up);
            proof {
                assert(decompose_step(blur, current, blurred, down, expanded, up, laplacian));
                let ghost old_curs = curs;
                let ghost old_bs = bs;
                let ghost old_exps = exps;
                let ghost old_ups = ups;
                let ghost old_pyr = pyramid@;
                curs = curs.push(down);
                bs = bs.push(blurred);
                exps = exps.push(expanded);
                ups = ups.push(up);
                assert forall|j: int| 0 <= j < l ==> #[trigger] decompose_step(
                    blur,
                    curs[j],
                    bs[j],
                    curs[j + 1],
                    exps[j],
                    ups[j],
                    old_pyr.push(laplacian)[j],
                ) by {
                    if 0 <= j < l {
                        assert(curs[j] == old_curs[j] && curs[j + 1] == old_curs[j + 1] && bs[j] == old_bs[j]
                            && exps[j] == old_exps[j] && ups[j] == old_ups[j] && old_pyr.push(laplacian)[j]
                            == old_pyr[j]);
                        assert(decompose_step(blur, old_curs[j], old_bs[j], old_curs[j + 1], old_exps[j], old_ups[j], old_pyr[j]));
                    }
                }
            }
            pyramid.push(laplacian);
            current = down;
            l += 1;
        }
        let ghost body = pyramid@;
        pyramid.push(current);
        proof {
            assert forall|j: int| 0 <= j < levels implies #[trigger] decompose_step(
                blur,
                curs[j],
                bs[j],
                curs[j + 1],
                exps[j],
                ups[j],
                pyramid@[j],
            ) by {
                assert(pyramid@[j] == body[j]);
                assert(decompose_step(blur, curs[j], bs[j], curs[j + 1], exps[j], ups[j], body[j]));
            }
            assert(decomposed_upto(blur, *image, curs, bs, exps, ups, pyramid@, levels as int)
                && pyramid@[levels as int] == curs[levels as int]);
        }
        pyramid
    }

    /// Boosts the levels of a pyramid of `n` images (finest band first,
    /// residual last) around mid-gray: level `l` by `1 + 0.15 * (n - 1 - l)`,
    /// so that the finest band gains most and the residual is kept as it is.
    pub fn enhance_pyramid_levels(pyramid: Vec<GrayImage>) -> (r: Vec<GrayImage>)
        requires
            pyramid@.len() <= u32::MAX,
            forall|l: int| 0 <= l < pyramid@.len() ==> (#[trigger] pyramid@[l]).wf(),
        ensures
            boosted_levels(pyramid@, r@),
    {
        let mut out: Vec<GrayImage> = Vec::new();
        let mut l: usize = 0;
        while l < pyramid.len()
            invariant
                l <= pyramid@.len(),
                pyramid@.len() <= u32::MAX,
                forall|k: int| 0 <= k < pyramid@.len() ==> (#[trigger] pyramid@[k]).wf(),
                out@.len() == l,
                forall|k: int| 0 <= k < l ==> {
                    &&& (#[trigger] out@[k]).wf()
                    &&& same_size(&out@[k], &pyramid@[k])
                    &&& out@[k].data@ == Seq::new(
                        pyramid@[k].data@.len(),
                        |i: int| amplified_sample(pyramid@[k].data@[i], pyramid@.len() - 1 - k),
                    )
                },
            decreases pyramid@.len() - l,
        {
            let boosted = Self::amplify_image(&pyramid[l], (pyramid.len() - 1 - l) as u32);
            out.push(boosted);
            l += 1;
        }
        out
    }

    /// Rebuilds an image from a pyramid: starting at the residual, expands the
    /// current image to the next finer level's size, blurs it, and adds that
    /// level back onto it, undoing the band's remap, down to level 0.
    pub fn reconstruct_from_pyramid<F: Fn(&GrayImage) -> GrayImage>(
        pyramid: Vec<GrayImage>,
        blur: &F,
    ) -> (r: GrayImage)
        requires
            pyramid@.len() > 0,
            forall|l: int| 0 <= l < pyramid@.len() ==> (#[trigger] pyramid@[l]).wf() && pyramid@[l].width > 0
                && pyramid@[l].height > 0,
            keeps_size(blur),
        ensures
            r.wf(),
            same_size(&r, &pyramid@[0]),
            rebuilt_of(blur, pyramid@, r),
    {
        let last: usize = pyramid.len() - 1;
        let top = &pyramid[last];
        let mut current = GrayImage { width: top.width, height: top.height, data: top.data.clone() };
        let ghost mut exps: Seq<GrayImage> = pyramid@;
        let ghost mut ups: Seq<GrayImage> = pyramid@;
        let ghost mut recs: Seq<GrayImage> = pyramid@.update(last as int, current);
        let mut k: usize = last;
        while k > 0
            invariant
                k <= last,
                last == pyramid@.len() - 1,
                forall|l: int| 0 <= l < pyramid@.len() ==> (#[trigger] pyramid@[l]).wf() && pyramid@[l].width > 0
                    && pyramid@[l].height > 0,
                keeps_size(blur),
                current.wf(),
                same_size(&current, &pyramid@[k as int]),
                current == recs[k as int],
                rebuilt_from(blur, pyramid@, exps, ups, recs, k as int),
            decreases k,
        {
            k -= 1;
            let level = &pyramid[k];
            let _len: usize = level.data.len(); // bounds the pixel count by usize::MAX
            let expanded = Self::expand_nearest(&current, level.width, level.height);
            let up = blur(&expanded);
            let next = Self::add_images(&up, level);
            proof {
                let ghost old_recs = recs;
                exps = exps.update(k as int, expanded);
                ups = ups.update(k as int, up);
                recs = recs.update(k as int, next);
                assert(rebuild_step(blur, recs[k as int + 1], pyramid@[k as int], exps[k as int], ups[k as int], recs[k as int]));
                assert forall|j: int| k <= j < last implies #[trigger] rebuild_step(
                    blur,
                    recs[j + 1],
                    pyramid@[j],
                    exps[j],
                    ups[j],
                    recs[j],
                ) by {
                    if j > k {
                        assert(recs[j] == old_recs[j] && recs[j + 1] == old_recs[j + 1]);
                    }
                }
            }
            current = next;
        }
        assert(rebuilt_from(blur, pyramid@, exps, ups, recs, 0) && current == recs[0]);
        current
    }

    /// Height map of an albedo image: Rec. 709 luminance; a three-level
    /// Laplacian pyramid with boosted levels, rebuilt; a guided filter steered
    /// by the luminance; clip-limited equalization; unsharp masking. `blur` is
    /// a Gaussian blur of sigma 1.0 and `soften` one of sigma 1.5.
    pub fn generate<F: Fn(&GrayImage) -> GrayImage, G: Fn(&GrayImage) -> GrayImage>(
        albedo: &RgbaImage,
        blur: &F,
        soften: &G,
    ) -> (r: GrayImage)
        requires
            albedo.wf(),
            albedo.width > 0,
            albedo.height > 0,
            keeps_size(blur),
            keeps_size(soften),
        ensures
            r.wf(),
            r.width == albedo.width,
            r.height == albedo.height,
            exists|
                gray: GrayImage,
                pyr: Seq<GrayImage>,
                boosted: Seq<GrayImage>,
                combined: GrayImage,
                sm: GrayImage,
                eq: GrayImage,
                bl: GrayImage,
            |
                #[trigger] height_stages(albedo, blur, soften, gray, pyr, boosted, combined, sm, eq, bl, r),
    {
        let gray = Self::to_perceptual_luminance(albedo);
        let pyramid = Self::build_laplacian_pyramid(&gray, 3, blur);
        proof {
            assert forall|l: int| 0 <= l < pyramid@.len() implies (#[trigger] pyramid@[l]).width > 0
                && pyramid@[l].height > 0 by {
                lemma_halved_positive(gray.width, gray.height, l as nat);
            }
        }
        let ghost pyr = pyramid@;
        let enhanced_pyramid = Self::enhance_pyramid_levels(pyramid);
        let ghost boosted = enhanced_pyramid@;
        let combined = Self::reconstruct_from_pyramid(enhanced_pyramid, blur);
        let smoothed = Self::guided_filter(&combined, &gray);
        let enhanced = Self::adaptive_clahe(&smoothed);
        let blurred = soften(&enhanced);
        let r = Self::enhance_details(&enhanced, &blurred);
        assert(height_stages(albedo, blur, soften, gray, pyr, boosted, combined, smoothed, enhanced, blurred, r));
        r
    }
}

} // verus!
