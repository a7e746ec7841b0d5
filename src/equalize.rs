//! Global histogram equalization with clip limiting (limit 2.5).
use vstd::prelude::*;
use crate::height_map::HeightMapGenerator;
use crate::raster::{clamp_u8, GrayImage};

verus! {

/// Number of samples of `s` equal to `v`.
pub open spec fn count_value(s: Seq<u8>, v: int) -> int
    decreases s.len(),
{
    if s.len() == 0 {
        0
    } else {
        count_value(s.drop_last(), v) + if s.last() as int == v { 1int } else { 0int }
    }
}

/// The 256-bin histogram of `s`.
pub open spec fn histogram(s: Seq<u8>) -> Seq<int> {
    Seq::new(256, |v: int| count_value(s, v))
}

/// Bin height above which mass is clipped: `2.5 * total / 256`, rounded down.
pub open spec fn clip_value(total: int) -> int {
    (5 * total) / 512
}

/// Mass above `c` in the first `k` bins of `h`.
pub open spec fn excess(h: Seq<int>, c: int, k: int) -> int
    decreases k,
{
    if k <= 0 {
        0
    } else {
        excess(h, c, k - 1) + if h[k - 1] > c { h[k - 1] - c } else { 0 }
    }
}

/// Each bin clipped at `c`, plus an equal share of the clipped mass.
pub open spec fn redistributed(h: Seq<int>, c: int) -> Seq<int> {
    Seq::new(256, |v: int| (if h[v] > c { c } else { h[v] }) + excess(h, c, 256) / 256)
}

/// Sum of the first `k` bins of `h`.
pub open spec fn prefix_sum(h: Seq<int>, k: int) -> int
    decreases k,
{
    if k <= 0 {
        0
    } else {
        prefix_sum(h, k - 1) + h[k - 1]
    }
}

/// The cumulative distribution at the first bin, from `k` on, where it is
/// positive; 0 if there is none.
pub open spec fn first_positive(h: Seq<int>, k: int) -> int
    decreases 256 - k,
{
    if k >= 256 {
        0
    } else if prefix_sum(h, k + 1) > 0 {
        prefix_sum(h, k + 1)
    } else {
        first_positive(h, k + 1)
    }
}

/// The remapping table that equalization applies to an image with samples `s`.
pub open spec fn equalization_table(s: Seq<u8>) -> Seq<u8> {
    let total = s.len() as int;
    let e = redistributed(histogram(s), clip_value(total));
    let cdf_min = first_positive(e, 0);
    Seq::new(
        256,
        |v: int| {
            let cdf = prefix_sum(e, v + 1);
            if cdf > 0 && total > cdf_min {
                clamp_u8((cdf - cdf_min) * 255 / (total - cdf_min))
            } else {
                0u8
            }
        },
    )
}

proof fn lemma_count_step(s: Seq<u8>, i: int, v: int)
    requires
        0 <= i < s.len(),
    ensures
        count_value(s.take(i + 1), v) == count_value(s.take(i), v) + if s[i] as int == v { 1int } else { 0int },
{
    assert(s.take(i + 1).drop_last() =~= s.take(i));
}

proof fn lemma_count_bound(s: Seq<u8>, v: int)
    ensures
        0 <= count_value(s, v) <= s.len(),
    decreases s.len(),
{
    if s.len() > 0 {
        lemma_count_bound(s.drop_last(), v);
    }
}

/// Builds the 256-bin histogram of `s`.
fn build_histogram(s: &Vec<u8>) -> (h: Vec<u128>)
    ensures
        h@.len() == 256,
        forall|v: int| 0 <= v < 256 ==> h@[v] as int == count_value(s@, v),
{
    let mut h: Vec<u128> = Vec::new();
    let mut k: usize = 0;
    while k < 256
        invariant
            k <= 256,
            h@.len() == k,
            forall|v: int| 0 <= v < k ==> h@[v] == 0,
        decreases 256 - k,
    {
        h.push(0u128);
        k += 1;
    }
    let mut i: usize = 0;
    while i < s.len()
        invariant
            i <= s@.len(),
            h@.len() == 256,
            forall|v: int| 0 <= v < 256 ==> h@[v] as int == count_value(s@.take(i as int), v),
        decreases s@.len() - i,
    {
        let b: usize = s[i] as usize;
        proof {
            assert forall|v: int| 0 <= v < 256 implies count_value(s@.take(i as int + 1), v)
                == count_value(s@.take(i as int), v) + if s@[i as int] as int == v { 1int } else { 0int } by {
                lemma_count_step(s@, i as int, v);
            }
            lemma_count_bound(s@.take(i as int), b as int);
        }
        let c = h[b];
        h.set(b, c + 1);
        i += 1;
    }
    assert(s@.take(i as int) =~= s@);
    h
}

impl HeightMapGenerator {
    /// Clip-limited global histogram equalization: clips each histogram bin at
    /// `2.5 * total / 256`, shares the clipped mass equally among the bins, and
    /// remaps every sample through the normalized cumulative distribution.
    pub fn adaptive_clahe(image: &GrayImage) -> (r: GrayImage)
        requires
            image.wf(),
        ensures
            r.wf(),
            r.width == image.width,
            r.height == image.height,
            r.data@ == Seq::new(image.data@.len(), |i: int| equalization_table(image.data@)[image.data@[i] as int]),
    {
        let ghost s = image.data@;
        let n: usize = image.data.len();
        let total: u128 = n as u128;
        let mut h = build_histogram(&image.data);
        let ghost h0 = histogram(s);
        assert(h@.len() == 256 && forall|v: int| 0 <= v < 256 ==> h@[v] as int == h0[v]);
        proof {
            assert forall|v: int| 0 <= v < 256 implies h0[v] <= total by {
                lemma_count_bound(s, v);
            }
        }
        let clip: u128 = (5 * total) / 512;
        let ghost c = clip_value(total as int);
        let mut clipped: u128 = 0;
        let mut v: usize = 0;
        while v < 256
            invariant
                v <= 256,
                h@.len() == 256,
                clip == c,
                c == clip_value(total as int),
                total == s.len(),
                total <= usize::MAX,
                forall|u: int| 0 <= u < 256 ==> h0[u] <= total,
                clipped as int == excess(h0, c, v as int),
                clipped <= v * total,
                forall|u: int| 0 <= u < v ==> h@[u] as int == (if h0[u] > c { c } else { h0[u] }),
                forall|u: int| v <= u < 256 ==> h@[u] as int == h0[u],
            decreases 256 - v,
        {
            let b = h[v];
            proof {
                assert((v + 1) * total == v * total + total) by (nonlinear_arith);
                assert(v * total <= 256 * total) by (nonlinear_arith)
                    requires v < 256;
                assert(total <= 0xffff_ffff_ffff_ffffu128);
                assert(b as int == h0[v as int]);
                assert(256 * total <= 256 * 0xffff_ffff_ffff_ffffu128);
            }
            if b > clip {
                clipped = clipped + (b - clip);
                h.set(v, clip);
            }
            v += 1;
        }
        let red: u128 = clipped / 256;
        assert(red <= total);
        let ghost e = redistributed(h0, c);
        let mut v: usize = 0;
        while v < 256
            invariant
                v <= 256,
                h@.len() == 256,
                red as int == excess(h0, c, 256) / 256,
                red <= total,
                total <= usize::MAX,
                e == redistributed(h0, c),
                forall|u: int| 0 <= u < 256 ==> h0[u] <= total,
                forall|u: int| 0 <= u < v ==> h@[u] as int == e[u],
                forall|u: int| v <= u < 256 ==> h@[u] as int == (if h0[u] > c { c } else { h0[u] }),
                forall|u: int| 0 <= u < 256 ==> h@[u] <= 2 * total,
            decreases 256 - v,
        {
            let b = h[v];
            h.set(v, b + red);
            v += 1;
        }
        // cumulative distribution
        let mut cdf: Vec<u128> = Vec::new();
        let mut acc: u128 = 0;
        let mut v: usize = 0;
        while v < 256
            invariant
                v <= 256,
                h@.len() == 256,
                total <= usize::MAX,
                forall|u: int| 0 <= u < 256 ==> h@[u] as int == e[u],
                forall|u: int| 0 <= u < 256 ==> h@[u] <= 2 * total,
                acc as int == prefix_sum(e, v as int),
                acc <= v * 2 * total,
                cdf@.len() == v,
                forall|u: int| 0 <= u < v ==> cdf@[u] as int == prefix_sum(e, u + 1),
                forall|u: int| 0 <= u < v ==> cdf@[u] <= 512 * total,
            decreases 256 - v,
        {
            proof {
                assert((v + 1) * 2 * total == v * 2 * total + 2 * total) by (nonlinear_arith);
                assert((v + 1) * 2 * total <= 512 * total) by (nonlinear_arith)
                    requires v < 256;
            }
            acc = acc + h[v];
            cdf.push(acc);
            v += 1;
        }
        // first positive entry of the distribution
        let mut cdf_min: u128 = 0;
        let mut v: usize = 256;
        while v > 0
            invariant
                v <= 256,
                cdf@.len() == 256,
                forall|u: int| 0 <= u < 256 ==> cdf@[u] as int == prefix_sum(e, u + 1),
                cdf_min as int == first_positive(e, v as int),
            decreases v,
        {
            v -= 1;
            if cdf[v] > 0 {
                cdf_min = cdf[v];
            }
        }
        let ghost table = equalization_table(s);
        let mut lookup: Vec<u8> = Vec::new();
        let mut v: usize = 0;
        while v < 256
            invariant
                v <= 256,
                cdf@.len() == 256,
                forall|u: int| 0 <= u < 256 ==> cdf@[u] as int == prefix_sum(e, u + 1),
                forall|u: int| 0 <= u < 256 ==> cdf@[u] <= 512 * total,
                cdf_min as int == first_positive(e, 0),
                total == s.len(),
                total <= usize::MAX,
                e == redistributed(histogram(s), clip_value(total as int)),
                table == equalization_table(s),
                lookup@.len() == v,
                forall|u: int| 0 <= u < v ==> lookup@[u] == table[u],
            decreases 256 - v,
        {
            let cv = cdf[v];
            let entry: u8 = if cv > 0 && total > cdf_min {
                if cv < cdf_min {
                    0u8
                } else {
                    let q: u128 = (cv - cdf_min) * 255 / (total - cdf_min);
                    if q > 255 { 255u8 } else { q as u8 }
                }
            } else {
                0u8
            };
            proof {
                if cv > 0 && total > cdf_min && cv < cdf_min {
                    let num = (cv - cdf_min) * 255;
                    let den = total - cdf_min;
                    assert(num / den < 0) by (nonlinear_arith)
                        requires num < 0, den > 0;
                }
            }
            lookup.push(entry);
            v += 1;
        }
        let mut out: Vec<u8> = Vec::new();
        let mut i: usize = 0;
        while i < n
            invariant
                n == s.len(),
                s == image.data@,
                lookup@.len() == 256,
                forall|u: int| 0 <= u < 256 ==> lookup@[u] == table[u],
                table == equalization_table(s),
                i <= n,
                out@.len() == i,
                forall|j: int| 0 <= j < i ==> out@[j] == table[s[j] as int],
            decreases n - i,
        {
            out.push(lookup[image.data[i] as usize]);
            i += 1;
        }
        assert(out@ =~= Seq::new(image.data@.len(), |i: int| equalization_table(image.data@)[image.data@[i] as int]));
        GrayImage { width: image.width, height: image.height, data: out }
    }
}

} // verus!
