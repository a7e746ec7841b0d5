//! Scharr gradients of a height map, the integer part of normal-map synthesis.
//! A gradient here is the raw kernel sum: dividing it by 16 * 255 gives the
//! derivative on the 0..1 height scale.
use vstd::prelude::*;
use crate::guided::{clamp_coord, clamp_index};
use crate::raster::{lemma_split_index, plane_index, GrayImage, RgbImage};

verus! {

/// Builds normal maps from height maps.
pub struct NormalMapGenerator;

/// The height at (`x + dx`, `y + dy`), coordinates clamped to the border.
pub open spec fn height_near(img: GrayImage, x: int, y: int, dx: int, dy: int) -> int {
    img.at(clamp_coord(x + dx, img.width as int), clamp_coord(y + dy, img.height as int)) as int
}

/// Horizontal Scharr kernel sum at (`x`, `y`).
pub open spec fn scharr_x_sum(img: GrayImage, x: int, y: int) -> int {
    -3 * height_near(img, x, y, -1, -1) + 3 * height_near(img, x, y, 1, -1)
        - 10 * height_near(img, x, y, -1, 0) + 10 * height_near(img, x, y, 1, 0)
        - 3 * height_near(img, x, y, -1, 1) + 3 * height_near(img, x, y, 1, 1)
}

/// Vertical Scharr kernel sum at (`x`, `y`).
pub open spec fn scharr_y_sum(img: GrayImage, x: int, y: int) -> int {
    -3 * height_near(img, x, y, -1, -1) - 10 * height_near(img, x, y, 0, -1)
        - 3 * height_near(img, x, y, 1, -1) + 3 * height_near(img, x, y, -1, 1)
        + 10 * height_near(img, x, y, 0, 1) + 3 * height_near(img, x, y, 1, 1)
}

fn near(img: &GrayImage, x: u32, y: u32, dx: i64, dy: i64) -> (v: i32)
    requires
        img.wf(),
        x < img.width,
        y < img.height,
        -1 <= dx <= 1,
        -1 <= dy <= 1,
    ensures
        v == height_near(*img, x as int, y as int, dx as int, dy as int),
        0 <= v <= 255,
{
    let _len: usize = img.data.len(); // bounds the pixel count by usize::MAX
    let nx = clamp_index(x as i64 + dx, img.width);
    let ny = clamp_index(y as i64 + dy, img.height);
    let k = plane_index(nx, ny, img.width, img.height);
    img.data[k] as i32
}

/// The RGB sample of pixel `i` of an interleaved RGB buffer.
pub open spec fn rgb_at(s: Seq<u8>, i: int) -> [u8; 3] {
    [s[3 * i], s[3 * i + 1], s[3 * i + 2]]
}

impl NormalMapGenerator {
    /// Horizontal Scharr kernel sum at (`x`, `y`), with replicated borders.
    pub fn scharr_x(image: &GrayImage, x: u32, y: u32) -> (g: i32)
        requires
            image.wf(),
            x < image.width,
            y < image.height,
        ensures
            g == scharr_x_sum(*image, x as int, y as int),
    {
        -3 * near(image, x, y, -1, -1) + 3 * near(image, x, y, 1, -1) - 10 * near(image, x, y, -1, 0)
            + 10 * near(image, x, y, 1, 0) - 3 * near(image, x, y, -1, 1) + 3 * near(image, x, y, 1, 1)
    }

    /// Vertical Scharr kernel sum at (`x`, `y`), with replicated borders.
    pub fn scharr_y(image: &GrayImage, x: u32, y: u32) -> (g: i32)
        requires
            image.wf(),
            x < image.width,
            y < image.height,
        ensures
            g == scharr_y_sum(*image, x as int, y as int),
    {
        -3 * near(image, x, y, -1, -1) - 10 * near(image, x, y, 0, -1) - 3 * near(image, x, y, 1, -1)
            + 3 * near(image, x, y, -1, 1) + 10 * near(image, x, y, 0, 1) + 3 * near(image, x, y, 1, 1)
    }

    /// Normal map of a height map: at each pixel the Scharr gradients
    /// (`scharr_x`, `scharr_y`) are handed to `encode`, which turns them into
    /// the pixel's RGB sample; pixels are laid out row by row.
    pub fn generate<E: Fn(i32, i32) -> [u8; 3]>(height_map: &GrayImage, encode: &E) -> (r: RgbImage)
        requires
            height_map.wf(),
            forall|gx: i32, gy: i32| #[trigger] encode.requires((gx, gy)),
        ensures
            r.wf(),
            r.width == height_map.width,
            r.height == height_map.height,
            forall|i: int| 0 <= i < height_map.data@.len() ==> encode.ensures(
                (
                    scharr_x_sum(*height_map, i % height_map.width as int, i / height_map.width as int) as i32,
                    scharr_y_sum(*height_map, i % height_map.width as int, i / height_map.width as int) as i32,
                ),
                #[trigger] rgb_at(r.data@, i),
            ),
    {
        let width = height_map.width;
        let height = height_map.height;
        let _len: usize = height_map.data.len(); // bounds the pixel count by usize::MAX
        let ghost w = width as int;
        let mut out: Vec<u8> = Vec::new();
        let mut y: u32 = 0;
        while y < height
            invariant
                height_map.wf(),
                forall|gx: i32, gy: i32| #[trigger] encode.requires((gx, gy)),
                width == height_map.width,
                height == height_map.height,
                w == width,
                w * height <= usize::MAX,
                y <= height,
                out@.len() == 3 * (y * w),
                forall|i: int| 0 <= i < y * w ==> encode.ensures(
                    (
                        scharr_x_sum(*height_map, i % w, i / w) as i32,
                        scharr_y_sum(*height_map, i % w, i / w) as i32,
                    ),
                    #[trigger] rgb_at(out@, i),
                ),
            decreases height - y,
        {
            let mut x: u32 = 0;
            while x < width
                invariant
                    height_map.wf(),
                    forall|gx: i32, gy: i32| #[trigger] encode.requires((gx, gy)),
                    width == height_map.width,
                    height == height_map.height,
                    w == width,
                    w * height <= usize::MAX,
                    y < height,
                    x <= width,
                    out@.len() == 3 * (y * w + x),
                    forall|i: int| 0 <= i < y * w + x ==> encode.ensures(
                        (
                            scharr_x_sum(*height_map, i % w, i / w) as i32,
                            scharr_y_sum(*height_map, i % w, i / w) as i32,
                        ),
                        #[trigger] rgb_at(out@, i),
                    ),
                decreases width - x,
            {
                let gx = Self::scharr_x(height_map, x, y);
                let gy = Self::scharr_y(height_map, x, y);
                let rgb = encode(gx, gy);
                let ghost before = out@;
                proof {
                    let i = y * w + x;
                    lemma_split_index(i, x as int, y as int, w);
                    assert(i < w * height) by (nonlinear_arith)
                        requires i == y * w + x, x < w, y < height;
                }
                out.push(rgb[0]);
                out.push(rgb[1]);
                out.push(rgb[2]);
                proof {
                    let i0 = y * w + x;
                    assert forall|i: int| 0 <= i < i0 + 1 implies encode.ensures(
                        (
                            scharr_x_sum(*height_map, i % w, i / w) as i32,
                            scharr_y_sum(*height_map, i % w, i / w) as i32,
                        ),
                        #[trigger] rgb_at(out@, i),
                    ) by {
                        if i < i0 {
                            assert(rgb_at(out@, i) == rgb_at(before, i));
                        } else {
                            assert(rgb_at(out@, i) =~= rgb);
                        }
                    }
                }
                x += 1;
            }
            proof {
                assert((y + 1) * w == y * w + w) by (nonlinear_arith);
            }
            y += 1;
        }
        proof {
            assert(out@.len() == 3 * (w * height)) by (nonlinear_arith)
                requires out@.len() == 3 * (y * w), y == height;
        }
        RgbImage { width, height, data: out }
    }
}

} // verus!
