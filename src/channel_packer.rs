//! Packing of an RGB source and an alpha source into one RGBA image, and its
//! BC3 compression into a DDS container.
use vstd::prelude::*;
use crate::dds::{block_count, dds_header, header_bytes, BLOCK_BYTES, PREFIX_BYTES};
use crate::raster::{luma709, luma_of, RgbaImage};

verus! {

/// Packs channels and compresses the result for the GPU.
pub struct ChannelPacker;

/// Why an image could not be compressed.
#[derive(Debug, PartialEq, Eq, Structural)]
pub enum PackError {
    /// BC3 needs width and height to be multiples of 4.
    Dimensions { width: u32, height: u32 },
}

/// The 16-byte BC3 block that texpresso's cluster fit, with perceptual channel
/// weights and colour weighed by alpha, gives for one 4x4 tile of RGBA pixels
/// (64 bytes, row by row).
pub uninterp spec fn bc3_block(tile: Seq<u8>) -> Seq<u8>;

/// The 64 bytes of tile `k` (tiles counted row by row, `width / 4` to a row)
/// of a `width`-wide RGBA image.
pub open spec fn tile_pixels(width: u32, pixels: Seq<u8>, k: int) -> Seq<u8> {
    let tiles_wide = width as int / 4;
    let tx = k % tiles_wide;
    let ty = k / tiles_wide;
    Seq::new(
        64,
        |j: int| {
            let p = j / 4;
            pixels[4 * ((4 * ty + p / 4) * width as int + 4 * tx + p % 4) + j % 4]
        },
    )
}

/// `blocks` holds, block after block, the BC3 encoding of each tile of `img`.
pub open spec fn bc3_payload(img: &RgbaImage, blocks: Seq<u8>) -> bool {
    &&& blocks.len() == block_count(img.width, img.height) * 16
    &&& forall|k: int|
        0 <= k < block_count(img.width, img.height) ==> #[trigger] blocks.subrange(16 * k, 16 * k + 16)
            == bc3_block(tile_pixels(img.width, img.data@, k))
}

/// Relies on image's `imageops::resize` (through `DynamicImage::resize_exact`)
/// with `FilterType::Lanczos3`: an image of exactly the requested size.
#[verifier::external_body]
fn resize_lanczos3(src: &RgbaImage, new_width: u32, new_height: u32) -> (r: RgbaImage)
    requires
        src.wf(),
        src.width > 0,
        src.height > 0,
        new_width > 0,
        new_height > 0,
        4 * (new_width as int * new_height as int) <= usize::MAX,
    ensures
        r.width == new_width,
        r.height == new_height,
        r.wf(),
{
    let buf = image::RgbaImage::from_raw(src.width, src.height, src.data.clone()).unwrap();
    let out = image::imageops::resize(&buf, new_width, new_height, image::imageops::FilterType::Lanczos3);
    RgbaImage { width: new_width, height: new_height, data: out.into_raw() }
}

/// Relies on texpresso's `Format::Bc3.compress` with the cluster-fit algorithm,
/// perceptual weights and colour weighed by alpha: tile `k`, row by row, is
/// encoded alone into bytes `16 * k .. 16 * k + 16` of an output sized by
/// `compressed_size`.
#[verifier::external_body]
fn compress_bc3(src: &RgbaImage) -> (r: Vec<u8>)
    requires
        src.wf(),
        src.width > 0,
        src.height > 0,
        src.width % 4 == 0,
        src.height % 4 == 0,
    ensures
        r@.len() == block_count(src.width, src.height) * 16,
        forall|k: int|
            0 <= k < block_count(src.width, src.height) ==> #[trigger] r@.subrange(16 * k, 16 * k + 16)
                == bc3_block(tile_pixels(src.width, src.data@, k)),
{
    let format = texpresso::Format::Bc3;
    let mut out = vec![0u8; format.compressed_size(src.width as usize, src.height as usize)];
    format.compress(
        &src.data,
        src.width as usize,
        src.height as usize,
        texpresso::Params {
            algorithm: texpresso::Algorithm::ClusterFit,
            weights: texpresso::COLOUR_WEIGHTS_PERCEPTUAL,
            weigh_colour_by_alpha: true,
        },
        &mut out,
    );
    out
}

/// RGB samples of `rgb`, alpha from the luma of the matching pixel of `alpha`.
pub open spec fn packed_pixels(rgb: Seq<u8>, alpha: Seq<u8>) -> Seq<u8> {
    Seq::new(
        rgb.len(),
        |j: int|
            if j % 4 == 3 {
                luma709(alpha[j - 3], alpha[j - 2], alpha[j - 1])
            } else {
                rgb[j]
            },
    )
}

/// The DDS file of an image whose BC3 payload is `blocks`.
pub open spec fn dds_file(img: &RgbaImage, blocks: Seq<u8>) -> Seq<u8> {
    header_bytes(img.width, img.height, (block_count(img.width, img.height) * 16) as u32) + blocks
}

impl ChannelPacker {
    /// Packs RGB from `rgb_source` and alpha from the luma of `alpha_source`,
    /// an image of the same size.
    pub fn pack_matched(rgb_source: &RgbaImage, alpha_source: &RgbaImage) -> (r: RgbaImage)
        requires
            rgb_source.wf(),
            alpha_source.wf(),
            alpha_source.width == rgb_source.width,
            alpha_source.height == rgb_source.height,
        ensures
            r.wf(),
            r.width == rgb_source.width,
            r.height == rgb_source.height,
            r.data@ == packed_pixels(rgb_source.data@, alpha_source.data@),
    {
        let total: usize = rgb_source.data.len();
        let n: usize = total / 4;
        let mut out: Vec<u8> = Vec::new();
        let mut i: usize = 0;
        while i < n
            invariant
                n * 4 == rgb_source.data@.len(),
                total == rgb_source.data@.len(),
                alpha_source.data@.len() == rgb_source.data@.len(),
                i <= n,
                out@.len() == 4 * i,
                forall|j: int|
                    0 <= j < 4 * i ==> out@[j] == packed_pixels(rgb_source.data@, alpha_source.data@)[j],
            decreases n - i,
        {
            let p: usize = 4 * i;
            let l = luma_of(alpha_source.data[p], alpha_source.data[p + 1], alpha_source.data[p + 2]);
            out.push(rgb_source.data[p]);
            out.push(rgb_source.data[p + 1]);
            out.push(rgb_source.data[p + 2]);
            out.push(l);
            assert(p as int % 4 == 0 && (p as int + 1) % 4 == 1 && (p as int + 2) % 4 == 2
                && (p as int + 3) % 4 == 3);
            i += 1;
        }
        assert(out@ =~= packed_pixels(rgb_source.data@, alpha_source.data@));
        RgbaImage { width: rgb_source.width, height: rgb_source.height, data: out }
    }

    /// Packs RGB from `rgb_source` and alpha from `alpha_source` into one RGBA
    /// image of `rgb_source`'s size; an alpha source of another size is first
    /// resized to it with image's Lanczos3 filter.
    pub fn pack_rgba(rgb_source: &RgbaImage, alpha_source: &RgbaImage) -> (r: RgbaImage)
        requires
            rgb_source.wf(),
            alpha_source.wf(),
            rgb_source.width > 0,
            rgb_source.height > 0,
            alpha_source.width > 0,
            alpha_source.height > 0,
        ensures
            r.wf(),
            r.width == rgb_source.width,
            r.height == rgb_source.height,
            forall|j: int| 0 <= j < r.data@.len() && j % 4 != 3 ==> #[trigger] r.data@[j] == rgb_source.data@[j],
            alpha_source.width == rgb_source.width && alpha_source.height == rgb_source.height ==> r.data@
                == packed_pixels(rgb_source.data@, alpha_source.data@),
    {
        let _len: usize = rgb_source.data.len(); // bounds the pixel count by usize::MAX
        if alpha_source.width != rgb_source.width || alpha_source.height != rgb_source.height {
            let resized = resize_lanczos3(alpha_source, rgb_source.width, rgb_source.height);
            Self::pack_matched(rgb_source, &resized)
        } else {
            Self::pack_matched(rgb_source, alpha_source)
        }
    }

    /// Compresses `image` to BC3 and lays it out as a DDS file: magic, header,
    /// then one block per 4x4 tile in row-major tile order. Fails, before any
    /// compression, when a side is not a multiple of 4; an image with a side of
    /// 0 gives the header alone.
    pub fn encode_dds(image: &RgbaImage) -> (r: Result<Vec<u8>, PackError>)
        requires
            image.wf(),
            image.width % 4 == 0 && image.height % 4 == 0 ==> block_count(image.width, image.height) * 16
                <= u32::MAX,
        ensures
            (image.width % 4 != 0 || image.height % 4 != 0) <==> r.is_err(),
            r.is_err() ==> r == Err::<Vec<u8>, PackError>(
                PackError::Dimensions { width: image.width, height: image.height },
            ),
            r.is_ok() ==> r.unwrap()@.len() == PREFIX_BYTES + block_count(image.width, image.height) * 16,
            r.is_ok() ==> exists|blocks: Seq<u8>|
                #[trigger] bc3_payload(image, blocks) && r.unwrap()@ == dds_file(image, blocks),
    {
        let width = image.width;
        let height = image.height;
        if width % 4 != 0 || height % 4 != 0 {
            return Err(PackError::Dimensions { width, height });
        }
        let linear_size: u32 = (width / 4) * (height / 4) * BLOCK_BYTES;
        let mut out = dds_header(width, height, linear_size);
        if width == 0 || height == 0 {
            proof {
                assert(block_count(width, height) == 0) by (nonlinear_arith)
                    requires width == 0 || height == 0, block_count(width, height) == (width as int / 4) * (
                        height as int / 4);
                assert(bc3_payload(image, Seq::<u8>::empty()));
                assert(out@ =~= dds_file(image, Seq::<u8>::empty()));
            }
            return Ok(out);
        }
        let blocks = compress_bc3(image);
        let mut i: usize = 0;
        while i < blocks.len()
            invariant
                i <= blocks@.len(),
                out@ == header_bytes(width, height, linear_size) + blocks@.take(i as int),
            decreases blocks@.len() - i,
        {
            out.push(blocks[i]);
            assert(blocks@.take(i as int + 1) =~= blocks@.take(i as int).push(blocks@[i as int]));
            i += 1;
        }
        assert(blocks@.take(i as int) =~= blocks@);
        assert(bc3_payload(image, blocks@));
        Ok(out)
    }
}

} // verus!
