use pbr_maps::dds::dds_header;
use pbr_maps::{ChannelPacker, PackError, RgbaImage};

fn word_at(bytes: &[u8], offset: usize) -> u32 {
    u32::from_le_bytes([bytes[offset], bytes[offset + 1], bytes[offset + 2], bytes[offset + 3]])
}

fn rgba(width: u32, height: u32, f: impl Fn(u32, u32) -> [u8; 4]) -> RgbaImage {
    let mut data = Vec::new();
    for y in 0..height {
        for x in 0..width {
            data.extend_from_slice(&f(x, y));
        }
    }
    RgbaImage { width, height, data }
}

#[test]
fn header_fields_sit_at_their_offsets() {
    let h = dds_header(8, 4, 32);
    assert_eq!(h.len(), 128);
    assert_eq!(&h[0..4], b"DDS ");
    assert_eq!(word_at(&h, 4), 124);
    assert_eq!(word_at(&h, 8), 0x1 | 0x2 | 0x4 | 0x1000 | 0x80000);
    assert_eq!(word_at(&h, 12), 4);
    assert_eq!(word_at(&h, 16), 8);
    assert_eq!(word_at(&h, 20), 32);
    assert_eq!(word_at(&h, 24), 0);
    assert_eq!(word_at(&h, 28), 1);
    for k in 0..11 {
        assert_eq!(word_at(&h, 32 + 4 * k), 0);
    }
    assert_eq!(word_at(&h, 76), 32);
    assert_eq!(word_at(&h, 80), 4);
    assert_eq!(&h[84..88], b"DXT5");
    for k in 0..5 {
        assert_eq!(word_at(&h, 88 + 4 * k), 0);
    }
    assert_eq!(word_at(&h, 108), 0x1000);
    for k in 0..4 {
        assert_eq!(word_at(&h, 112 + 4 * k), 0);
    }
}

#[test]
fn bc3_payload_has_sixteen_bytes_per_tile() {
    let img = rgba(16, 8, |x, y| [(x * 16) as u8, (y * 30) as u8, 90, 255]);
    let file = ChannelPacker::encode_dds(&img).unwrap();
    assert_eq!(file.len(), 128 + (16 / 4) * (8 / 4) * 16);
    assert_eq!(&file[..128], &dds_header(16, 8, 128)[..]);
}

#[test]
fn bc3_blocks_depend_on_the_pixels() {
    let dark = ChannelPacker::encode_dds(&rgba(4, 4, |_, _| [0, 0, 0, 255])).unwrap();
    let light = ChannelPacker::encode_dds(&rgba(4, 4, |_, _| [255, 255, 255, 255])).unwrap();
    assert_eq!(dark.len(), 144);
    assert_ne!(&dark[128..], &light[128..]);
    assert!(dark[128..].iter().any(|b| *b != 0) || light[128..].iter().any(|b| *b != 0));
}

#[test]
fn sides_not_multiple_of_four_are_rejected() {
    let img = rgba(10, 10, |_, _| [1, 2, 3, 4]);
    assert_eq!(
        ChannelPacker::encode_dds(&img),
        Err(PackError::Dimensions { width: 10, height: 10 })
    );
    let img = rgba(8, 6, |_, _| [1, 2, 3, 4]);
    assert_eq!(
        ChannelPacker::encode_dds(&img),
        Err(PackError::Dimensions { width: 8, height: 6 })
    );
}

#[test]
fn encoding_is_repeatable() {
    let img = rgba(8, 8, |x, y| [(x * 31) as u8, (y * 17) as u8, ((x + y) * 9) as u8, 200]);
    assert_eq!(ChannelPacker::encode_dds(&img), ChannelPacker::encode_dds(&img));
}

#[test]
fn packing_same_size_copies_rgb_and_takes_alpha_luma() {
    let rgb = rgba(2, 1, |x, _| [10 + x as u8, 20, 30, 99]);
    let alpha = rgba(2, 1, |x, _| if x == 0 { [255, 0, 0, 7] } else { [10, 20, 30, 7] });
    let out = ChannelPacker::pack_rgba(&rgb, &alpha);
    assert_eq!(out.width, 2);
    assert_eq!(out.height, 1);
    // 2126 * 255 / 10000 = 54.2; (2126 * 10 + 7152 * 20 + 722 * 30) / 10000 = 18.6
    assert_eq!(out.data, vec![10, 20, 30, 54, 11, 20, 30, 18]);
}

#[test]
fn packing_resamples_smaller_alpha_smoothly() {
    let rgb = rgba(64, 64, |x, y| [x as u8, y as u8, 7, 255]);
    let alpha = rgba(32, 32, |x, _| {
        let v = (x * 8) as u8;
        [v, v, v, 255]
    });
    let out = ChannelPacker::pack_rgba(&rgb, &alpha);
    assert_eq!((out.width, out.height), (64, 64));
    assert_eq!(out.data.len(), 64 * 64 * 4);
    let a = |x: usize, y: usize| out.data[4 * (y * 64 + x) + 3];
    let r = |x: usize, y: usize| out.data[4 * (y * 64 + x)];
    assert_eq!(r(17, 40), 17);
    // nearest-neighbour doubling would repeat each source column twice
    assert_ne!(a(32, 32), a(33, 32));
    assert!(a(32, 32) < a(33, 32));
    assert!(a(33, 32) < a(34, 32));
}

#[test]
fn empty_image_gives_the_header_alone() {
    let img = RgbaImage { width: 0, height: 0, data: vec![] };
    let file = ChannelPacker::encode_dds(&img).unwrap();
    assert_eq!(file, dds_header(0, 0, 0));
}

#[test]
fn each_block_depends_on_its_tile_alone() {
    let a = rgba(8, 4, |x, _| if x < 4 { [200, 30, 30, 255] } else { [0, 0, 0, 255] });
    let b = rgba(8, 4, |x, _| if x < 4 { [200, 30, 30, 255] } else { [0, 90, 250, 255] });
    let fa = ChannelPacker::encode_dds(&a).unwrap();
    let fb = ChannelPacker::encode_dds(&b).unwrap();
    assert_eq!(&fa[128..144], &fb[128..144]);
    assert_ne!(&fa[144..160], &fb[144..160]);
}

#[test]
fn matched_packing_takes_alpha_luma() {
    let rgb = rgba(1, 2, |_, y| [1, 2, 3 + y as u8, 0]);
    let alpha = rgba(1, 2, |_, y| if y == 0 { [0, 255, 0, 0] } else { [0, 0, 255, 0] });
    // 7152 * 255 / 10000 = 182.4; 722 * 255 / 10000 = 18.4
    assert_eq!(ChannelPacker::pack_matched(&rgb, &alpha).data, vec![1, 2, 3, 182, 1, 2, 4, 18]);
}
