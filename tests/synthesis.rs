use pbr_maps::{GrayImage, HeightMapGenerator, NormalMapGenerator, RgbaImage, RoughnessMapGenerator};

fn gray(width: u32, height: u32, f: impl Fn(u32, u32) -> u8) -> GrayImage {
    let mut data = Vec::new();
    for y in 0..height {
        for x in 0..width {
            data.push(f(x, y));
        }
    }
    GrayImage { width, height, data }
}

fn rgba(width: u32, height: u32, f: impl Fn(u32, u32) -> [u8; 3]) -> RgbaImage {
    let mut data = Vec::new();
    for y in 0..height {
        for x in 0..width {
            let p = f(x, y);
            data.extend_from_slice(&[p[0], p[1], p[2], 255]);
        }
    }
    RgbaImage { width, height, data }
}

fn same(g: &GrayImage) -> GrayImage {
    g.clone()
}

#[test]
fn luminance_uses_rec709_weights() {
    let img = rgba(2, 1, |x, _| if x == 0 { [10, 20, 30] } else { [255, 255, 255] });
    let l = HeightMapGenerator::to_perceptual_luminance(&img);
    // (2126 * 10 + 7152 * 20 + 722 * 30) / 10000 = 18.596
    assert_eq!(l.data, vec![18, 255]);
    assert_eq!((l.width, l.height), (2, 1));
}

#[test]
fn difference_is_remapped_around_mid_gray() {
    let a = gray(3, 1, |x, _| [100, 200, 0][x as usize]);
    let b = gray(3, 1, |x, _| [100, 50, 255][x as usize]);
    assert_eq!(HeightMapGenerator::subtract_images(&a, &b).data, vec![127, 202, 0]);
}

#[test]
fn bands_are_added_back_undoing_the_remap() {
    let a = gray(3, 1, |x, _| [200, 10, 250][x as usize]);
    let b = gray(3, 1, |x, _| [100, 20, 200][x as usize]);
    // 200 + 200 - 254 = 146; 10 + 40 - 254 < 0; 250 + 400 - 254 > 255
    assert_eq!(HeightMapGenerator::add_images(&a, &b).data, vec![146, 0, 255]);
    let orig = gray(3, 1, |x, _| [100, 201, 7][x as usize]);
    let base = gray(3, 1, |x, _| [100, 50, 200][x as usize]);
    let band = HeightMapGenerator::subtract_images(&orig, &base);
    // even differences come back exactly, odd ones one above
    assert_eq!(HeightMapGenerator::add_images(&base, &band).data, vec![100, 202, 8]);
}

#[test]
fn amplification_grows_with_level() {
    let img = gray(3, 1, |x, _| [200, 20, 128][x as usize]);
    assert_eq!(HeightMapGenerator::amplify_image(&img, 0).data, vec![200, 20, 128]);
    // 127.5 + 72.5 * 1.3 = 221.75; 127.5 - 107.5 * 1.3 = -12.25
    assert_eq!(HeightMapGenerator::amplify_image(&img, 2).data, vec![221, 0, 128]);
}

#[test]
fn unsharp_mask_pushes_away_from_blur() {
    let img = gray(2, 1, |x, _| [100, 250][x as usize]);
    let blur = gray(2, 1, |x, _| [90, 100][x as usize]);
    // 100 + 1.2 * 10 = 112; 250 + 1.2 * 150 = 430
    assert_eq!(HeightMapGenerator::enhance_details(&img, &blur).data, vec![112, 255]);
}

#[test]
fn expansion_repeats_and_clamps() {
    let img = gray(2, 1, |x, _| [5, 9][x as usize]);
    let up = HeightMapGenerator::expand_nearest(&img, 5, 2);
    assert_eq!((up.width, up.height), (5, 2));
    assert_eq!(up.data, vec![5, 5, 9, 9, 9, 5, 5, 9, 9, 9]);
}

#[test]
fn downsampling_picks_even_pixels_of_the_blur() {
    let img = gray(4, 4, |_, _| 0);
    let blurred = gray(4, 4, |x, y| (y * 4 + x) as u8);
    let d = HeightMapGenerator::downsample(&img, &blurred);
    assert_eq!((d.width, d.height), (2, 2));
    // means of the 2x2 blocks: 10 / 4, 18 / 4, 42 / 4, 50 / 4
    assert_eq!(d.data, vec![2, 4, 10, 12]);
    let thin = gray(1, 4, |_, y| y as u8);
    let same_thin = HeightMapGenerator::downsample(&thin, &thin);
    assert_eq!(same_thin, thin);
}

#[test]
fn equalization_of_two_levels() {
    let img = gray(64, 64, |x, _| if x < 32 { 0 } else { 255 });
    let out = HeightMapGenerator::adaptive_clahe(&img);
    // clip 40, clipped 4016, share 15; cdf(0) = 55, cdf(255) = 3920;
    // (3920 - 55) * 255 / (4096 - 55) = 243.9
    assert_eq!(out.data[0], 0);
    assert_eq!(out.data[40], 243);
    assert!(out.data.iter().all(|v| *v == 0 || *v == 243));
}

#[test]
fn equalization_of_tiny_flat_image_clips_everything() {
    let img = gray(4, 4, |_, _| 100);
    let out = HeightMapGenerator::adaptive_clahe(&img);
    assert_eq!(out.data, vec![0; 16]);
}

#[test]
fn guided_filter_keeps_flat_image() {
    let img = gray(20, 12, |_, _| 77);
    let out = HeightMapGenerator::guided_filter(&img, &img);
    assert_eq!(out, img);
}

#[test]
fn guided_filter_stays_close_on_an_edge() {
    let img = gray(24, 24, |x, _| if x < 12 { 40 } else { 200 });
    let out = HeightMapGenerator::guided_filter(&img, &img);
    assert_eq!((out.width, out.height), (24, 24));
    for (o, i) in out.data.iter().zip(img.data.iter()) {
        assert!((*o as i32 - *i as i32).abs() <= 12);
    }
    assert_eq!(out.data[0], 40);
    assert_eq!(out.data[23], 200);
}

#[test]
fn pyramid_levels_halve() {
    let img = gray(8, 6, |x, y| (x * 20 + y * 3) as u8);
    let p = HeightMapGenerator::build_laplacian_pyramid(&img, 3, &same);
    let sizes: Vec<(u32, u32)> = p.iter().map(|g| (g.width, g.height)).collect();
    assert_eq!(sizes, vec![(8, 6), (4, 3), (2, 1), (2, 1)]);
    let rebuilt = HeightMapGenerator::reconstruct_from_pyramid(p, &same);
    assert_eq!((rebuilt.width, rebuilt.height), (8, 6));
}

#[test]
fn pyramid_of_flat_image_holds_mid_gray_bands() {
    let img = gray(8, 8, |_, _| 90);
    let p = HeightMapGenerator::build_laplacian_pyramid(&img, 2, &same);
    assert!(p[0].data.iter().all(|v| *v == 127));
    assert!(p[2].data.iter().all(|v| *v == 90));
    let boosted = HeightMapGenerator::enhance_pyramid_levels(p);
    assert!(boosted[1].data.iter().all(|v| *v == 126));
    assert!(boosted[2].data.iter().all(|v| *v == 90));
}

#[test]
fn finest_band_gets_the_largest_boost() {
    let level = |v: u8, w: u32| gray(w, w, move |_, _| v);
    let p = vec![level(200, 4), level(200, 2), level(200, 1)];
    let boosted = HeightMapGenerator::enhance_pyramid_levels(p);
    // 127.5 + 72.5 * 1.3 = 221.75; * 1.15 = 210.875; * 1.0 = 200
    assert_eq!(boosted[0].data[0], 221);
    assert_eq!(boosted[1].data[0], 210);
    assert_eq!(boosted[2].data[0], 200);
}

#[test]
fn height_map_keeps_size_and_is_repeatable() {
    let albedo = rgba(12, 9, |x, y| [(x * 20) as u8, (y * 25) as u8, 60]);
    let a = HeightMapGenerator::generate(&albedo, &same, &same);
    let b = HeightMapGenerator::generate(&albedo, &same, &same);
    assert_eq!((a.width, a.height), (12, 9));
    assert_eq!(a.data.len(), 108);
    assert_eq!(a, b);
}

#[test]
fn scharr_sums_on_a_ramp() {
    let img = gray(3, 3, |x, _| (x * 10) as u8);
    assert_eq!(NormalMapGenerator::scharr_x(&img, 1, 1), 320);
    assert_eq!(NormalMapGenerator::scharr_y(&img, 1, 1), 0);
    // replicated border: left neighbour of column 0 is column 0 itself
    assert_eq!(NormalMapGenerator::scharr_x(&img, 0, 0), 160);
}

#[test]
fn normal_map_hands_gradients_to_the_encoder() {
    let img = gray(4, 3, |x, y| (x * 10 + y * 50) as u8);
    let n = NormalMapGenerator::generate(&img, &|gx: i32, gy: i32| {
        [(gx / 16) as u8, (gy / 16) as u8, 1]
    });
    assert_eq!((n.width, n.height), (4, 3));
    assert_eq!(n.data.len(), 36);
    // pixel (1, 1): gx = 16 * 20 = 320, gy = 16 * 100 = 1600
    assert_eq!(&n.data[3 * 5..3 * 5 + 3], &[20, 100, 1]);
}

#[test]
fn material_classes() {
    let metal = rgba(5, 5, |_, _| [128, 128, 128]);
    assert_eq!(RoughnessMapGenerator::classify_material_enhanced(&metal, 2, 2), 150);
    let brushed = rgba(5, 5, |x, y| if (x + y) % 2 == 0 { [200, 200, 200] } else { [60, 60, 60] });
    assert_eq!(RoughnessMapGenerator::classify_material_enhanced(&brushed, 2, 2), 250);
    let red = rgba(1, 1, |_, _| [255, 0, 0]);
    assert_eq!(RoughnessMapGenerator::classify_material_enhanced(&red, 0, 0), 750);
    let wood = rgba(1, 1, |_, _| [150, 120, 100]);
    assert_eq!(RoughnessMapGenerator::classify_material_enhanced(&wood, 0, 0), 650);
    let stone = rgba(1, 1, |_, _| [50, 50, 50]);
    assert_eq!(RoughnessMapGenerator::classify_material_enhanced(&stone, 0, 0), 800);
    let other = rgba(1, 1, |_, _| [250, 240, 150]);
    assert_eq!(RoughnessMapGenerator::classify_material_enhanced(&other, 0, 0), 500);
}

#[test]
fn specular_hints() {
    let img = rgba(3, 1, |x, _| [[255, 255, 255], [128, 128, 128], [255, 0, 0]][x as usize]);
    assert_eq!(RoughnessMapGenerator::estimate_specular(&img, 0, 0), 0);
    assert_eq!(RoughnessMapGenerator::estimate_specular(&img, 1, 0), 200);
    assert_eq!(RoughnessMapGenerator::estimate_specular(&img, 2, 0), 500);
}

#[test]
fn flat_gray_albedo_gives_constant_roughness() {
    let albedo = rgba(6, 5, |_, _| [128, 128, 128]);
    let fuse = |_: &RgbaImage, _: u32, _: u32, m: u32, s: u32| ((m * 3 + s) / 8) as u8;
    let out = RoughnessMapGenerator::generate(&albedo, &fuse, &same);
    assert_eq!((out.width, out.height), (6, 5));
    // material 150, specular 200
    assert!(out.data.iter().all(|v| *v == 81));
}

#[test]
fn raw_roughness_hands_decided_factors_to_fuse() {
    let albedo = rgba(3, 2, |x, _| [[255, 0, 0], [50, 50, 50], [255, 255, 255]][x as usize]);
    let fuse = |_: &RgbaImage, x: u32, y: u32, m: u32, s: u32| (m / 10 + s / 100 + x + 10 * y) as u8;
    let raw = RoughnessMapGenerator::raw_roughness(&albedo, &fuse);
    assert_eq!((raw.width, raw.height), (3, 2));
    // red: 750 and 500; dark gray: 800 and 500; white: luminance 1 is not
    // below 0.9 and saturation 0 is below 0.2 but luminance is not below 0.5,
    // so 500, with specular 0
    assert_eq!(raw.data, vec![80, 86, 52, 90, 96, 62]);
}

#[test]
fn normal_map_is_repeatable() {
    let img = gray(5, 4, |x, y| (x * 37 + y * 11) as u8);
    let encode = |gx: i32, gy: i32| [(gx & 0xff) as u8, (gy & 0xff) as u8, 7];
    assert_eq!(NormalMapGenerator::generate(&img, &encode), NormalMapGenerator::generate(&img, &encode));
}

#[test]
fn busy_neighbourhoods_have_variance_above_a_tenth() {
    let checker = gray(5, 5, |x, y| if (x + y) % 2 == 0 { 255 } else { 0 });
    assert!(RoughnessMapGenerator::is_busy_neighbourhood(&checker, 2, 2));
    let mild = gray(5, 5, |x, y| if (x + y) % 2 == 0 { 200 } else { 60 });
    assert!(!RoughnessMapGenerator::is_busy_neighbourhood(&mild, 2, 2));
    let flat = gray(3, 3, |_, _| 90);
    assert!(!RoughnessMapGenerator::is_busy_neighbourhood(&flat, 0, 0));
}

#[test]
fn pyramid_round_trip_stays_close() {
    let img = gray(8, 8, |_, _| 90);
    let p = HeightMapGenerator::build_laplacian_pyramid(&img, 3, &same);
    let rebuilt = HeightMapGenerator::reconstruct_from_pyramid(p, &same);
    assert_eq!(rebuilt, img);
    let ramp = gray(16, 12, |x, y| (x * 9 + y * 4) as u8);
    let p = HeightMapGenerator::build_laplacian_pyramid(&ramp, 3, &same);
    let rebuilt = HeightMapGenerator::reconstruct_from_pyramid(p, &same);
    for (o, i) in rebuilt.data.iter().zip(ramp.data.iter()) {
        assert!((*o as i32 - *i as i32).abs() <= 3);
    }
}
