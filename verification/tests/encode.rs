use resizer::{encode, CompressError, OutFormat, Raster};

fn noise(seed: u32, len: usize) -> Vec<u8> {
    let mut state = seed;
    let mut out = Vec::with_capacity(len);
    for _ in 0..len {
        state = state.wrapping_mul(1_664_525).wrapping_add(1_013_904_223);
        out.push((state >> 24) as u8);
    }
    out
}

fn rgb_noise(width: u32, height: u32) -> Raster {
    let pixels = noise(7, (width * height * 3) as usize);
    Raster::new(width, height, false, pixels).unwrap()
}

fn rgba_noise(width: u32, height: u32) -> Raster {
    let pixels = noise(11, (width * height * 4) as usize);
    Raster::new(width, height, true, pixels).unwrap()
}

#[test]
fn raster_new_accepts_matching_samples() {
    let img = Raster::new(3, 2, false, vec![0; 18]).unwrap();
    assert_eq!(img.width(), 3);
    assert_eq!(img.height(), 2);
    assert!(!img.has_alpha());
    assert_eq!(img.pixels().len(), 18);
    let img = Raster::new(3, 2, true, vec![9; 24]).unwrap();
    assert!(img.has_alpha());
    assert_eq!(img.pixels(), &vec![9u8; 24]);
}

#[test]
fn raster_new_rejects_a_wrong_sample_count() {
    assert!(Raster::new(3, 2, false, vec![0; 17]).is_none());
    assert!(Raster::new(3, 2, false, vec![0; 19]).is_none());
    assert!(Raster::new(3, 2, false, vec![0; 24]).is_none());
    assert!(Raster::new(3, 2, true, vec![0; 18]).is_none());
}

#[test]
fn raster_new_rejects_an_empty_image() {
    assert!(Raster::new(0, 2, false, vec![]).is_none());
    assert!(Raster::new(2, 0, false, vec![]).is_none());
    assert!(Raster::new(0, 0, true, vec![]).is_none());
}

#[test]
fn format_rules() {
    assert!(!OutFormat::Jpeg.keeps_alpha());
    assert!(OutFormat::Webp.keeps_alpha());
    assert!(OutFormat::Png.keeps_alpha());
    assert!(OutFormat::Jpeg.is_lossy());
    assert!(OutFormat::Webp.is_lossy());
    assert!(!OutFormat::Png.is_lossy());
    assert_eq!(OutFormat::Png.effective_quality(6), 6);
    assert_eq!(OutFormat::Png.effective_quality(9), 9);
    assert_eq!(OutFormat::Png.effective_quality(10), 9);
    assert_eq!(OutFormat::Png.effective_quality(255), 9);
    assert_eq!(OutFormat::Jpeg.effective_quality(95), 95);
    assert_eq!(OutFormat::Webp.effective_quality(0), 0);
}

#[test]
fn jpeg_output_is_a_jpeg_of_the_same_size() {
    let img = rgb_noise(24, 16);
    let data = encode(&img, OutFormat::Jpeg, 80).unwrap();
    assert_eq!(&data[..2], &[0xff, 0xd8]);
    let back = image::load_from_memory(&data).unwrap();
    assert_eq!((back.width(), back.height()), (24, 16));
    assert!(!back.color().has_alpha());
}

#[test]
fn png_output_decodes_to_the_same_samples() {
    let img = rgb_noise(24, 16);
    let data = encode(&img, OutFormat::Png, 6).unwrap();
    assert_eq!(&data[..8], &[0x89, b'P', b'N', b'G', 0x0d, 0x0a, 0x1a, 0x0a]);
    let back = image::load_from_memory(&data).unwrap();
    assert!(!back.color().has_alpha());
    assert_eq!(&back.to_rgb8().into_raw(), img.pixels());
}

#[test]
fn png_keeps_the_alpha_channel() {
    let img = rgba_noise(24, 16);
    let data = encode(&img, OutFormat::Png, 6).unwrap();
    let back = image::load_from_memory(&data).unwrap();
    assert!(back.color().has_alpha());
    assert_eq!(&back.to_rgba8().into_raw(), img.pixels());
}

#[test]
fn png_level_above_nine_counts_as_nine() {
    let img = rgb_noise(24, 16);
    let nine = encode(&img, OutFormat::Png, 9).unwrap();
    assert_eq!(encode(&img, OutFormat::Png, 10).unwrap(), nine);
    assert_eq!(encode(&img, OutFormat::Png, 255).unwrap(), nine);
}

#[test]
fn png_level_zero_stores_without_compressing() {
    let img = Raster::new(64, 64, false, vec![0; 64 * 64 * 3]).unwrap();
    let stored = encode(&img, OutFormat::Png, 0).unwrap();
    let packed = encode(&img, OutFormat::Png, 9).unwrap();
    assert!(stored.len() > 64 * 64 * 3);
    assert!(packed.len() < stored.len());
}

#[test]
fn webp_output_is_a_webp_of_the_same_size() {
    let img = rgb_noise(24, 16);
    let data = encode(&img, OutFormat::Webp, 80).unwrap();
    assert_eq!(&data[..4], b"RIFF");
    assert_eq!(&data[8..12], b"WEBP");
    let back = image::load_from_memory(&data).unwrap();
    assert_eq!((back.width(), back.height()), (24, 16));
    assert!(!back.color().has_alpha());
}

#[test]
fn webp_keeps_the_alpha_channel() {
    let img = rgba_noise(24, 16);
    let data = encode(&img, OutFormat::Webp, 80).unwrap();
    let back = image::load_from_memory(&data).unwrap();
    assert_eq!((back.width(), back.height()), (24, 16));
    assert!(back.color().has_alpha());
}

#[test]
fn jpeg_drops_alpha_and_blackens_transparent_pixels() {
    // four pixels: opaque red, transparent green, half transparent blue, transparent white
    let rgba = vec![
        255, 0, 0, 255, 0, 255, 0, 0, 0, 0, 255, 128, 255, 255, 255, 0,
    ];
    let rgb = vec![255, 0, 0, 0, 0, 0, 0, 0, 255, 0, 0, 0];
    let with_alpha = Raster::new(2, 2, true, rgba).unwrap();
    let without = Raster::new(2, 2, false, rgb).unwrap();
    let a = encode(&with_alpha, OutFormat::Jpeg, 90).unwrap();
    let b = encode(&without, OutFormat::Jpeg, 90).unwrap();
    assert_eq!(a, b);
    let kept = Raster::new(2, 2, false, vec![255, 0, 0, 0, 255, 0, 0, 0, 255, 255, 255, 255])
        .unwrap();
    assert_ne!(a, encode(&kept, OutFormat::Jpeg, 90).unwrap());
}

#[test]
fn jpeg_of_an_opaque_rgba_image_is_that_of_its_colours() {
    let rgb = noise(3, 8 * 8 * 3);
    let mut rgba = Vec::new();
    for px in rgb.chunks(3) {
        rgba.extend_from_slice(px);
        rgba.push(255);
    }
    let with_alpha = Raster::new(8, 8, true, rgba).unwrap();
    let without = Raster::new(8, 8, false, rgb).unwrap();
    assert_eq!(
        encode(&with_alpha, OutFormat::Jpeg, 75).unwrap(),
        encode(&without, OutFormat::Jpeg, 75).unwrap()
    );
}

#[test]
fn encoding_twice_gives_the_same_bytes() {
    let rgb = rgb_noise(32, 20);
    let rgba = rgba_noise(32, 20);
    for fmt in [OutFormat::Jpeg, OutFormat::Webp, OutFormat::Png] {
        for quality in [1u8, 6, 50, 100] {
            assert_eq!(encode(&rgb, fmt, quality).unwrap(), encode(&rgb, fmt, quality).unwrap());
            assert_eq!(encode(&rgba, fmt, quality).unwrap(), encode(&rgba, fmt, quality).unwrap());
        }
    }
}

#[test]
fn higher_quality_gives_a_larger_file_on_noise() {
    let img = rgb_noise(64, 64);
    let low = encode(&img, OutFormat::Jpeg, 10).unwrap();
    let high = encode(&img, OutFormat::Jpeg, 95).unwrap();
    assert!(low.len() < high.len());
    let low = encode(&img, OutFormat::Webp, 10).unwrap();
    let high = encode(&img, OutFormat::Webp, 95).unwrap();
    assert!(low.len() < high.len());
}

#[test]
fn jpeg_quality_outside_the_scale_is_taken_as_the_nearest_end() {
    let img = rgb_noise(16, 16);
    assert_eq!(encode(&img, OutFormat::Jpeg, 0).unwrap(), encode(&img, OutFormat::Jpeg, 1).unwrap());
    assert_eq!(
        encode(&img, OutFormat::Jpeg, 200).unwrap(),
        encode(&img, OutFormat::Jpeg, 100).unwrap()
    );
}

#[test]
fn webp_rejects_a_quality_above_one_hundred() {
    let img = rgb_noise(16, 16);
    assert!(encode(&img, OutFormat::Webp, 100).is_ok());
    assert_eq!(encode(&img, OutFormat::Webp, 101), Err(CompressError::Encode(OutFormat::Webp)));
}

#[test]
fn webp_rejects_an_image_beyond_its_largest_dimension() {
    let wide = Raster::new(16384, 1, false, vec![0; 16384 * 3]).unwrap();
    assert_eq!(encode(&wide, OutFormat::Webp, 80), Err(CompressError::Encode(OutFormat::Webp)));
    let tall = Raster::new(1, 16384, true, vec![0; 16384 * 4]).unwrap();
    assert_eq!(encode(&tall, OutFormat::Webp, 80), Err(CompressError::Encode(OutFormat::Webp)));
    let widest = Raster::new(16383, 1, false, vec![0; 16383 * 3]).unwrap();
    assert!(encode(&widest, OutFormat::Webp, 80).is_ok());
}

#[test]
fn jpeg_rejects_an_image_beyond_its_largest_dimension() {
    let wide = Raster::new(65536, 1, false, vec![0; 65536 * 3]).unwrap();
    assert_eq!(encode(&wide, OutFormat::Jpeg, 80), Err(CompressError::Encode(OutFormat::Jpeg)));
    let widest = Raster::new(65535, 1, false, vec![0; 65535 * 3]).unwrap();
    assert!(encode(&widest, OutFormat::Jpeg, 80).is_ok());
}

#[test]
fn errors_describe_themselves() {
    assert_eq!(
        CompressError::InvalidRange.message(),
        "quality range must be within 1..=100 and min <= max"
    );
    assert_eq!(CompressError::Encode(OutFormat::Jpeg).message(), "JPEG encode failed");
    assert_eq!(CompressError::Encode(OutFormat::Webp).message(), "WebP encode failed");
    assert_eq!(CompressError::Encode(OutFormat::Png).message(), "PNG encode failed");
}
