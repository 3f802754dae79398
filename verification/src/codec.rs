//! The image codecs and the resampler, as this library sees them.
//!
//! Everything in this module is taken on trust: the bodies call into the
//! `image` and `webp` crates and are not read by the verifier.

use vstd::prelude::*;
use image::imageops::FilterType;
use image::{DynamicImage, RgbImage, RgbaImage};
use crate::raster::channel_count;

verus! {

/// Largest width or height the WebP format can hold.
pub const WEBP_MAX_DIMENSION: u32 = 16383;

/// Error type of the `image` crate's encoders.
#[verifier::external_type_specification]
#[verifier::external_body]
pub struct ExImageError(image::ImageError);

/// Error type of the `webp` crate's encoder.
#[verifier::external_type_specification]
#[verifier::external_body]
pub struct ExWebPEncodingError(webp::WebPEncodingError);

/// The JPEG file that `image`'s `JpegEncoder` writes for these RGB samples at
/// this quality, or `None` where it refuses them.
pub uninterp spec fn jpeg_encoding(rgb: Seq<u8>, width: u32, height: u32, quality: u8) -> Option<
    Seq<u8>,
>;

/// The PNG file that `image`'s `PngEncoder` writes for these samples at this
/// compression level with adaptive filtering, or `None` where it refuses them.
pub uninterp spec fn png_encoding(
    pixels: Seq<u8>,
    width: u32,
    height: u32,
    has_alpha: bool,
    level: u8,
) -> Option<Seq<u8>>;

/// The WebP file that `webp`'s `Encoder::encode_simple` produces for these
/// samples in lossy mode at this quality, or `None` where it refuses them.
pub uninterp spec fn webp_encoding(
    pixels: Seq<u8>,
    width: u32,
    height: u32,
    has_alpha: bool,
    quality: u8,
) -> Option<Seq<u8>>;

/// Calls `image::codecs::jpeg::JpegEncoder::new_with_quality` and then
/// `write_image` with the `Rgb8` colour type, writing into memory.
///
/// Claimed: the outcome is a function of the samples, the dimensions and the
/// quality alone; on success the bytes returned are the whole file. The
/// encoder panics unless the buffer holds exactly `width * height * 3` bytes,
/// hence the precondition.
#[verifier::external_body]
pub(crate) fn jpeg_encode(rgb: &Vec<u8>, width: u32, height: u32, quality: u8) -> (res: Result<
    Vec<u8>,
    image::ImageError,
>)
    requires
        rgb@.len() == width * height * 3,
    ensures
        res matches Ok(data) ==> jpeg_encoding(rgb@, width, height, quality) == Some(data@),
        res is Err ==> jpeg_encoding(rgb@, width, height, quality) is None,
{
    let mut out = Vec::new();
    let encoder = image::codecs::jpeg::JpegEncoder::new_with_quality(
        std::io::Cursor::new(&mut out),
        quality,
    );
    image::ImageEncoder::write_image(encoder, rgb, width, height, image::ExtendedColorType::Rgb8)?;
    Ok(out)
}

/// Calls `image::codecs::png::PngEncoder::new_with_quality` with
/// `CompressionType::Level(level)` and `FilterType::Adaptive`, and then
/// `write_image` with the `Rgb8` or `Rgba8` colour type, writing into memory.
///
/// Claimed: the outcome is a function of the samples, the dimensions, the
/// colour type and the level alone; on success the bytes returned are the
/// whole file. The encoder panics unless the buffer length matches the
/// dimensions; levels above nine mean nothing to it.
#[verifier::external_body]
pub(crate) fn png_encode(
    pixels: &Vec<u8>,
    width: u32,
    height: u32,
    has_alpha: bool,
    level: u8,
) -> (res: Result<Vec<u8>, image::ImageError>)
    requires
        pixels@.len() == width * height * channel_count(has_alpha),
        level <= 9,
    ensures
        res matches Ok(data) ==> png_encoding(pixels@, width, height, has_alpha, level) == Some(
            data@,
        ),
        res is Err ==> png_encoding(pixels@, width, height, has_alpha, level) is None,
{
    let mut out = Vec::new();
    let encoder = image::codecs::png::PngEncoder::new_with_quality(
        std::io::Cursor::new(&mut out),
        image::codecs::png::CompressionType::Level(level),
        image::codecs::png::FilterType::Adaptive,
    );
    let color = if has_alpha {
        image::ExtendedColorType::Rgba8
    } else {
        image::ExtendedColorType::Rgb8
    };
    image::ImageEncoder::write_image(encoder, pixels, width, height, color)?;
    Ok(out)
}

/// Calls `webp::Encoder::new` with the `Rgba` or `Rgb` pixel layout and then
/// `encode_simple(false, quality)`, copying the result out of the codec's
/// memory.
///
/// Claimed: the outcome is a function of the samples, the dimensions, the
/// layout and the quality alone; on success the bytes returned are the whole
/// file. The constructor panics on a buffer shorter than the dimensions call
/// for, and the crate computes the row stride in 32-bit arithmetic, hence
/// the preconditions.
#[verifier::external_body]
pub(crate) fn webp_encode(
    pixels: &Vec<u8>,
    width: u32,
    height: u32,
    has_alpha: bool,
    quality: u8,
) -> (res: Result<Vec<u8>, webp::WebPEncodingError>)
    requires
        pixels@.len() == width * height * channel_count(has_alpha),
        width <= WEBP_MAX_DIMENSION,
        height <= WEBP_MAX_DIMENSION,
    ensures
        res matches Ok(data) ==> webp_encoding(pixels@, width, height, has_alpha, quality) == Some(
            data@,
        ),
        res is Err ==> webp_encoding(pixels@, width, height, has_alpha, quality) is None,
{
    let layout = if has_alpha { webp::PixelLayout::Rgba } else { webp::PixelLayout::Rgb };
    let encoder = webp::Encoder::new(pixels, layout, width, height);
    let memory = encoder.encode_simple(false, quality.into())?;
    Ok(memory.to_vec())
}

/// Calls `image::DynamicImage::resize_exact` with the `Lanczos3` filter on
/// the samples held as an RGB or RGBA image, and takes the bytes of what
/// comes back.
///
/// Claimed: the result has exactly the requested dimensions and the channel
/// count of the source. Nothing is said of the sample values: the filter is
/// computed in floating point. The buffer constructor refuses a buffer that
/// is too short for the dimensions, and the library only ever shrinks, hence
/// the preconditions.
#[verifier::external_body]
pub(crate) fn lanczos_resize(
    pixels: &Vec<u8>,
    width: u32,
    height: u32,
    has_alpha: bool,
    new_width: u32,
    new_height: u32,
) -> (res: Vec<u8>)
    requires
        pixels@.len() == width * height * channel_count(has_alpha),
        1 <= new_width <= width,
        1 <= new_height <= height,
    ensures
        res@.len() == new_width * new_height * channel_count(has_alpha),
{
    let src = if has_alpha {
        DynamicImage::ImageRgba8(RgbaImage::from_raw(width, height, pixels.clone()).unwrap())
    } else {
        DynamicImage::ImageRgb8(RgbImage::from_raw(width, height, pixels.clone()).unwrap())
    };
    src.resize_exact(new_width, new_height, FilterType::Lanczos3).into_bytes()
}

} // verus!
