//! One operation over the three formats: samples in, encoded file out.

use vstd::prelude::*;
use crate::codec::{
    jpeg_encode, jpeg_encoding, png_encode, png_encoding, webp_encode, webp_encoding,
    WEBP_MAX_DIMENSION,
};
use crate::error::CompressError;
use crate::format::{OutFormat, MAX_PNG_LEVEL};
use crate::raster::{channel_count, Raster, RasterView};

verus! {

/// The three-channel samples a format without alpha receives: the colour of
/// every pixel, except that a fully transparent pixel turns black.
pub open spec fn opaque_rgb(img: RasterView) -> Seq<u8> {
    if img.has_alpha {
        Seq::new(
            img.pixel_count() * 3,
            |i: int|
                if img.pixels[4 * (i / 3) + 3] == 0 {
                    0u8
                } else {
                    img.pixels[4 * (i / 3) + i % 3]
                },
        )
    } else {
        img.pixels
    }
}

/// Whether an encoding of `img` as `fmt` carries an alpha channel: the image
/// must have one and the format must be able to hold it.
pub open spec fn carries_alpha(img: RasterView, fmt: OutFormat) -> bool {
    img.has_alpha && fmt.keeps_alpha()
}

/// The samples handed to the codec of `fmt`: those of the image, with the
/// alpha channel removed where the format cannot hold it.
pub open spec fn codec_samples(img: RasterView, fmt: OutFormat) -> Seq<u8> {
    if fmt.keeps_alpha() {
        img.pixels
    } else {
        opaque_rgb(img)
    }
}

/// What the codec of `fmt` makes of `samples`: the file, or `None` where it
/// rejects them. `knob` is the quality for the lossy formats and the
/// compression level for PNG.
pub open spec fn codec_output(
    samples: Seq<u8>,
    width: u32,
    height: u32,
    alpha: bool,
    fmt: OutFormat,
    knob: u8,
) -> Option<Seq<u8>> {
    match fmt {
        OutFormat::Jpeg => jpeg_encoding(samples, width, height, knob),
        OutFormat::Webp => if width > WEBP_MAX_DIMENSION || height > WEBP_MAX_DIMENSION {
            None
        } else {
            webp_encoding(samples, width, height, alpha, knob)
        },
        OutFormat::Png => png_encoding(samples, width, height, alpha, knob),
    }
}

/// What encoding `img` as `fmt` at `quality` yields: the file, or `None`
/// where the codec rejects the raster or the parameters.
///
/// JPEG receives three channels whatever the image holds; WebP and PNG
/// receive the image's own. PNG reads `quality` as a compression level and
/// caps it at nine; JPEG and WebP receive it unchanged.
pub open spec fn spec_encode(img: RasterView, fmt: OutFormat, quality: u8) -> Option<Seq<u8>> {
    codec_output(
        codec_samples(img, fmt),
        img.width,
        img.height,
        carries_alpha(img, fmt),
        fmt,
        fmt.effective_quality(quality),
    )
}

/// Removes the alpha channel of an RGBA raster, blackening the pixels that
/// were fully transparent.
fn flatten_alpha(img: &Raster) -> (rgb: Vec<u8>)
    requires
        img@.has_alpha,
    ensures
        rgb@ == opaque_rgb(img@),
        rgb@.len() == img@.width * img@.height * 3,
{
    let src = img.pixels();
    let n: usize = src.len() / 4;
    assert(src@.len() == img@.pixel_count() * 4);
    let mut rgb: Vec<u8> = Vec::with_capacity(3 * n);
    let mut p: usize = 0;
    while p < n
        invariant
            img@.has_alpha,
            src@ == img@.pixels,
            src@.len() == 4 * n,
            4 * n <= usize::MAX,
            n == img@.pixel_count(),
            p <= n,
            rgb@.len() == 3 * p,
            forall|i: int| 0 <= i < 3 * p ==> rgb@[i] == opaque_rgb(img@)[i],
        decreases n - p,
    {
        let transparent = src[4 * p + 3] == 0;
        let mut c: usize = 0;
        while c < 3
            invariant
                img@.has_alpha,
                src@ == img@.pixels,
                src@.len() == 4 * n,
                4 * n <= usize::MAX,
                n == img@.pixel_count(),
                p < n,
                c <= 3,
                transparent == (src@[4 * p + 3] == 0),
                rgb@.len() == 3 * p + c,
                forall|i: int| 0 <= i < 3 * p + c ==> rgb@[i] == opaque_rgb(img@)[i],
            decreases 3 - c,
        {
            let sample: u8 = if transparent {
                0
            } else {
                src[4 * p + c]
            };
            proof {
                let i = 3 * p + c;
                assert(i / 3 == p && i % 3 == c);
            }
            rgb.push(sample);
            c += 1;
        }
        p += 1;
    }
    rgb
}

/// Whether `res` is what encoding `img` as `fmt` at `quality` returns: the
/// file where the codec produces one, and `CompressError::Encode` where it
/// rejects the input.
pub open spec fn encode_returns(
    img: RasterView,
    fmt: OutFormat,
    quality: u8,
    res: Result<Vec<u8>, CompressError>,
) -> bool {
    match res {
        Ok(data) => spec_encode(img, fmt, quality) == Some(data@),
        Err(e) => spec_encode(img, fmt, quality) is None && e == CompressError::Encode(fmt),
    }
}

/// Encoding is a function of the image, the format and the quality: two
/// encodings of the same image in the same format at the same quality are
/// the same bytes, or fail alike.
pub proof fn lemma_encode_is_repeatable(
    img: RasterView,
    fmt: OutFormat,
    quality: u8,
    first: Result<Vec<u8>, CompressError>,
    second: Result<Vec<u8>, CompressError>,
)
    requires
        encode_returns(img, fmt, quality, first),
        encode_returns(img, fmt, quality, second),
    ensures
        first is Ok <==> second is Ok,
        first matches Ok(a) ==> second matches Ok(b) && a@ == b@,
        first matches Err(e) ==> second matches Err(f) && e == f,
{
}

/// Encodes `img` as `fmt`.
///
/// For the lossy formats `quality` is the fidelity knob of the codec; for
/// PNG it is a compression level and anything above nine counts as nine.
/// JPEG never carries alpha; WebP and PNG carry it when the raster has it.
/// Fails with `CompressError::Encode` exactly when the codec rejects the
/// input.
pub fn encode(img: &Raster, fmt: OutFormat, quality: u8) -> (res: Result<Vec<u8>, CompressError>)
    ensures
        encode_returns(img@, fmt, quality, res),
{
    let width = img.width();
    let height = img.height();
    let knob = fmt.effective_quality(quality);
    if img.has_alpha() && !fmt.keeps_alpha() {
        let rgb = flatten_alpha(img);
        run_codec(&rgb, width, height, false, fmt, knob)
    } else {
        run_codec(img.pixels(), width, height, img.has_alpha(), fmt, knob)
    }
}

/// Hands samples to the codec of `fmt` and turns its refusal into this
/// library's error.
fn run_codec(
    samples: &Vec<u8>,
    width: u32,
    height: u32,
    alpha: bool,
    fmt: OutFormat,
    knob: u8,
) -> (res: Result<Vec<u8>, CompressError>)
    requires
        samples@.len() == width * height * channel_count(alpha),
        alpha ==> fmt.keeps_alpha(),
        fmt is Png ==> knob <= MAX_PNG_LEVEL,
    ensures
        res matches Ok(data) ==> codec_output(samples@, width, height, alpha, fmt, knob) == Some(
            data@,
        ),
        res matches Err(e) ==> codec_output(samples@, width, height, alpha, fmt, knob) is None
            && e == CompressError::Encode(fmt),
{
    match fmt {
        OutFormat::Jpeg => match jpeg_encode(samples, width, height, knob) {
            Ok(data) => Ok(data),
            Err(_) => Err(CompressError::Encode(fmt)),
        },
        OutFormat::Webp => {
            if width > WEBP_MAX_DIMENSION || height > WEBP_MAX_DIMENSION {
                return Err(CompressError::Encode(fmt));
            }
            match webp_encode(samples, width, height, alpha, knob) {
                Ok(data) => Ok(data),
                Err(_) => Err(CompressError::Encode(fmt)),
            }
        },
        OutFormat::Png => match png_encode(samples, width, height, alpha, knob) {
            Ok(data) => Ok(data),
            Err(_) => Err(CompressError::Encode(fmt)),
        },
    }
}

} // verus!
