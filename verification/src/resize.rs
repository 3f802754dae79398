//! The three places where the pipeline changes an image's resolution.

use vstd::prelude::*;
use crate::geometry::{
    clamp_dimensions, clamped_dims, presize_dimensions, presize_needed, presized_dims, shrink,
    spec_shrink,
};
use crate::raster::{Raster, RasterView};

verus! {

/// Whether `r` is what a resize of `from` to `dims` may give: an image of
/// those dimensions in the same colour mode, and `from` itself where the
/// dimensions are its own.
pub open spec fn resized_from(r: RasterView, from: RasterView, dims: (u32, u32)) -> bool {
    &&& r.wf()
    &&& r.has_alpha == from.has_alpha
    &&& (r.width, r.height) == dims
    &&& dims == (from.width, from.height) ==> r == from
}

/// Applies optional maximum dimensions to an image.
///
/// The image is scaled down uniformly, once, so that it respects both
/// bounds; an image already within them is returned as it came. An image is
/// never enlarged.
pub fn apply_max_dimensions(img: Raster, max_w: Option<u32>, max_h: Option<u32>) -> (r: Raster)
    ensures
        resized_from(r@, img@, clamped_dims(img@.width, img@.height, max_w, max_h)),
        r@.width <= img@.width,
        r@.height <= img@.height,
        max_w matches Some(m) ==> m >= 1 ==> r@.width <= m,
        max_h matches Some(m) ==> m >= 1 ==> r@.height <= m,
{
    let w = img.width();
    let h = img.height();
    let (new_w, new_h) = clamp_dimensions(w, h, max_w, max_h);
    if new_w == w && new_h == h {
        img
    } else {
        img.resample(new_w, new_h)
    }
}

/// One downscale step: both dimensions drop to nine tenths, rounded down,
/// and never below one pixel.
pub fn downscale_10_percent(img: &Raster) -> (r: Raster)
    ensures
        r@.width == spec_shrink(img@.width),
        r@.height == spec_shrink(img@.height),
        r@.has_alpha == img@.has_alpha,
        r@.wf(),
{
    let new_w = shrink(img.width());
    let new_h = shrink(img.height());
    img.resample(new_w, new_h)
}

/// Shrinks a grossly oversized image before any encoding is attempted.
///
/// An image with more than four times the pixels that the budget pays for at
/// two bytes per pixel is scaled down to about twice that pixel count. Any
/// other image is left untouched.
pub fn pre_downscale_large_images(img: &mut Raster, target_bytes: u64)
    ensures
        resized_from(
            final(img)@,
            old(img)@,
            presized_dims(old(img)@.width, old(img)@.height, target_bytes),
        ),
        final(img)@.width <= old(img)@.width,
        final(img)@.height <= old(img)@.height,
        !presize_needed(old(img)@.width, old(img)@.height, target_bytes) ==> final(img)@ == old(
            img,
        )@,
{
    let w = img.width();
    let h = img.height();
    let (new_w, new_h) = presize_dimensions(w, h, target_bytes);
    if new_w != w || new_h != h {
        *img = img.resample(new_w, new_h);
    }
}

} // verus!
