use vstd::prelude::*;
use crate::codec::lanczos_resize;

verus! {

/// Bytes per pixel of an 8-bit raster with or without an alpha channel.
pub open spec fn channel_count(has_alpha: bool) -> nat {
    if has_alpha {
        4
    } else {
        3
    }
}

/// The mathematical content of a [`Raster`]: its dimensions, whether its
/// pixels carry alpha, and the interleaved 8-bit samples in row-major order.
pub struct RasterView {
    pub width: u32,
    pub height: u32,
    pub has_alpha: bool,
    pub pixels: Seq<u8>,
}

impl RasterView {
    /// A raster has at least one pixel and exactly as many samples as its
    /// dimensions and channel count call for.
    pub open spec fn wf(self) -> bool {
        &&& self.width >= 1
        &&& self.height >= 1
        &&& self.pixels.len() == self.width * self.height * channel_count(self.has_alpha)
    }

    /// Number of pixels.
    pub open spec fn pixel_count(self) -> nat {
        (self.width * self.height) as nat
    }
}

/// An in-memory decoded image: 8-bit RGB or RGBA samples.
pub struct Raster {
    width: u32,
    height: u32,
    has_alpha: bool,
    pixels: Vec<u8>,
}

impl View for Raster {
    type V = RasterView;

    closed spec fn view(&self) -> RasterView {
        RasterView {
            width: self.width,
            height: self.height,
            has_alpha: self.has_alpha,
            pixels: self.pixels@,
        }
    }
}

impl Raster {
    #[verifier::type_invariant]
    spec fn inv(self) -> bool {
        self@.wf()
    }

    /// Builds a raster from raw samples. Returns `None` when a dimension is
    /// zero or the number of samples does not match the dimensions.
    pub fn new(width: u32, height: u32, has_alpha: bool, pixels: Vec<u8>) -> (r: Option<Raster>)
        ensures
            r is Some <==> (RasterView { width, height, has_alpha, pixels: pixels@ }).wf(),
            r matches Some(img) ==> img@ == (RasterView {
                width,
                height,
                has_alpha,
                pixels: pixels@,
            }),
    {
        if width == 0 || height == 0 {
            return None;
        }
        let channels: u128 = if has_alpha {
            4
        } else {
            3
        };
        assert(width * height <= 0xffff_ffff * 0xffff_ffff) by (nonlinear_arith)
            requires
                width <= 0xffff_ffff,
                height <= 0xffff_ffff,
        ;
        let expected: u128 = (width as u128) * (height as u128) * channels;
        if pixels.len() as u128 != expected {
            return None;
        }
        Some(Raster { width, height, has_alpha, pixels })
    }

    /// Every raster in hand is well formed. Costs nothing at run time.
    pub fn well_formed(&self)
        ensures
            self@.wf(),
    {
        proof {
            use_type_invariant(self);
        }
    }

    pub fn width(&self) -> (w: u32)
        ensures
            w == self@.width,
            self@.wf(),
    {
        proof {
            use_type_invariant(self);
        }
        self.width
    }

    pub fn height(&self) -> (h: u32)
        ensures
            h == self@.height,
            self@.wf(),
    {
        proof {
            use_type_invariant(self);
        }
        self.height
    }

    pub fn has_alpha(&self) -> (a: bool)
        ensures
            a == self@.has_alpha,
            self@.wf(),
    {
        proof {
            use_type_invariant(self);
        }
        self.has_alpha
    }

    /// The samples, row by row, pixel by pixel, channel by channel.
    pub fn pixels(&self) -> (p: &Vec<u8>)
        ensures
            p@ == self@.pixels,
            self@.wf(),
    {
        proof {
            use_type_invariant(self);
        }
        &self.pixels
    }

    /// Resamples the raster to smaller dimensions with a Lanczos filter. The
    /// colour mode is kept.
    pub(crate) fn resample(&self, new_width: u32, new_height: u32) -> (r: Raster)
        requires
            1 <= new_width <= self@.width,
            1 <= new_height <= self@.height,
        ensures
            r@.width == new_width,
            r@.height == new_height,
            r@.has_alpha == self@.has_alpha,
            r@.wf(),
    {
        proof {
            use_type_invariant(self);
        }
        let pixels = lanczos_resize(
            &self.pixels,
            self.width,
            self.height,
            self.has_alpha,
            new_width,
            new_height,
        );
        Raster { width: new_width, height: new_height, has_alpha: self.has_alpha, pixels }
    }
}

} // verus!
