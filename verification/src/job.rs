//! What a compression run is asked to do.

use vstd::prelude::*;
use crate::format::OutFormat;
use crate::search::{valid_quality_range, MAX_QUALITY};

verus! {

/// A path in the file system. The library carries paths and never reads them.
#[verifier::external_type_specification]
#[verifier::external_body]
pub struct ExPathBuf(std::path::PathBuf);

/// What one compression run is asked to do.
pub struct Args {
    /// Input image path.
    pub input: std::path::PathBuf,
    /// Output image path.
    pub output: std::path::PathBuf,
    /// Target size in KB (upper bound).
    pub target_kb: u64,
    /// Output format.
    pub format: OutFormat,
    /// Optional maximum width.
    pub max_width: Option<u32>,
    /// Optional maximum height.
    pub max_height: Option<u32>,
    /// Lowest quality the search may use (1..=100).
    pub min_quality: u8,
    /// Highest quality the search may use (1..=100).
    pub max_quality: u8,
    /// How many times the image may be downscaled when it still does not fit.
    pub max_downscale_rounds: u8,
    /// PNG compression level (0..=9; anything higher counts as 9).
    pub png_compression_level: u8,
}

impl Args {
    /// The byte budget, or `None` where it is beyond what a `u64` holds.
    pub fn target_bytes(&self) -> (r: Option<u64>)
        ensures
            self.target_kb * 1024 <= u64::MAX ==> r == Some((self.target_kb * 1024) as u64),
            self.target_kb * 1024 > u64::MAX ==> r is None,
    {
        self.target_kb.checked_mul(1024)
    }

    /// Whether the quality bounds satisfy `1 <= min <= max <= 100`.
    pub fn has_valid_quality_range(&self) -> (ok: bool)
        ensures
            ok == valid_quality_range(self.min_quality, self.max_quality),
    {
        1 <= self.min_quality && self.min_quality <= self.max_quality && self.max_quality
            <= MAX_QUALITY
    }
}

} // verus!
