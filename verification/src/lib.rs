//! Compresses a raster image to fit a byte budget.
//!
//! Lossy formats are searched for the highest quality whose encoding fits;
//! where none fits, and for the lossless format, the image is downscaled by
//! a tenth and tried again, a bounded number of times. An oversized input is
//! shrunk once before the search begins.
//!
//! The codecs and the resampler come from the `image` and `webp` crates and
//! are taken on trust (see [`codec`]); everything built on them is verified.

pub mod codec;
pub mod encoder;
pub mod error;
pub mod format;
pub mod geometry;
pub mod job;
pub mod log2;
pub mod outcome;
pub mod pipeline;
pub mod raster;
pub mod resize;
pub mod search;

pub use encoder::encode;
pub use error::CompressError;
pub use format::OutFormat;
pub use job::Args;
pub use outcome::{Outcome, Verdict};
pub use pipeline::{compress, judge_round, process_lossy_compression, process_png_compression};
pub use raster::Raster;
pub use resize::{apply_max_dimensions, downscale_10_percent, pre_downscale_large_images};
pub use search::{fit_quality, search_quality, Fit};
