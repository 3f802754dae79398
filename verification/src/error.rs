use vstd::prelude::*;
use crate::format::OutFormat;

verus! {

/// Why a compression run produced no output.
#[derive(Copy, Clone, Debug, PartialEq, Eq, Structural)]
pub enum CompressError {
    /// The quality bounds do not satisfy `1 <= min <= max <= 100`.
    InvalidRange,
    /// The codec for the given format rejected the raster or the parameters.
    Encode(OutFormat),
}

impl CompressError {
    /// The text that describes the error to a person.
    pub open spec fn spec_message(self) -> Seq<char> {
        match self {
            CompressError::InvalidRange => "quality range must be within 1..=100 and min <= max"@,
            CompressError::Encode(OutFormat::Jpeg) => "JPEG encode failed"@,
            CompressError::Encode(OutFormat::Webp) => "WebP encode failed"@,
            CompressError::Encode(OutFormat::Png) => "PNG encode failed"@,
        }
    }

    /// Describes the error to a person.
    pub fn message(&self) -> (text: &'static str)
        ensures
            text@ == self.spec_message(),
    {
        match self {
            CompressError::InvalidRange => "quality range must be within 1..=100 and min <= max",
            CompressError::Encode(OutFormat::Jpeg) => "JPEG encode failed",
            CompressError::Encode(OutFormat::Webp) => "WebP encode failed",
            CompressError::Encode(OutFormat::Png) => "PNG encode failed",
        }
    }
}

} // verus!
