use vstd::prelude::*;

verus! {

/// Largest compression level the lossless encoder understands.
pub const MAX_PNG_LEVEL: u8 = 9;

/// The encoded formats the compressor can produce.
#[derive(Copy, Clone, Debug, PartialEq, Eq, Structural)]
pub enum OutFormat {
    Jpeg,
    Webp,
    Png,
}

impl OutFormat {
    /// Whether an encoding in this format can carry an alpha channel.
    pub open spec fn spec_keeps_alpha(self) -> bool {
        !(self is Jpeg)
    }

    /// The knob value the codec actually receives for a requested `quality`:
    /// the lossless format reads it as a compression level and caps it,
    /// the lossy formats take it as it is.
    pub open spec fn spec_effective_quality(self, quality: u8) -> u8 {
        if self is Png && quality > MAX_PNG_LEVEL {
            MAX_PNG_LEVEL
        } else {
            quality
        }
    }

    /// Whether a quality search makes sense for this format.
    pub open spec fn spec_is_lossy(self) -> bool {
        !(self is Png)
    }

    #[verifier::when_used_as_spec(spec_keeps_alpha)]
    pub fn keeps_alpha(self) -> (r: bool)
        ensures
            r == self.spec_keeps_alpha(),
    {
        match self {
            OutFormat::Jpeg => false,
            OutFormat::Webp => true,
            OutFormat::Png => true,
        }
    }

    #[verifier::when_used_as_spec(spec_effective_quality)]
    pub fn effective_quality(self, quality: u8) -> (r: u8)
        ensures
            r == self.spec_effective_quality(quality),
    {
        match self {
            OutFormat::Png => if quality > MAX_PNG_LEVEL {
                MAX_PNG_LEVEL
            } else {
                quality
            },
            _ => quality,
        }
    }

    #[verifier::when_used_as_spec(spec_is_lossy)]
    pub fn is_lossy(self) -> (r: bool)
        ensures
            r == self.spec_is_lossy(),
    {
        match self {
            OutFormat::Png => false,
            _ => true,
        }
    }
}

} // verus!
