//! What a compression run gives back, and what can be said of it.
//!
//! The resampler's output is not predicted here, so the contracts of the
//! downscale loop speak of the images it went through: an [`Outcome`]
//! carries them as a ghost history, and the predicates below relate that
//! history to the bytes, the counters and the flags that come with it.

use vstd::prelude::*;
use crate::encoder::spec_encode;
use crate::error::CompressError;
use crate::format::OutFormat;
use crate::geometry::{clamped_dims, lemma_shrunk_bounds, presized_dims, spec_shrink, spec_shrunk};
use crate::job::Args;
use crate::log2::{ceil_log2, is_power_of_two};
use crate::raster::{Raster, RasterView};
use crate::resize::resized_from;
use crate::search::{
    lemma_fit_attempts_bound, lemma_fit_within_budget_was_found, spec_fit_attempts,
    spec_fit_quality, valid_quality_range,
};

verus! {

/// What the loop does after a round's encoding has been measured.
#[derive(Copy, Clone, Debug, PartialEq, Eq, Structural)]
pub enum Verdict {
    /// The encoding is within the budget: it is the result.
    Accept,
    /// The encoding exceeds the budget and no round is left: it is the
    /// result all the same, as a best effort.
    GiveUp,
    /// The encoding exceeds the budget and a round is left: shrink the image
    /// and go again.
    Downscale,
}

/// The verdict on an encoding of `size` bytes produced in round `round`.
pub open spec fn spec_verdict(size: nat, target_bytes: u64, round: u8, max_rounds: u8) -> Verdict {
    if size <= target_bytes {
        Verdict::Accept
    } else if round >= max_rounds {
        Verdict::GiveUp
    } else {
        Verdict::Downscale
    }
}

/// The result of a compression run.
pub struct Outcome {
    /// The encoded file.
    pub data: Vec<u8>,
    /// The quality, or for PNG the compression level, that produced it.
    pub quality: u8,
    /// The image as it was when `data` was encoded from it.
    pub image: Raster,
    /// How many times the image was downscaled by a tenth.
    pub rounds: u8,
    /// How many encodings were made in all.
    pub attempts: u32,
    /// Whether `data` is within the budget. Where it is not, `data` is the
    /// best effort after the last round allowed.
    pub met_target: bool,
    /// The image of every round, from the one the loop started with to
    /// `image`.
    pub history: Ghost<Seq<RasterView>>,
}

/// Whether `history` is a run of downscale steps: every image is one tenth
/// smaller, in both dimensions, than the one before it.
pub open spec fn is_downscale_run(history: Seq<RasterView>) -> bool {
    &&& history.len() >= 1
    &&& forall|i: int| 0 <= i < history.len() ==> (#[trigger] history[i]).wf()
    &&& forall|i: int|
        0 < i < history.len() ==> {
            &&& (#[trigger] history[i]).has_alpha == history[i - 1].has_alpha
            &&& history[i].width == spec_shrink(history[i - 1].width)
            &&& history[i].height == spec_shrink(history[i - 1].height)
        }
}

/// What holds of every outcome, whichever path produced it: the history is
/// a run of downscale steps that ends in the image encoded, one step per
/// round, and the loop went on no longer than allowed and stopped early only
/// on success.
pub open spec fn outcome_is_consistent(o: Outcome, target_bytes: u64, max_rounds: u8) -> bool {
    &&& is_downscale_run(o.history@)
    &&& o.history@.len() == o.rounds + 1
    &&& o.history@.last() == o.image@
    &&& o.rounds <= max_rounds
    &&& o.met_target == (o.data@.len() <= target_bytes)
    &&& !o.met_target ==> o.rounds == max_rounds
}

/// Whether encoding `img` at `level` succeeds with a file that exceeds the
/// budget.
pub open spec fn encoding_misses(img: RasterView, target_bytes: u64, level: u8) -> bool {
    spec_encode(img, OutFormat::Png, level) matches Some(data) && data.len() > target_bytes
}

/// What holds of the outcome of the lossless path started on `start`.
///
/// Every round encodes once at the given level. The encodings of all rounds
/// but the last exceeded the budget; the last one is the result.
pub open spec fn png_outcome(
    o: Outcome,
    start: RasterView,
    level: u8,
    max_rounds: u8,
    target_bytes: u64,
) -> bool {
    &&& outcome_is_consistent(o, target_bytes, max_rounds)
    &&& o.history@[0] == start
    &&& forall|i: int|
        0 <= i < o.rounds ==> encoding_misses(#[trigger] o.history@[i], target_bytes, level)
    &&& spec_encode(o.image@, OutFormat::Png, level) == Some(o.data@)
    &&& o.quality == OutFormat::Png.effective_quality(level)
    &&& o.attempts == o.rounds + 1
}

/// The encodings made by the quality searches on the images of `history`.
pub open spec fn lossy_attempts(
    history: Seq<RasterView>,
    fmt: OutFormat,
    target_bytes: u64,
    qmin: u8,
    qmax: u8,
) -> nat
    decreases history.len(),
{
    if history.len() == 0 {
        0
    } else {
        lossy_attempts(history.drop_last(), fmt, target_bytes, qmin, qmax) + spec_fit_attempts(
            history.last(),
            fmt,
            target_bytes,
            qmin,
            qmax,
        )
    }
}

/// Whether the quality search on `img` succeeds with an encoding that
/// exceeds the budget.
pub open spec fn search_misses(
    img: RasterView,
    fmt: OutFormat,
    target_bytes: u64,
    qmin: u8,
    qmax: u8,
) -> bool {
    spec_fit_quality(img, fmt, target_bytes, qmin, qmax) matches Ok((data, _)) && data.len()
        > target_bytes
}

/// What holds of the outcome of the lossy path started on `start`.
///
/// The first image is `start` after the proactive shrink. Every round runs
/// one quality search. The searches of all rounds but the last returned
/// encodings that exceeded the budget; the last one's is the result.
pub open spec fn lossy_outcome(
    o: Outcome,
    start: RasterView,
    fmt: OutFormat,
    qmin: u8,
    qmax: u8,
    max_rounds: u8,
    target_bytes: u64,
) -> bool {
    &&& outcome_is_consistent(o, target_bytes, max_rounds)
    &&& resized_from(
        o.history@[0],
        start,
        presized_dims(start.width, start.height, target_bytes),
    )
    &&& forall|i: int|
        0 <= i < o.rounds ==> search_misses(
            #[trigger] o.history@[i],
            fmt,
            target_bytes,
            qmin,
            qmax,
        )
    &&& spec_fit_quality(o.image@, fmt, target_bytes, qmin, qmax) == Ok::<
        (Seq<u8>, u8),
        CompressError,
    >((o.data@, o.quality))
    &&& o.attempts == lossy_attempts(o.history@, fmt, target_bytes, qmin, qmax)
}

/// Whether `history` is a run of the lossless path on `start` that the codec
/// ended: every image but the last was encoded and exceeded the budget, and
/// the last was rejected.
pub open spec fn png_rejected_run(
    history: Seq<RasterView>,
    start: RasterView,
    level: u8,
    max_rounds: u8,
    target_bytes: u64,
) -> bool {
    &&& is_downscale_run(history)
    &&& history[0] == start
    &&& history.len() <= max_rounds + 1
    &&& forall|i: int|
        0 <= i < history.len() - 1 ==> encoding_misses(#[trigger] history[i], target_bytes, level)
    &&& spec_encode(history.last(), OutFormat::Png, level) is None
}

/// Whether `history` is a run of the lossy path on `start` that the codec
/// ended: the search on every image but the last returned an encoding that
/// exceeded the budget, and the search on the last was cut short by a
/// rejection.
pub open spec fn lossy_rejected_run(
    history: Seq<RasterView>,
    start: RasterView,
    fmt: OutFormat,
    qmin: u8,
    qmax: u8,
    max_rounds: u8,
    target_bytes: u64,
) -> bool {
    &&& is_downscale_run(history)
    &&& resized_from(history[0], start, presized_dims(start.width, start.height, target_bytes))
    &&& history.len() <= max_rounds + 1
    &&& forall|i: int|
        0 <= i < history.len() - 1 ==> search_misses(
            #[trigger] history[i],
            fmt,
            target_bytes,
            qmin,
            qmax,
        )
    &&& spec_fit_quality(history.last(), fmt, target_bytes, qmin, qmax) == Err::<
        (Seq<u8>, u8),
        CompressError,
    >(CompressError::Encode(fmt))
}

/// The most encodings one round of the lossy path can take with these
/// quality bounds: `ceil(log2(qmax - qmin + 2))`, and one more where
/// `qmax - qmin + 2` is a power of two and nothing fits.
pub open spec fn round_budget(qmin: u8, qmax: u8, nothing_fit: bool) -> nat {
    ceil_log2((qmax - qmin + 2) as nat) + if nothing_fit && is_power_of_two(
        (qmax - qmin + 2) as nat,
    ) {
        1nat
    } else {
        0nat
    }
}

/// What holds of the outcome of the path that the format in `args` selects,
/// started on `prepared`.
pub open spec fn path_outcome(
    o: Outcome,
    prepared: RasterView,
    args: Args,
    target_bytes: u64,
) -> bool {
    if args.format.is_lossy() {
        lossy_outcome(
            o,
            prepared,
            args.format,
            args.min_quality,
            args.max_quality,
            args.max_downscale_rounds,
            target_bytes,
        )
    } else {
        png_outcome(
            o,
            prepared,
            args.png_compression_level,
            args.max_downscale_rounds,
            target_bytes,
        )
    }
}

/// Whether `history` is a run, ended by the codec, of the path that the
/// format in `args` selects, started on `prepared`.
pub open spec fn path_rejected_run(
    history: Seq<RasterView>,
    prepared: RasterView,
    args: Args,
    target_bytes: u64,
) -> bool {
    if args.format.is_lossy() {
        lossy_rejected_run(
            history,
            prepared,
            args.format,
            args.min_quality,
            args.max_quality,
            args.max_downscale_rounds,
            target_bytes,
        )
    } else {
        png_rejected_run(
            history,
            prepared,
            args.png_compression_level,
            args.max_downscale_rounds,
            target_bytes,
        )
    }
}

/// Whether `prepared` is what bringing `img` within the maximum dimensions
/// of `args` may give.
pub open spec fn prepared_from(prepared: RasterView, img: RasterView, args: Args) -> bool {
    resized_from(
        prepared,
        img,
        clamped_dims(img.width, img.height, args.max_width, args.max_height),
    )
}

/// What holds of the outcome of a whole run on `img`: the image was first
/// brought within the maximum dimensions, and then went down the lossless
/// path for PNG and the lossy path for the other formats.
pub open spec fn run_outcome(o: Outcome, img: RasterView, args: Args, target_bytes: u64) -> bool {
    exists|prepared: RasterView|
        #[trigger] prepared_from(prepared, img, args) && path_outcome(
            o,
            prepared,
            args,
            target_bytes,
        )
}

/// Whether a whole run on `img` can be ended by the codec: the image, once
/// within the maximum dimensions, starts a run of its path that ends in a
/// rejection.
pub open spec fn run_rejected(img: RasterView, args: Args, target_bytes: u64) -> bool {
    exists|prepared: RasterView, history: Seq<RasterView>|
        prepared_from(prepared, img, args) && #[trigger] path_rejected_run(
            history,
            prepared,
            args,
            target_bytes,
        )
}

/// In a run of downscale steps the image of round `i` has the dimensions of
/// the first image after `i` steps of a tenth each, and its colour mode.
pub proof fn lemma_run_dimensions(history: Seq<RasterView>, i: int)
    requires
        is_downscale_run(history),
        0 <= i < history.len(),
    ensures
        history[i].width == spec_shrunk(history[0].width, i as nat),
        history[i].height == spec_shrunk(history[0].height, i as nat),
        history[i].has_alpha == history[0].has_alpha,
        1 <= history[i].width <= history[0].width,
        1 <= history[i].height <= history[0].height,
    decreases i,
{
    assert(history[0].wf());
    lemma_shrunk_bounds(history[0].width, i as nat);
    lemma_shrunk_bounds(history[0].height, i as nat);
    if i > 0 {
        lemma_run_dimensions(history, i - 1);
        assert(history[i].width == spec_shrink(history[i - 1].width));
    }
}

/// The bound on the encodings of a whole run as `args` asks for it.
///
/// The lossless path encodes once a round. The lossy path takes at most
/// `ceil(log2(max_quality - min_quality + 2))` encodings a round, one more
/// in a round that misses the budget where `max_quality - min_quality + 2`
/// is a power of two.
pub open spec fn attempts_bounded(o: Outcome, args: Args) -> bool {
    if args.format.is_lossy() {
        &&& o.attempts <= o.rounds * round_budget(args.min_quality, args.max_quality, true)
            + round_budget(args.min_quality, args.max_quality, !o.met_target)
        &&& !is_power_of_two((args.max_quality - args.min_quality + 2) as nat) ==> o.attempts <= (
        args.max_downscale_rounds + 1) * ceil_log2(
            (args.max_quality - args.min_quality + 2) as nat,
        )
    } else {
        &&& o.attempts == o.rounds + 1
        &&& o.attempts <= args.max_downscale_rounds + 1
    }
}

/// The quality searches on the images of `history` make at most
/// `round_budget(qmin, qmax, true)` encodings each.
pub proof fn lemma_lossy_attempts_bound(
    history: Seq<RasterView>,
    fmt: OutFormat,
    target_bytes: u64,
    qmin: u8,
    qmax: u8,
)
    requires
        valid_quality_range(qmin, qmax),
    ensures
        lossy_attempts(history, fmt, target_bytes, qmin, qmax) <= history.len() * round_budget(
            qmin,
            qmax,
            true,
        ),
    decreases history.len(),
{
    let budget = round_budget(qmin, qmax, true);
    if history.len() > 0 {
        lemma_lossy_attempts_bound(history.drop_last(), fmt, target_bytes, qmin, qmax);
        lemma_fit_attempts_bound(history.last(), fmt, target_bytes, qmin, qmax);
        assert((history.len() - 1) * budget + budget == history.len() * budget)
            by (nonlinear_arith);
    } else {
        assert(0 * budget == 0) by (nonlinear_arith);
    }
}

/// The number of encodings a run of the lossy path takes.
///
/// Every round that misses the budget takes at most
/// `ceil(log2(qmax - qmin + 2))` encodings, and one more where
/// `qmax - qmin + 2` is a power of two; a round that meets it takes at most
/// `ceil(log2(qmax - qmin + 2))`. So unless `qmax - qmin + 2` is a power of
/// two, a run takes at most `(max_rounds + 1) * ceil(log2(qmax - qmin + 2))`.
pub proof fn lemma_lossy_outcome_attempts(
    o: Outcome,
    start: RasterView,
    fmt: OutFormat,
    qmin: u8,
    qmax: u8,
    max_rounds: u8,
    target_bytes: u64,
)
    requires
        valid_quality_range(qmin, qmax),
        lossy_outcome(o, start, fmt, qmin, qmax, max_rounds, target_bytes),
    ensures
        o.attempts <= o.rounds * round_budget(qmin, qmax, true) + round_budget(
            qmin,
            qmax,
            !o.met_target,
        ),
        !is_power_of_two((qmax - qmin + 2) as nat) ==> o.attempts <= (max_rounds + 1) * ceil_log2(
            (qmax - qmin + 2) as nat,
        ),
{
    let history = o.history@;
    let bound = ceil_log2((qmax - qmin + 2) as nat);
    lemma_lossy_attempts_bound(history.drop_last(), fmt, target_bytes, qmin, qmax);
    lemma_fit_attempts_bound(history.last(), fmt, target_bytes, qmin, qmax);
    if o.met_target {
        lemma_fit_within_budget_was_found(history.last(), fmt, target_bytes, qmin, qmax);
    }
    if !is_power_of_two((qmax - qmin + 2) as nat) {
        assert(o.rounds * bound + bound <= (max_rounds + 1) * bound) by (nonlinear_arith)
            requires
                o.rounds <= max_rounds,
                bound >= 0,
        ;
    }
}

} // verus!
