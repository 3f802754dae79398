//! The downscale loop: encode, compare with the budget, shrink, repeat.

use vstd::prelude::*;
use crate::encoder::{encode, spec_encode};
use crate::error::CompressError;
use crate::format::OutFormat;
use crate::geometry::{lemma_presized_within, presize_needed, presized_dims};
use crate::job::Args;
use crate::log2::{ceil_log2, is_power_of_two};
use crate::outcome::{
    attempts_bounded, encoding_misses, is_downscale_run, lemma_lossy_outcome_attempts,
    lemma_run_dimensions, lossy_attempts, lossy_outcome, lossy_rejected_run, path_outcome,
    path_rejected_run, png_outcome, png_rejected_run, prepared_from, round_budget, run_outcome,
    run_rejected, search_misses, spec_verdict, Outcome, Verdict,
};
use crate::raster::{Raster, RasterView};
use crate::resize::{
    apply_max_dimensions, downscale_10_percent, pre_downscale_large_images, resized_from,
};
use crate::search::{fits, search_quality, spec_fit_quality, valid_quality_range, MAX_QUALITY};

verus! {

/// Decides what follows a round from the size of its encoding.
pub fn judge_round(size: usize, target_bytes: u64, round: u8, max_rounds: u8) -> (v: Verdict)
    ensures
        v == spec_verdict(size as nat, target_bytes, round, max_rounds),
{
    if size as u64 <= target_bytes {
        Verdict::Accept
    } else if round >= max_rounds {
        Verdict::GiveUp
    } else {
        Verdict::Downscale
    }
}

/// Compresses losslessly: encodes as PNG at the configured level, and while
/// the result exceeds `target_bytes` and rounds are left, downscales by a
/// tenth and encodes again.
///
/// Succeeds whenever the codec accepts every image it is given, whether or
/// not the budget is met in the end; `met_target` tells which.
pub fn process_png_compression(img: Raster, args: &Args, target_bytes: u64) -> (res: Result<
    Outcome,
    CompressError,
>)
    ensures
        res matches Ok(o) ==> png_outcome(
            o,
            img@,
            args.png_compression_level,
            args.max_downscale_rounds,
            target_bytes,
        ),
        res matches Err(e) ==> e == CompressError::Encode(OutFormat::Png) && exists|
            history: Seq<RasterView>,
        |
            png_rejected_run(
                history,
                img@,
                args.png_compression_level,
                args.max_downscale_rounds,
                target_bytes,
            ),
        spec_encode(img@, OutFormat::Png, args.png_compression_level) is None ==> res is Err,
        fits(img@, OutFormat::Png, target_bytes, args.png_compression_level) ==> (res matches Ok(o)
            && o.rounds == 0 && o.met_target && o.image@ == img@),
        res matches Ok(o) ==> o.attempts <= args.max_downscale_rounds + 1,
{
    let level = args.png_compression_level;
    let max_rounds = args.max_downscale_rounds;
    let ghost start = img@;
    let ghost mut history: Seq<RasterView> = seq![img@];
    let mut current = img;
    let mut round: u8 = 0;
    current.well_formed();
    loop
        invariant
            level == args.png_compression_level,
            max_rounds == args.max_downscale_rounds,
            start == img@,
            round <= max_rounds,
            history.len() == round + 1,
            history[0] == start,
            history.last() == current@,
            is_downscale_run(history),
            round > 0 ==> spec_encode(start, OutFormat::Png, level) is Some,
            forall|i: int|
                0 <= i < round ==> encoding_misses(#[trigger] history[i], target_bytes, level),
        decreases max_rounds - round,
    {
        let data = match encode(&current, OutFormat::Png, level) {
            Ok(data) => data,
            Err(e) => {
                assert(png_rejected_run(history, start, level, max_rounds, target_bytes));
                return Err(e);
            },
        };
        match judge_round(data.len(), target_bytes, round, max_rounds) {
            Verdict::Downscale => {
                let next = downscale_10_percent(&current);
                current = next;
                round = round + 1;
                proof {
                    history = history.push(current@);
                }
            },
            verdict => {
                return Ok(
                    Outcome {
                        data,
                        quality: OutFormat::Png.effective_quality(level),
                        image: current,
                        rounds: round,
                        attempts: round as u32 + 1,
                        met_target: verdict == Verdict::Accept,
                        history: Ghost(history),
                    },
                );
            },
        }
    }
}

/// Compresses lossily: shrinks a grossly oversized image once, then searches
/// for the best quality that fits `target_bytes`, and while none fits and
/// rounds are left, downscales by a tenth and searches again.
///
/// Fails with `InvalidRange`, before anything else is done, exactly when the
/// quality bounds in `args` do not satisfy `1 <= min <= max <= 100`.
/// Otherwise it succeeds whenever the codec accepts everything it is given,
/// whether or not the budget is met in the end; `met_target` tells which.
pub fn process_lossy_compression(img: Raster, args: &Args, target_bytes: u64) -> (res: Result<
    Outcome,
    CompressError,
>)
    ensures
        res matches Ok(o) ==> lossy_outcome(
            o,
            img@,
            args.format,
            args.min_quality,
            args.max_quality,
            args.max_downscale_rounds,
            target_bytes,
        ),
        res == Err::<Outcome, CompressError>(CompressError::InvalidRange) <==> !valid_quality_range(
            args.min_quality,
            args.max_quality,
        ),
        res matches Err(e) ==> e == CompressError::InvalidRange || (e == CompressError::Encode(
            args.format,
        ) && exists|history: Seq<RasterView>|
            lossy_rejected_run(
                history,
                img@,
                args.format,
                args.min_quality,
                args.max_quality,
                args.max_downscale_rounds,
                target_bytes,
            )),
        valid_quality_range(args.min_quality, args.max_quality) && !presize_needed(
            img@.width,
            img@.height,
            target_bytes,
        ) && !search_misses(img@, args.format, target_bytes, args.min_quality, args.max_quality)
            ==> match res {
            Ok(o) => o.rounds == 0 && o.met_target && o.image@ == img@,
            Err(_) => spec_fit_quality(
                img@,
                args.format,
                target_bytes,
                args.min_quality,
                args.max_quality,
            ) is Err,
        },
        res matches Ok(o) ==> o.attempts <= o.rounds * round_budget(
            args.min_quality,
            args.max_quality,
            true,
        ) + round_budget(args.min_quality, args.max_quality, !o.met_target),
        res matches Ok(o) ==> !is_power_of_two((args.max_quality - args.min_quality + 2) as nat)
            ==> o.attempts <= (args.max_downscale_rounds + 1) * ceil_log2(
            (args.max_quality - args.min_quality + 2) as nat,
        ),
{
    let fmt = args.format;
    let qmin = args.min_quality;
    let qmax = args.max_quality;
    let max_rounds = args.max_downscale_rounds;
    if qmin > qmax || qmin == 0 || qmax > MAX_QUALITY {
        return Err(CompressError::InvalidRange);
    }
    let ghost start = img@;
    let mut current = img;
    pre_downscale_large_images(&mut current, target_bytes);
    let ghost mut history: Seq<RasterView> = seq![current@];
    let mut round: u8 = 0;
    let mut attempts: u32 = 0;
    proof {
        assert(history.drop_last() =~= Seq::<RasterView>::empty());
    }
    loop
        invariant
            fmt == args.format,
            qmin == args.min_quality,
            qmax == args.max_quality,
            max_rounds == args.max_downscale_rounds,
            valid_quality_range(qmin, qmax),
            start == img@,
            round <= max_rounds,
            history.len() == round + 1,
            history.last() == current@,
            is_downscale_run(history),
            resized_from(
                history[0],
                start,
                presized_dims(start.width, start.height, target_bytes),
            ),
            forall|i: int|
                0 <= i < round ==> search_misses(
                    #[trigger] history[i],
                    fmt,
                    target_bytes,
                    qmin,
                    qmax,
                ),
            attempts == lossy_attempts(history.drop_last(), fmt, target_bytes, qmin, qmax),
            attempts <= round * 101,
        decreases max_rounds - round,
    {
        let fit = match search_quality(&current, fmt, target_bytes, qmin, qmax) {
            Ok(fit) => fit,
            Err(e) => {
                assert(lossy_rejected_run(
                    history,
                    start,
                    fmt,
                    qmin,
                    qmax,
                    max_rounds,
                    target_bytes,
                ));
                return Err(e);
            },
        };
        let total: u32 = attempts + fit.attempts;
        match judge_round(fit.data.len(), target_bytes, round, max_rounds) {
            Verdict::Downscale => {
                let next = downscale_10_percent(&current);
                current = next;
                proof {
                    let grown = history.push(current@);
                    assert(grown.drop_last() =~= history);
                    history = grown;
                }
                attempts = total;
                round = round + 1;
            },
            verdict => {
                let outcome = Outcome {
                    data: fit.data,
                    quality: fit.quality,
                    image: current,
                    rounds: round,
                    attempts: total,
                    met_target: verdict == Verdict::Accept,
                    history: Ghost(history),
                };
                proof {
                    lemma_lossy_outcome_attempts(
                        outcome,
                        start,
                        fmt,
                        qmin,
                        qmax,
                        max_rounds,
                        target_bytes,
                    );
                }
                return Ok(outcome);
            },
        }
    }
}

/// Compresses `img` to at most `target_bytes` as `args` asks.
///
/// The image is brought within the maximum dimensions first. PNG output
/// then takes the lossless path, JPEG and WebP output the lossy one. For the
/// lossy formats the quality bounds are checked before any work is done.
/// An outcome that misses the budget after the last round is a success with
/// `met_target` unset, not an error.
pub fn compress(img: Raster, args: &Args, target_bytes: u64) -> (res: Result<
    Outcome,
    CompressError,
>)
    ensures
        res matches Ok(o) ==> run_outcome(o, img@, *args, target_bytes),
        res == Err::<Outcome, CompressError>(CompressError::InvalidRange) <==> (
        args.format.is_lossy() && !valid_quality_range(args.min_quality, args.max_quality)),
        res matches Err(e) ==> e == CompressError::InvalidRange || (e == CompressError::Encode(
            args.format,
        ) && run_rejected(img@, *args, target_bytes)),
        res matches Ok(o) ==> attempts_bounded(o, *args),
        res matches Ok(o) ==> {
            &&& o.rounds <= args.max_downscale_rounds
            &&& o.met_target == (o.data@.len() <= target_bytes)
            &&& !o.met_target ==> o.rounds == args.max_downscale_rounds
            &&& o.image@.has_alpha == img@.has_alpha
            &&& o.image@.width <= img@.width
            &&& o.image@.height <= img@.height
        },
{
    if args.format.is_lossy() && !args.has_valid_quality_range() {
        return Err(CompressError::InvalidRange);
    }
    let prepared = apply_max_dimensions(img, args.max_width, args.max_height);
    let ghost prepared_view = prepared@;
    let res = if args.format.is_lossy() {
        process_lossy_compression(prepared, args, target_bytes)
    } else {
        process_png_compression(prepared, args, target_bytes)
    };
    proof {
        assert(prepared_from(prepared_view, img@, *args));
        if res is Ok {
            let o = res->Ok_0;
            assert(path_outcome(o, prepared_view, *args, target_bytes));
            lemma_run_dimensions(o.history@, o.rounds as int);
            assert(o.history@.last() == o.history@[o.rounds as int]);
            if presize_needed(prepared_view.width, prepared_view.height, target_bytes) {
                assert(prepared_view.width * prepared_view.height == prepared_view.height
                    * prepared_view.width) by (nonlinear_arith);
                lemma_presized_within(prepared_view.width, prepared_view.height, target_bytes);
                lemma_presized_within(prepared_view.height, prepared_view.width, target_bytes);
            }
        } else if args.format.is_lossy() {
            let history = choose|history: Seq<RasterView>|
                lossy_rejected_run(
                    history,
                    prepared_view,
                    args.format,
                    args.min_quality,
                    args.max_quality,
                    args.max_downscale_rounds,
                    target_bytes,
                );
            assert(path_rejected_run(history, prepared_view, *args, target_bytes));
        } else {
            let history = choose|history: Seq<RasterView>|
                png_rejected_run(
                    history,
                    prepared_view,
                    args.png_compression_level,
                    args.max_downscale_rounds,
                    target_bytes,
                );
            assert(path_rejected_run(history, prepared_view, *args, target_bytes));
        }
    }
    res
}

} // verus!
