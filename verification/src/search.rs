//! The quality search: a bisection over the integer quality scale for the
//! highest quality whose encoding fits a byte budget.

use vstd::prelude::*;
use crate::encoder::{encode, encode_returns, spec_encode};
use crate::error::CompressError;
use crate::format::OutFormat;
use crate::log2::{
    ceil_log2, floor_log2, is_power_of_two, lemma_ceil_log2_of_successor,
    lemma_floor_log2_of_successor, lemma_log2_monotonic,
};
use crate::raster::{Raster, RasterView};

verus! {

/// Lowest quality a search may be asked to consider.
pub const MIN_QUALITY: u8 = 1;

/// Highest quality a search may be asked to consider.
pub const MAX_QUALITY: u8 = 100;

/// The quality bounds a search accepts.
pub open spec fn valid_quality_range(qmin: u8, qmax: u8) -> bool {
    MIN_QUALITY <= qmin <= qmax <= MAX_QUALITY
}

/// Whether the encoding of `img` at `quality` exists and is within
/// `target_bytes`.
pub open spec fn fits(img: RasterView, fmt: OutFormat, target_bytes: u64, quality: u8) -> bool {
    spec_encode(img, fmt, quality) matches Some(data) && data.len() <= target_bytes
}

/// How a bisection ends.
pub enum Bisection {
    /// The codec rejected one of the qualities tried.
    Rejected,
    /// No quality tried fit the budget.
    NoneFit,
    /// Some quality tried fit the budget; this is the last one that did.
    Found(u8),
}

/// The bisection over the qualities `lo..=hi`, with `best` the last quality
/// found to fit so far.
///
/// The midpoint is encoded. If it fits it becomes the best known and the
/// upper half is searched, otherwise the lower half is. The search ends when
/// the interval is empty.
pub open spec fn bisect(
    img: RasterView,
    fmt: OutFormat,
    target_bytes: u64,
    lo: int,
    hi: int,
    best: Option<u8>,
) -> Bisection
    decreases hi - lo + 1,
{
    if lo > hi {
        match best {
            Some(q) => Bisection::Found(q),
            None => Bisection::NoneFit,
        }
    } else {
        let mid = (lo + hi) / 2;
        match spec_encode(img, fmt, mid as u8) {
            None => Bisection::Rejected,
            Some(data) => if data.len() <= target_bytes {
                bisect(img, fmt, target_bytes, mid + 1, hi, Some(mid as u8))
            } else {
                bisect(img, fmt, target_bytes, lo, mid - 1, best)
            },
        }
    }
}

/// The number of encodings the bisection over `lo..=hi` asks for.
pub open spec fn probes(
    img: RasterView,
    fmt: OutFormat,
    target_bytes: u64,
    lo: int,
    hi: int,
) -> nat
    decreases hi - lo + 1,
{
    if lo > hi {
        0
    } else {
        let mid = (lo + hi) / 2;
        match spec_encode(img, fmt, mid as u8) {
            None => 1,
            Some(data) => if data.len() <= target_bytes {
                1 + probes(img, fmt, target_bytes, mid + 1, hi)
            } else {
                1 + probes(img, fmt, target_bytes, lo, mid - 1)
            },
        }
    }
}

/// What a quality search returns: the encoded bytes with the quality that
/// produced them, or the reason there are none.
///
/// The bounds must satisfy `1 <= qmin <= qmax <= 100`. The result is the
/// encoding at the last quality that the bisection found to fit; where none
/// did, it is the encoding at `qmin`, which then exceeds the budget.
pub open spec fn spec_fit_quality(
    img: RasterView,
    fmt: OutFormat,
    target_bytes: u64,
    qmin: u8,
    qmax: u8,
) -> Result<(Seq<u8>, u8), CompressError> {
    if !valid_quality_range(qmin, qmax) {
        Err(CompressError::InvalidRange)
    } else {
        match bisect(img, fmt, target_bytes, qmin as int, qmax as int, None) {
            Bisection::Rejected => Err(CompressError::Encode(fmt)),
            Bisection::Found(q) => match spec_encode(img, fmt, q) {
                Some(data) => Ok((data, q)),
                None => Err(CompressError::Encode(fmt)),
            },
            Bisection::NoneFit => match spec_encode(img, fmt, qmin) {
                Some(data) => Ok((data, qmin)),
                None => Err(CompressError::Encode(fmt)),
            },
        }
    }
}

/// The number of encodings a successful quality search asks for: those of
/// the bisection, and one more at `qmin` where nothing fit.
pub open spec fn spec_fit_attempts(
    img: RasterView,
    fmt: OutFormat,
    target_bytes: u64,
    qmin: u8,
    qmax: u8,
) -> nat {
    probes(img, fmt, target_bytes, qmin as int, qmax as int) + if bisect(
        img,
        fmt,
        target_bytes,
        qmin as int,
        qmax as int,
        None,
    ) is NoneFit {
        1nat
    } else {
        0nat
    }
}

/// The result of a quality search, with the number of encodings it took.
pub struct Fit {
    pub data: Vec<u8>,
    pub quality: u8,
    pub attempts: u32,
}

/// The quality recorded in the best-so-far slot of a running search.
pub open spec fn best_quality(best: Option<(Vec<u8>, u8)>) -> Option<u8> {
    match best {
        Some((_, q)) => Some(q),
        None => None,
    }
}

/// Searches `qmin..=qmax` for the highest quality whose encoding is within
/// `target_bytes`, counting the encodings made.
///
/// Fails with `InvalidRange`, before anything is encoded, unless
/// `1 <= qmin <= qmax <= 100`, and with `Encode` when the codec rejects one
/// of the qualities tried. That no quality fits is not a failure: the
/// encoding at `qmin` is returned, and its size tells.
pub fn search_quality(
    img: &Raster,
    fmt: OutFormat,
    target_bytes: u64,
    qmin: u8,
    qmax: u8,
) -> (res: Result<Fit, CompressError>)
    ensures
        res matches Ok(fit) ==> spec_fit_quality(img@, fmt, target_bytes, qmin, qmax) == Ok::<
            (Seq<u8>, u8),
            CompressError,
        >((fit.data@, fit.quality)) && fit.attempts == spec_fit_attempts(
            img@,
            fmt,
            target_bytes,
            qmin,
            qmax,
        ) && fit.attempts <= qmax - qmin + 2,
        res matches Err(e) ==> spec_fit_quality(img@, fmt, target_bytes, qmin, qmax) == Err::<
            (Seq<u8>, u8),
            CompressError,
        >(e),
{
    if qmin > qmax || qmin == 0 || qmax > MAX_QUALITY {
        return Err(CompressError::InvalidRange);
    }
    let mut lo: u8 = qmin;
    let mut hi: u8 = qmax;
    let mut best: Option<(Vec<u8>, u8)> = None;
    let mut attempts: u32 = 0;
    while lo <= hi
        invariant
            1 <= qmin <= lo <= hi + 1 <= qmax + 1 <= 101,
            bisect(img@, fmt, target_bytes, qmin as int, qmax as int, None) == bisect(
                img@,
                fmt,
                target_bytes,
                lo as int,
                hi as int,
                best_quality(best),
            ),
            best matches Some((data, q)) ==> spec_encode(img@, fmt, q) == Some(data@),
            probes(img@, fmt, target_bytes, qmin as int, qmax as int) == attempts + probes(
                img@,
                fmt,
                target_bytes,
                lo as int,
                hi as int,
            ),
            attempts <= (lo - qmin) + (qmax - hi),
        decreases hi + 1 - lo,
    {
        let mid: u8 = (lo + hi) / 2;
        attempts += 1;
        let data = match encode(img, fmt, mid) {
            Ok(data) => data,
            Err(e) => {
                return Err(e);
            },
        };
        if data.len() as u64 <= target_bytes {
            best = Some((data, mid));
            lo = mid + 1;
        } else {
            hi = mid - 1;
        }
    }
    match best {
        Some((data, quality)) => Ok(Fit { data, quality, attempts }),
        None => {
            match encode(img, fmt, qmin) {
                Ok(data) => Ok(Fit { data, quality: qmin, attempts: attempts + 1 }),
                Err(e) => Err(e),
            }
        },
    }
}

/// Finds the highest quality in `qmin..=qmax` whose encoding of `img` is
/// within `target_bytes`, and returns that encoding with the quality.
///
/// Fails with `InvalidRange`, before anything is encoded, exactly when
/// `qmin > qmax`, `qmin == 0` or `qmax > 100`. Where no quality fits, the
/// encoding at `qmin` is returned; the caller sees from its size that the
/// budget was missed.
pub fn fit_quality(
    img: &Raster,
    fmt: OutFormat,
    target_bytes: u64,
    qmin: u8,
    qmax: u8,
) -> (res: Result<(Vec<u8>, u8), CompressError>)
    ensures
        res matches Ok((data, quality)) ==> spec_fit_quality(img@, fmt, target_bytes, qmin, qmax)
            == Ok::<(Seq<u8>, u8), CompressError>((data@, quality)),
        res matches Err(e) ==> spec_fit_quality(img@, fmt, target_bytes, qmin, qmax) == Err::<
            (Seq<u8>, u8),
            CompressError,
        >(e),
        res == Err::<(Vec<u8>, u8), CompressError>(CompressError::InvalidRange) <==> (qmin > qmax
            || qmin == 0 || qmax > 100),
        res matches Ok((data, quality)) ==> qmin <= quality <= qmax && spec_encode(
            img@,
            fmt,
            quality,
        ) == Some(data@),
{
    proof {
        lemma_fit_is_an_encoding(img@, fmt, target_bytes, qmin, qmax);
    }
    match search_quality(img, fmt, target_bytes, qmin, qmax) {
        Ok(fit) => Ok((fit.data, fit.quality)),
        Err(e) => Err(e),
    }
}

/// What holds of a bisection from any state a search can be in: a quality
/// found fits and lies in the range, and the quality right above it, if there
/// is one in the range, does not fit; where nothing is found, the lowest
/// quality does not fit.
pub proof fn lemma_bisect_boundary(
    img: RasterView,
    fmt: OutFormat,
    target_bytes: u64,
    qmin: u8,
    qmax: u8,
    lo: int,
    hi: int,
    best: Option<u8>,
)
    requires
        valid_quality_range(qmin, qmax),
        qmin <= lo <= hi + 1 <= qmax + 1,
        match best {
            Some(b) => qmin <= b == lo - 1 && fits(img, fmt, target_bytes, b),
            None => lo == qmin,
        },
        hi == qmax || !fits(img, fmt, target_bytes, (hi + 1) as u8),
    ensures
        match bisect(img, fmt, target_bytes, lo, hi, best) {
            Bisection::Found(q) => {
                &&& qmin <= q <= qmax
                &&& fits(img, fmt, target_bytes, q)
                &&& q == qmax || !fits(img, fmt, target_bytes, (q + 1) as u8)
            },
            Bisection::NoneFit => best is None && !fits(img, fmt, target_bytes, qmin),
            Bisection::Rejected => true,
        },
    decreases hi - lo + 1,
{
    if lo <= hi {
        let mid = (lo + hi) / 2;
        match spec_encode(img, fmt, mid as u8) {
            None => {},
            Some(data) => {
                if data.len() <= target_bytes {
                    lemma_bisect_boundary(
                        img,
                        fmt,
                        target_bytes,
                        qmin,
                        qmax,
                        mid + 1,
                        hi,
                        Some(mid as u8),
                    );
                } else {
                    lemma_bisect_boundary(img, fmt, target_bytes, qmin, qmax, lo, mid - 1, best);
                }
            },
        }
    }
}

/// A search that succeeds returns a quality within the bounds it was given,
/// together with exactly the encoding at that quality.
pub proof fn lemma_fit_is_an_encoding(
    img: RasterView,
    fmt: OutFormat,
    target_bytes: u64,
    qmin: u8,
    qmax: u8,
)
    ensures
        spec_fit_quality(img, fmt, target_bytes, qmin, qmax) matches Ok((data, quality)) ==> {
            &&& qmin <= quality <= qmax
            &&& spec_encode(img, fmt, quality) == Some(data)
        },
{
    if valid_quality_range(qmin, qmax) {
        lemma_bisect_boundary(img, fmt, target_bytes, qmin, qmax, qmin as int, qmax as int, None);
    }
}

/// Encoding the image again at the quality a search returned gives the bytes
/// the search returned.
pub proof fn lemma_fit_reencodes(
    img: RasterView,
    fmt: OutFormat,
    target_bytes: u64,
    qmin: u8,
    qmax: u8,
    again: Result<Vec<u8>, CompressError>,
)
    requires
        spec_fit_quality(img, fmt, target_bytes, qmin, qmax) matches Ok((_, quality))
            && encode_returns(img, fmt, quality, again),
    ensures
        spec_fit_quality(img, fmt, target_bytes, qmin, qmax) matches Ok((data, _))
            && again matches Ok(bytes) && bytes@ == data,
{
    lemma_fit_is_an_encoding(img, fmt, target_bytes, qmin, qmax);
}

/// The quality a successful search returns sits at a boundary: either its
/// encoding fits and the next higher quality in the range does not, or it is
/// `qmin` and not even that fits.
pub proof fn lemma_fit_is_a_boundary(
    img: RasterView,
    fmt: OutFormat,
    target_bytes: u64,
    qmin: u8,
    qmax: u8,
)
    ensures
        spec_fit_quality(img, fmt, target_bytes, qmin, qmax) matches Ok((data, quality)) ==> {
            ||| {
                &&& data.len() <= target_bytes
                &&& quality == qmax || !fits(img, fmt, target_bytes, (quality + 1) as u8)
            }
            ||| {
                &&& quality == qmin
                &&& data.len() > target_bytes
            }
        },
{
    if valid_quality_range(qmin, qmax) {
        lemma_bisect_boundary(img, fmt, target_bytes, qmin, qmax, qmin as int, qmax as int, None);
    }
}

/// Whether sizes do not shrink as quality rises, as far as the budget can
/// tell: whenever a quality in the range fits, every lower one does.
pub open spec fn fits_downward(
    img: RasterView,
    fmt: OutFormat,
    target_bytes: u64,
    qmin: u8,
    qmax: u8,
) -> bool {
    forall|q: u8, below: u8|
        qmin <= below <= q <= qmax && #[trigger] fits(img, fmt, target_bytes, q)
            ==> #[trigger] fits(img, fmt, target_bytes, below)
}

/// With a codec whose sizes grow with quality, a successful search returns
/// the highest quality in the range that fits, if any does.
pub proof fn lemma_fit_finds_highest(
    img: RasterView,
    fmt: OutFormat,
    target_bytes: u64,
    qmin: u8,
    qmax: u8,
    other: u8,
)
    requires
        fits_downward(img, fmt, target_bytes, qmin, qmax),
        qmin <= other <= qmax,
        fits(img, fmt, target_bytes, other),
    ensures
        spec_fit_quality(img, fmt, target_bytes, qmin, qmax) matches Ok((data, quality)) ==> {
            &&& other <= quality <= qmax
            &&& fits(img, fmt, target_bytes, quality)
            &&& spec_encode(img, fmt, quality) == Some(data)
        },
{
    if valid_quality_range(qmin, qmax) {
        lemma_bisect_boundary(img, fmt, target_bytes, qmin, qmax, qmin as int, qmax as int, None);
        match bisect(img, fmt, target_bytes, qmin as int, qmax as int, None) {
            Bisection::Found(q) => {
                if q < other {
                    assert(fits(img, fmt, target_bytes, (q + 1) as u8));
                }
            },
            Bisection::NoneFit => {
                assert(fits(img, fmt, target_bytes, qmin));
            },
            Bisection::Rejected => {},
        }
    }
}

/// Where no quality in the range fits, a successful search returns the
/// encoding at `qmin`.
pub proof fn lemma_fit_falls_back(
    img: RasterView,
    fmt: OutFormat,
    target_bytes: u64,
    qmin: u8,
    qmax: u8,
)
    requires
        forall|q: u8| qmin <= q <= qmax ==> !#[trigger] fits(img, fmt, target_bytes, q),
    ensures
        spec_fit_quality(img, fmt, target_bytes, qmin, qmax) matches Ok((data, quality)) ==> {
            &&& quality == qmin
            &&& spec_encode(img, fmt, qmin) == Some(data)
        },
{
    if valid_quality_range(qmin, qmax) {
        lemma_bisect_boundary(img, fmt, target_bytes, qmin, qmax, qmin as int, qmax as int, None);
    }
}

/// A bisection over `n` qualities asks for at most `ceil(log2(n + 1))`
/// encodings.
pub proof fn lemma_probes_bound(
    img: RasterView,
    fmt: OutFormat,
    target_bytes: u64,
    lo: int,
    hi: int,
)
    requires
        0 <= lo <= hi + 1,
    ensures
        probes(img, fmt, target_bytes, lo, hi) <= ceil_log2((hi - lo + 2) as nat),
    decreases hi - lo + 1,
{
    if lo <= hi {
        let mid = (lo + hi) / 2;
        lemma_probes_bound(img, fmt, target_bytes, mid + 1, hi);
        lemma_probes_bound(img, fmt, target_bytes, lo, mid - 1);
        let half = ((hi - lo + 3) / 2) as nat;
        assert(ceil_log2((hi - lo + 2) as nat) == 1 + ceil_log2(half));
        lemma_log2_monotonic((hi - mid + 1) as nat, half);
        lemma_log2_monotonic((mid - lo + 1) as nat, half);
    }
}

/// Once some quality has fit, the bisection ends with a quality found.
pub proof fn lemma_bisect_keeps_best(
    img: RasterView,
    fmt: OutFormat,
    target_bytes: u64,
    lo: int,
    hi: int,
    best: Option<u8>,
)
    requires
        best is Some,
    ensures
        !(bisect(img, fmt, target_bytes, lo, hi, best) is NoneFit),
    decreases hi - lo + 1,
{
    if lo <= hi {
        let mid = (lo + hi) / 2;
        lemma_bisect_keeps_best(img, fmt, target_bytes, mid + 1, hi, Some(mid as u8));
        lemma_bisect_keeps_best(img, fmt, target_bytes, lo, mid - 1, best);
    }
}

/// A bisection over `n` qualities in which nothing fits asks for exactly
/// `floor(log2(n + 1))` encodings: it only ever moves downward.
pub proof fn lemma_probes_when_none_fit(
    img: RasterView,
    fmt: OutFormat,
    target_bytes: u64,
    lo: int,
    hi: int,
)
    requires
        0 <= lo <= hi + 1,
        bisect(img, fmt, target_bytes, lo, hi, None) is NoneFit,
    ensures
        probes(img, fmt, target_bytes, lo, hi) == floor_log2((hi - lo + 2) as nat),
    decreases hi - lo + 1,
{
    if lo <= hi {
        let mid = (lo + hi) / 2;
        lemma_bisect_keeps_best(img, fmt, target_bytes, mid + 1, hi, Some(mid as u8));
        lemma_probes_when_none_fit(img, fmt, target_bytes, lo, mid - 1);
        assert((hi - lo + 2) / 2 == mid - lo + 1);
    }
}

/// The number of encodings one quality search takes.
///
/// It is at most `ceil(log2(qmax - qmin + 2))`, with one exception: where no
/// quality tried fits and `qmax - qmin + 2` is a power of two, the bisection
/// alone takes that many, and the encoding at `qmin` that follows is one
/// more.
pub proof fn lemma_fit_attempts_bound(
    img: RasterView,
    fmt: OutFormat,
    target_bytes: u64,
    qmin: u8,
    qmax: u8,
)
    requires
        valid_quality_range(qmin, qmax),
    ensures
        spec_fit_attempts(img, fmt, target_bytes, qmin, qmax) <= ceil_log2(
            (qmax - qmin + 2) as nat,
        ) + if bisect(img, fmt, target_bytes, qmin as int, qmax as int, None) is NoneFit
            && is_power_of_two((qmax - qmin + 2) as nat) {
            1nat
        } else {
            0nat
        },
        bisect(img, fmt, target_bytes, qmin as int, qmax as int, None) is NoneFit
            ==> spec_fit_attempts(img, fmt, target_bytes, qmin, qmax) == ceil_log2(
            (qmax - qmin + 2) as nat,
        ) + if is_power_of_two((qmax - qmin + 2) as nat) {
            1nat
        } else {
            0nat
        },
{
    let n = (qmax - qmin + 1) as nat;
    lemma_probes_bound(img, fmt, target_bytes, qmin as int, qmax as int);
    if bisect(img, fmt, target_bytes, qmin as int, qmax as int, None) is NoneFit {
        lemma_probes_when_none_fit(img, fmt, target_bytes, qmin as int, qmax as int);
        lemma_ceil_log2_of_successor(n);
        lemma_floor_log2_of_successor(n);
    }
}

/// A search whose result is within the budget found it by bisection: the
/// encoding at `qmin` made after a bisection in which nothing fit never is.
pub proof fn lemma_fit_within_budget_was_found(
    img: RasterView,
    fmt: OutFormat,
    target_bytes: u64,
    qmin: u8,
    qmax: u8,
)
    requires
        spec_fit_quality(img, fmt, target_bytes, qmin, qmax) matches Ok((data, _)) && data.len()
            <= target_bytes,
    ensures
        bisect(img, fmt, target_bytes, qmin as int, qmax as int, None) is Found,
{
    lemma_bisect_boundary(img, fmt, target_bytes, qmin, qmax, qmin as int, qmax as int, None);
}

} // verus!
