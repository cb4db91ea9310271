//! The latency histogram, kept by the `hdrhistogram` crate.
//!
//! Nothing in this file is proved. The histogram's buckets are laid out by bit arithmetic
//! that is the crate's own business, so what it reports is given a name here rather than a
//! formula, and each function below states how its outcome relates to those names. The
//! statements were read off the crate's source; the rest of the library is proved from them.

use hdrhistogram::Histogram;
use vstd::multiset::Multiset;
use vstd::prelude::*;

verus! {

/// An `hdrhistogram::Histogram<u64>` with a lowest discernible value of 1 and auto-resizing
/// off.
///
/// It is made by [`hist_new`] and touched only by the functions of this file, so its state is
/// always that of a histogram into which `hist_held` has been recorded, sample by sample,
/// since it was made or last reset. With a lowest discernible value of 1 a new histogram and
/// a reset one report alike, and what the histogram reports depends on nothing but what it
/// holds and its bounds; for a larger lowest value that is not so, and no such histogram is
/// made.
#[verifier::external_body]
pub struct LatencyHistogram {
    inner: Histogram<u64>,
}

/// The samples recorded since the histogram was made or last reset.
pub uninterp spec fn hist_held(h: LatencyHistogram) -> Multiset<u64>;

/// The bounds the histogram was made with: lowest discernible value, highest trackable value,
/// significant decimal digits.
pub uninterp spec fn hist_shape(h: LatencyHistogram) -> (u64, u64, u8);

/// What `Histogram::min` reports for a histogram of the given shape holding `held`.
pub uninterp spec fn lowest_reading(held: Multiset<u64>, shape: (u64, u64, u8)) -> u64;

/// What `Histogram::max` reports for a histogram of the given shape holding `held`.
pub uninterp spec fn highest_reading(held: Multiset<u64>, shape: (u64, u64, u8)) -> u64;

/// What `Histogram::mean` reports, cut down to a whole number, for a histogram of the given
/// shape holding `held`.
pub uninterp spec fn mean_reading(held: Multiset<u64>, shape: (u64, u64, u8)) -> u64;

/// What `Histogram::value_at_percentile` reports at `pct` percent for a histogram of the given
/// shape holding `held`.
pub uninterp spec fn percentile_reading(held: Multiset<u64>, shape: (u64, u64, u8), pct: u8) -> u64;

/// The most samples a histogram may hold for its quantile arithmetic to stay exact: above
/// 2^53 the sample count no longer fits the `f64` it is multiplied in.
pub const MAX_HELD: u64 = 0x20_0000_0000_0000;

/// `Histogram::new_with_bounds`, for a lowest value of 1 only. The only arguments it then
/// rejects are `high < 2` and `sigfig > 5`; the histogram it returns is empty and does not
/// resize.
#[verifier::external_body]
pub(crate) fn hist_new(low: u64, high: u64, sigfig: u8) -> (made: Option<LatencyHistogram>)
    requires
        low == 1,
    ensures
        high >= 2 && sigfig <= 5 ==> made is Some,
        made matches Some(h) ==> hist_held(h) == Multiset::<u64>::empty() && hist_shape(h) == (
            low,
            high,
            sigfig,
        ),
{
    match Histogram::new_with_bounds(low, high, sigfig) {
        Ok(inner) => Some(LatencyHistogram { inner }),
        Err(_) => None,
    }
}

/// `Histogram::record`. A value up to the highest trackable one is always taken; a value that
/// is refused leaves the histogram as it was, and neither way does the call panic. The bucket
/// counters saturate rather than overflow, so callers stay below `MAX_HELD` samples.
#[verifier::external_body]
pub(crate) fn hist_record(h: &mut LatencyHistogram, value: u64) -> (taken: bool)
    requires
        hist_held(*old(h)).len() < MAX_HELD,
    ensures
        hist_shape(*final(h)) == hist_shape(*old(h)),
        value <= hist_shape(*old(h)).1 ==> taken,
        taken ==> hist_held(*final(h)) == hist_held(*old(h)).insert(value),
        !taken ==> hist_held(*final(h)) == hist_held(*old(h)),
    no_unwind
{
    h.inner.record(value).is_ok()
}

/// `Histogram::reset`: drops every sample and the tracked extremes, keeps the bounds, and
/// cannot panic.
#[verifier::external_body]
pub(crate) fn hist_reset(h: &mut LatencyHistogram)
    ensures
        hist_shape(*final(h)) == hist_shape(*old(h)),
        hist_held(*final(h)) == Multiset::<u64>::empty(),
    no_unwind
{
    h.inner.reset()
}

/// `Histogram::min`: the lowest recorded value level.
#[verifier::external_body]
pub(crate) fn hist_min(h: &LatencyHistogram) -> (v: u64)
    ensures
        v == lowest_reading(hist_held(*h), hist_shape(*h)),
{
    h.inner.min()
}

/// `Histogram::max`: the highest recorded value level. It is the top of the bucket of the
/// largest sample, the lowest level is the bottom of the bucket of the smallest, and both are
/// 0 for an empty histogram: the highest is never below the lowest.
#[verifier::external_body]
pub(crate) fn hist_max(h: &LatencyHistogram) -> (v: u64)
    ensures
        v == highest_reading(hist_held(*h), hist_shape(*h)),
        lowest_reading(hist_held(*h), hist_shape(*h)) <= v,
{
    h.inner.max()
}

/// `Histogram::mean`, converted to `u64` (the fraction is dropped).
#[verifier::external_body]
pub(crate) fn hist_mean(h: &LatencyHistogram) -> (v: u64)
    ensures
        v == mean_reading(hist_held(*h), hist_shape(*h)),
{
    h.inner.mean() as u64
}

/// `Histogram::value_at_percentile`. The crate walks the buckets upward until the running
/// count reaches the share asked for and reports the top of that bucket, so the value never
/// exceeds the highest level and a smaller percentage never yields a larger value. Both rest
/// on the sample count being exact as an `f64`, hence the bound on it.
#[verifier::external_body]
pub(crate) fn hist_value_at_percentile(h: &LatencyHistogram, pct: u8) -> (v: u64)
    requires
        1 <= pct <= 100,
        hist_held(*h).len() <= MAX_HELD,
    ensures
        v == percentile_reading(hist_held(*h), hist_shape(*h), pct),
        v <= highest_reading(hist_held(*h), hist_shape(*h)),
        forall|q: u8| 1 <= q <= pct ==> percentile_reading(hist_held(*h), hist_shape(*h), q) <= v,
{
    h.inner.value_at_percentile(pct.into())
}

} // verus!
