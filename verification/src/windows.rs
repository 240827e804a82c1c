//! Windows and ranks: which positions of a series an aggregate reads.

use vstd::prelude::*;

verus! {

/// How many recent observations the real-time check reads.
pub const REALTIME_WINDOW: usize = 14;

/// How many recent observations the short-horizon trend reads.
pub const TREND_WINDOW: usize = 7;

/// Number of trailing moving averages of `window` points over a series of
/// `len` points: none for an empty window or one longer than the series.
pub open spec fn moving_average_len_spec(len: int, window: int) -> int {
    if window <= 0 || window > len {
        0
    } else {
        len - window + 1
    }
}

pub fn moving_average_len(len: usize, window: usize) -> (count: usize)
    ensures
        count == moving_average_len_spec(len as int, window as int),
{
    if window == 0 || window > len {
        0
    } else {
        len - window + 1
    }
}

/// The output position of the moving average whose window ends at `index`:
/// output 0 reads the positions `0..window`, so the window that ends at
/// `index` belongs to output `index - (window - 1)`. There is none before the
/// first window is filled, nor past the series.
pub open spec fn moving_average_slot_spec(index: int, len: int, window: int) -> Option<int> {
    if 1 <= window <= len && window - 1 <= index < len {
        Some(index - (window - 1))
    } else {
        None
    }
}

pub fn moving_average_slot(index: usize, len: usize, window: usize) -> (slot: Option<usize>)
    ensures
        slot.is_some() == moving_average_slot_spec(
            index as int,
            len as int,
            window as int,
        ).is_some(),
        slot matches Some(k) ==> {
            &&& k == moving_average_slot_spec(index as int, len as int, window as int).unwrap()
            &&& k < moving_average_len_spec(len as int, window as int)
        },
{
    if 1 <= window && window <= len && window - 1 <= index && index < len {
        Some(index - (window - 1))
    } else {
        None
    }
}

/// First position of the `count` most recent observations of a series of
/// `len` points; they end with the series. A shorter series is read whole.
pub fn recent_start(len: usize, count: usize) -> (start: usize)
    ensures
        start == if len >= count { len - count } else { 0 },
        start <= len,
        len - start <= count,
{
    if len >= count {
        len - count
    } else {
        0
    }
}

/// The ranks of a sorted series of `len` points that its median reads: the
/// middle one twice for an odd length, the two middle ones for an even
/// length, none for an empty series.
pub open spec fn median_ranks_spec(len: int) -> Option<(int, int)> {
    if len <= 0 {
        None
    } else if len % 2 == 0 {
        Some((len / 2 - 1, len / 2))
    } else {
        Some((len / 2, len / 2))
    }
}

pub fn median_ranks(len: usize) -> (ranks: Option<(usize, usize)>)
    ensures
        ranks.is_some() == median_ranks_spec(len as int).is_some(),
        ranks matches Some((lower, upper)) ==> {
            &&& median_ranks_spec(len as int) == Some((lower as int, upper as int))
            &&& lower <= upper < len
        },
{
    if len == 0 {
        None
    } else {
        let mid = len / 2;
        if len % 2 == 0 {
            Some((mid - 1, mid))
        } else {
            Some((mid, mid))
        }
    }
}

/// The ranks of a sorted series of `len` points that a quantile reads, given
/// the whole ranks `lower` and `upper` just below and just above its
/// fractional rank: one rank where the two coincide or `upper` lies past the
/// series, else both, to interpolate between them.
pub open spec fn quantile_ranks_spec(len: int, lower: int, upper: int) -> Option<(int, int)> {
    if len <= 0 {
        None
    } else if lower == upper || upper >= len {
        let rank = if lower < len - 1 { lower } else { len - 1 };
        Some((rank, rank))
    } else {
        Some((lower, upper))
    }
}

pub fn quantile_ranks(len: usize, lower: usize, upper: usize) -> (ranks: Option<(usize, usize)>)
    requires
        lower <= upper,
    ensures
        ranks.is_some() == quantile_ranks_spec(len as int, lower as int, upper as int).is_some(),
        ranks matches Some((low, high)) ==> {
            &&& quantile_ranks_spec(len as int, lower as int, upper as int) == Some(
                (low as int, high as int),
            )
            &&& low <= high < len
        },
{
    if len == 0 {
        None
    } else if lower == upper || upper >= len {
        let rank = if lower < len - 1 { lower } else { len - 1 };
        Some((rank, rank))
    } else {
        Some((lower, upper))
    }
}

/// The quantile at one half reads the ranks that the median reads: its
/// fractional rank is `(len - 1) / 2`, which lies between the whole ranks
/// `(len - 1) / 2` and `len / 2`.
pub proof fn lemma_half_quantile_reads_median_ranks(len: int)
    requires
        len > 0,
    ensures
        quantile_ranks_spec(len, (len - 1) / 2, len / 2) == median_ranks_spec(len),
{
}

/// Quantile ranks never decrease as the fractional rank grows.
pub proof fn lemma_quantile_ranks_monotone(len: int, lower1: int, upper1: int, lower2: int, upper2: int)
    requires
        len > 0,
        0 <= lower1 <= upper1 <= lower1 + 1,
        0 <= lower2 <= upper2 <= lower2 + 1,
        lower1 <= lower2,
        upper1 <= upper2,
    ensures
        quantile_ranks_spec(len, lower1, upper1).unwrap().0 <= quantile_ranks_spec(
            len,
            lower2,
            upper2,
        ).unwrap().0,
        quantile_ranks_spec(len, lower1, upper1).unwrap().1 <= quantile_ranks_spec(
            len,
            lower2,
            upper2,
        ).unwrap().1,
{
}

} // verus!
