//! Trend changes: the two adjacent windows whose slopes are compared at a
//! position, and the selection of the positions where the trend changed.

use vstd::prelude::*;
use crate::seasonal::has_two_cycles_spec;
use crate::selection::lemma_present_keyed;
use crate::selection::lemma_present_take_succ;
use crate::selection::present;

verus! {

/// The windows compared at one position: the older one, `old_start..new_start`,
/// and the newer one, `new_start..end`, both of the same length, the newer one
/// ending just before the position itself.
#[derive(Clone, Copy, Debug, PartialEq, Eq, Structural)]
pub struct TrendWindows {
    pub old_start: usize,
    pub new_start: usize,
    pub end: usize,
}

/// The windows of `window` points each that end just before `index`; there
/// are none unless two windows fit before it.
pub open spec fn trend_windows_spec(index: int, window: int) -> Option<TrendWindows> {
    if index >= 2 * window {
        Some(
            TrendWindows {
                old_start: (index - 2 * window) as usize,
                new_start: (index - window) as usize,
                end: index as usize,
            },
        )
    } else {
        None
    }
}

pub fn trend_windows(index: usize, window: usize) -> (windows: Option<TrendWindows>)
    ensures
        windows == trend_windows_spec(index as int, window as int),
{
    if window <= index / 2 {
        Some(
            TrendWindows {
                old_start: index - window - window,
                new_start: index - window,
                end: index,
            },
        )
    } else {
        None
    }
}

/// The trend can be judged at `index`: the series holds two windows, and two
/// windows lie before the position.
pub open spec fn is_trend_candidate(index: int, len: int, window: int) -> bool {
    &&& has_two_cycles_spec(len, window)
    &&& 2 * window <= index < len
}

/// Position by position: the position itself where it is a candidate at which
/// the slope changed significantly.
pub open spec fn trend_marks(window: int, significant: Seq<bool>) -> Seq<Option<usize>> {
    Seq::new(
        significant.len(),
        |i: int|
            if is_trend_candidate(i, significant.len() as int, window) && significant[i] {
                Some(i as usize)
            } else {
                None
            },
    )
}

/// The positions of the trend changes, in series order.
pub open spec fn trend_changes_of(window: int, significant: Seq<bool>) -> Seq<usize> {
    present(trend_marks(window, significant))
}

/// Selects the trend changes of a series.
///
/// `significant` says of each position whether the slope of the newer window
/// differs from that of the older one by more than the allowed share. A
/// position is reported where it is a candidate and the change is
/// significant; positions without two windows before them are never reported.
pub fn detect_trend_changes(window: usize, significant: &Vec<bool>) -> (changes: Vec<usize>)
    ensures
        changes@ == trend_changes_of(window as int, significant@),
{
    let ghost marks = trend_marks(window as int, significant@);
    let len = significant.len();
    let mut changes: Vec<usize> = Vec::new();
    let mut i: usize = 0;
    while i < len
        invariant
            i <= len,
            len == significant.len(),
            marks == trend_marks(window as int, significant@),
            changes@ == present(marks.take(i as int)),
        decreases len - i,
    {
        proof {
            lemma_present_take_succ(marks, i as int);
        }
        if window <= i / 2 && significant[i] {
            changes.push(i);
        }
        i = i + 1;
    }
    assert(marks.take(marks.len() as int) =~= marks);
    changes
}

/// The trend report is exact: it holds the candidates with a significant
/// change, each once, in series order, and nothing else.
pub proof fn lemma_trend_changes_exact(window: int, significant: Seq<bool>)
    requires
        0 <= window,
        significant.len() <= usize::MAX,
    ensures
        forall|k: int|
            0 <= k < trend_changes_of(window, significant).len() ==> {
                &&& is_trend_candidate(
                    (#[trigger] trend_changes_of(window, significant)[k]) as int,
                    significant.len() as int,
                    window,
                )
                &&& significant[trend_changes_of(window, significant)[k] as int]
            },
        forall|j: int, k: int|
            0 <= j < k < trend_changes_of(window, significant).len() ==> (
            #[trigger] trend_changes_of(window, significant)[j]) < (#[trigger] trend_changes_of(
                window,
                significant,
            )[k]),
        forall|i: int|
            is_trend_candidate(i, significant.len() as int, window) && (
            #[trigger] significant[i]) ==> trend_changes_of(window, significant).contains(
                i as usize,
            ),
{
    let marks = trend_marks(window, significant);
    let report = trend_changes_of(window, significant);
    lemma_present_keyed(marks, |p: usize| p as int);
    assert forall|k: int| 0 <= k < report.len() implies {
        &&& is_trend_candidate((#[trigger] report[k]) as int, significant.len() as int, window)
        &&& significant[report[k] as int]
    } by {
        assert(marks[report[k] as int] == Some(report[k]));
    }
    assert forall|i: int|
        is_trend_candidate(i, significant.len() as int, window) && (
        #[trigger] significant[i]) implies report.contains(i as usize) by {
        assert(marks[i].is_some());
        let k = choose|k: int| 0 <= k < report.len() && #[trigger] report[k] == marks[i].unwrap();
        assert(report[k] == i as usize);
    }
}

} // verus!
