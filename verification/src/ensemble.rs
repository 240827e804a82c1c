//! The ensemble detector: three independent signals per point, combined into
//! one verdict.
//!
//! A caller measures each point against the series (its z-score, the Tukey
//! fence, its trailing moving average) and hands over what each comparison
//! said. This module decides which detection methods count for a point,
//! whether the point is reported, and how severe it is.

use vstd::prelude::*;
use rayon::iter::IndexedParallelIterator;
use rayon::iter::IntoParallelRefIterator;
use rayon::iter::ParallelIterator;
use crate::input::check_series;
use crate::input::series_fault;
use crate::input::ENSEMBLE_POINTS;
use crate::labels::Severity;
use crate::selection::lemma_present_keyed;
use crate::selection::lemma_present_take_succ;
use crate::selection::present;
use crate::windows::moving_average_slot;
use crate::windows::moving_average_slot_spec;

verus! {

/// What the three comparisons said of one point.
#[derive(Clone, Copy, Debug, PartialEq, Eq, Structural)]
pub struct PointSignals {
    /// The z-score lies beyond the threshold.
    pub z_score: bool,
    /// The z-score lies beyond one and a half times the threshold.
    pub strong_z_score: bool,
    /// The value lies outside the Tukey fence.
    pub iqr: bool,
    /// The value deviates from its trailing moving average by more than the
    /// allowed share.
    pub moving_avg: bool,
}

/// The detection methods that flagged a point.
#[derive(Clone, Copy, Debug, PartialEq, Eq, Structural)]
pub struct MethodSet {
    pub z_score: bool,
    pub iqr: bool,
    pub moving_avg: bool,
}

/// One reported point.
#[derive(Clone, Copy, Debug, PartialEq, Eq, Structural)]
pub struct AnomalyResult {
    /// Position of the point in the series.
    pub index: usize,
    pub severity: Severity,
    /// The methods that flagged it; never empty.
    pub methods: MethodSet,
}

/// Length of the trailing window of the moving-average method: a third of the
/// series, but at least 3 and at most 7.
pub open spec fn ensemble_window_spec(len: int) -> int {
    let third = len / 3;
    if third < 3 {
        3
    } else if third > 7 {
        7
    } else {
        third
    }
}

impl MethodSet {
    /// How many methods are in the set.
    pub open spec fn count_spec(self) -> int {
        (if self.z_score { 1int } else { 0 })
            + (if self.iqr { 1int } else { 0 })
            + (if self.moving_avg { 1int } else { 0 })
    }

    pub open spec fn is_empty_spec(self) -> bool {
        !self.z_score && !self.iqr && !self.moving_avg
    }

    /// The names of the methods in the set, in the order z-score, fence,
    /// moving average.
    pub open spec fn names_spec(self) -> Seq<Seq<char>> {
        (if self.z_score { seq!["z-score"@] } else { Seq::empty() })
            + (if self.iqr { seq!["iqr"@] } else { Seq::empty() })
            + (if self.moving_avg { seq!["moving-avg"@] } else { Seq::empty() })
    }

    pub fn count(&self) -> (n: usize)
        ensures
            n == self.count_spec(),
            n <= 3,
    {
        let mut n: usize = 0;
        if self.z_score {
            n = n + 1;
        }
        if self.iqr {
            n = n + 1;
        }
        if self.moving_avg {
            n = n + 1;
        }
        n
    }

    pub fn is_empty(&self) -> (empty: bool)
        ensures
            empty == self.is_empty_spec(),
            empty <==> self.count_spec() == 0,
    {
        !self.z_score && !self.iqr && !self.moving_avg
    }

    pub fn names(&self) -> (names: Vec<&'static str>)
        ensures
            names@.len() == self.count_spec(),
            names@.map_values(|s: &'static str| s@) == self.names_spec(),
    {
        let mut names: Vec<&'static str> = Vec::new();
        if self.z_score {
            names.push("z-score");
        }
        if self.iqr {
            names.push("iqr");
        }
        if self.moving_avg {
            names.push("moving-avg");
        }
        assert(names@.map_values(|s: &'static str| s@) =~= self.names_spec());
        names
    }
}

/// The methods that count for the point at `index` of a series of `len`
/// points: the moving-average method only once its window is filled, the
/// other two always.
pub open spec fn methods_at(index: int, len: int, signals: PointSignals) -> MethodSet {
    MethodSet {
        z_score: signals.z_score,
        iqr: signals.iqr,
        moving_avg: signals.moving_avg && moving_average_slot_spec(
            index,
            len,
            ensemble_window_spec(len),
        ).is_some(),
    }
}

/// High where two methods agree, else medium on a strong z-score, else low.
pub open spec fn ensemble_severity(methods: MethodSet, strong_z_score: bool) -> Severity {
    if methods.count_spec() >= 2 {
        Severity::High
    } else if strong_z_score {
        Severity::Medium
    } else {
        Severity::Low
    }
}

/// The verdict on the point at `index` of a series of `len` points: reported
/// if and only if at least one method flagged it.
pub open spec fn verdict_at(index: int, len: int, signals: PointSignals) -> Option<
    AnomalyResult,
> {
    let methods = methods_at(index, len, signals);
    if methods.is_empty_spec() {
        None
    } else {
        Some(
            AnomalyResult {
                index: index as usize,
                severity: ensemble_severity(methods, signals.strong_z_score),
                methods,
            },
        )
    }
}

/// The verdict on every point of a series, position by position.
pub open spec fn verdicts_of(signals: Seq<PointSignals>) -> Seq<Option<AnomalyResult>> {
    Seq::new(
        signals.len(),
        |i: int| verdict_at(i, signals.len() as int, signals[i]),
    )
}

/// The report on a series: nothing for fewer points than the ensemble needs;
/// else the verdicts of the flagged points, in series order.
pub open spec fn anomalies_of(signals: Seq<PointSignals>) -> Seq<AnomalyResult> {
    if series_fault(signals.len() as int, ENSEMBLE_POINTS as int).is_some() {
        Seq::empty()
    } else {
        present(verdicts_of(signals))
    }
}

pub fn ensemble_window(len: usize) -> (window: usize)
    ensures
        window == ensemble_window_spec(len as int),
        3 <= window <= 7,
{
    let third = len / 3;
    if third < 3 {
        3
    } else if third > 7 {
        7
    } else {
        third
    }
}

/// Combines the signals of the point at `index` of a series of `len` points
/// into its verdict.
pub fn classify_point(index: usize, len: usize, signals: &PointSignals) -> (verdict: Option<
    AnomalyResult,
>)
    ensures
        verdict == verdict_at(index as int, len as int, *signals),
{
    let window = ensemble_window(len);
    let methods = MethodSet {
        z_score: signals.z_score,
        iqr: signals.iqr,
        moving_avg: signals.moving_avg && moving_average_slot(index, len, window).is_some(),
    };
    if methods.is_empty() {
        None
    } else {
        let severity = if methods.count() >= 2 {
            Severity::High
        } else if signals.strong_z_score {
            Severity::Medium
        } else {
            Severity::Low
        };
        Some(AnomalyResult { index, severity, methods })
    }
}

/// Runs `classify_point` on every point with rayon's `par_iter`, `enumerate`,
/// `map` and `collect`. Trusted: that collecting an indexed parallel iterator
/// into a `Vec` keeps one item per input and puts the item made from position
/// `i` at position `i`, as a sequential `iter().enumerate().map(..).collect()`
/// does.
#[verifier::external_body]
fn classify_all(signals: &Vec<PointSignals>, len: usize) -> (verdicts: Vec<Option<AnomalyResult>>)
    ensures
        verdicts@.len() == signals@.len(),
        forall|i: int|
            0 <= i < signals@.len() ==> #[trigger] verdicts@[i] == verdict_at(
                i,
                len as int,
                signals@[i],
            ),
{
    signals.par_iter().enumerate().map(|(index, point)| classify_point(index, len, point)).collect()
}

/// Keeps the reported points of a sequence of verdicts, in order.
pub fn collect_reported(verdicts: &Vec<Option<AnomalyResult>>) -> (reported: Vec<AnomalyResult>)
    ensures
        reported@ == present(verdicts@),
{
    let mut reported: Vec<AnomalyResult> = Vec::new();
    let mut i: usize = 0;
    while i < verdicts.len()
        invariant
            i <= verdicts.len(),
            reported@ == present(verdicts@.take(i as int)),
        decreases verdicts.len() - i,
    {
        proof {
            lemma_present_take_succ(verdicts@, i as int);
        }
        match verdicts[i] {
            Some(anomaly) => {
                reported.push(anomaly);
            },
            None => {},
        }
        i = i + 1;
    }
    assert(verdicts@.take(verdicts@.len() as int) =~= verdicts@);
    reported
}

/// The report is exact: each reported point carries the verdict on its own
/// position, the report is in series order without repeats, and every point
/// that at least one method flagged is reported.
pub proof fn lemma_anomalies_exact(signals: Seq<PointSignals>)
    requires
        ENSEMBLE_POINTS <= signals.len() <= usize::MAX,
    ensures
        forall|k: int|
            0 <= k < anomalies_of(signals).len() ==> {
                &&& (#[trigger] anomalies_of(signals)[k]).index < signals.len()
                &&& !anomalies_of(signals)[k].methods.is_empty_spec()
                &&& verdict_at(
                    anomalies_of(signals)[k].index as int,
                    signals.len() as int,
                    signals[anomalies_of(signals)[k].index as int],
                ) == Some(anomalies_of(signals)[k])
            },
        forall|j: int, k: int|
            0 <= j < k < anomalies_of(signals).len() ==> (#[trigger] anomalies_of(
                signals,
            )[j]).index < (#[trigger] anomalies_of(signals)[k]).index,
        forall|i: int|
            0 <= i < signals.len() && !(#[trigger] methods_at(
                i,
                signals.len() as int,
                signals[i],
            )).is_empty_spec() ==> exists|k: int|
                0 <= k < anomalies_of(signals).len() && (#[trigger] anomalies_of(
                    signals,
                )[k]).index == i,
{
    let marks = verdicts_of(signals);
    let key = |a: AnomalyResult| a.index as int;
    lemma_present_keyed(marks, key);
    let report = anomalies_of(signals);
    assert forall|i: int|
        0 <= i < signals.len() && !(#[trigger] methods_at(
            i,
            signals.len() as int,
            signals[i],
        )).is_empty_spec() implies exists|k: int|
        0 <= k < report.len() && (#[trigger] report[k]).index == i by {
        assert(marks[i].is_some());
        let k = choose|k: int| 0 <= k < report.len() && #[trigger] report[k] == marks[i].unwrap();
        assert(report[k].index == i);
    }
}

/// Ensemble detection over the signals of a whole series.
///
/// A series of fewer points than the ensemble needs yields nothing. Otherwise
/// every point that at least one method flagged is reported, in series order,
/// with the methods that flagged it and its severity.
pub fn detect_anomalies(signals: &Vec<PointSignals>) -> (anomalies: Vec<AnomalyResult>)
    ensures
        anomalies@ == anomalies_of(signals@),
{
    if check_series(signals.len(), ENSEMBLE_POINTS).is_some() {
        return Vec::new();
    }
    let verdicts = classify_all(signals, signals.len());
    assert(verdicts@ =~= verdicts_of(signals@));
    collect_reported(&verdicts)
}

} // verus!
