//! Surge periods: contiguous runs of high-volume points, merged by a scan
//! with two states.

use vstd::prelude::*;
use crate::input::check_paired;
use crate::input::paired_fault;
use crate::input::ANY_POINTS;
use crate::labels::Severity;

verus! {

/// What the scan reads of one forecast point.
#[derive(Clone, Copy, Debug, PartialEq, Eq, Structural)]
pub struct SurgePoint {
    /// The point's volume, relative to the mean volume, lies above the
    /// threshold.
    pub high: bool,
    /// Orders the point's value among the others: one value exceeds another
    /// exactly when its level is greater.
    pub level: i64,
    /// The severity that the point's relative volume alone would give.
    pub severity: Severity,
}

/// One surge: a maximal run of adjacent high points.
#[derive(Debug)]
pub struct SurgePeriod {
    /// Position of the first point of the run.
    pub start: usize,
    /// Position of the last point of the run.
    pub end: usize,
    /// Position of the first point of the run that reaches its highest level.
    pub peak: usize,
    pub start_date: String,
    pub end_date: String,
    /// The severity of the point at the peak.
    pub severity: Severity,
}

/// The scan is either between surges or inside one that began at `start` and
/// has so far peaked at `peak`.
#[derive(Clone, Copy, Debug, PartialEq, Eq, Structural)]
pub enum SurgeState {
    Idle,
    InSurge { start: usize, peak: usize },
}

/// The positions of a surge that the scan has closed.
#[derive(Clone, Copy, Debug, PartialEq, Eq, Structural)]
pub struct ClosedSurge {
    pub start: usize,
    pub end: usize,
    pub peak: usize,
}

/// `start..=end` holds high points only and cannot be extended on either side.
pub open spec fn is_run(points: Seq<SurgePoint>, start: int, end: int) -> bool {
    &&& 0 <= start <= end < points.len()
    &&& forall|i: int| start <= i <= end ==> (#[trigger] points[i]).high
    &&& (start == 0 || !points[start - 1].high)
    &&& (end == points.len() - 1 || !points[end + 1].high)
}

/// `peak` is the first position in `start..=end` whose level no other position
/// of that range exceeds.
pub open spec fn is_peak(points: Seq<SurgePoint>, start: int, end: int, peak: int) -> bool {
    &&& start <= peak <= end
    &&& forall|i: int| start <= i <= end ==> (#[trigger] points[i]).level <= points[peak].level
    &&& forall|i: int| start <= i < peak ==> (#[trigger] points[i]).level < points[peak].level
}

/// `period` describes one surge of `points`, dated by `dates`.
pub open spec fn is_surge_period(
    points: Seq<SurgePoint>,
    dates: Seq<String>,
    period: SurgePeriod,
) -> bool {
    &&& is_run(points, period.start as int, period.end as int)
    &&& is_peak(points, period.start as int, period.end as int, period.peak as int)
    &&& period.start_date@ == dates[period.start as int]@
    &&& period.end_date@ == dates[period.end as int]@
    &&& period.severity == points[period.peak as int].severity
}

/// `periods` lists every surge of `points` once, in series order.
pub open spec fn is_surge_report(
    points: Seq<SurgePoint>,
    dates: Seq<String>,
    periods: Seq<SurgePeriod>,
) -> bool {
    &&& forall|k: int|
        0 <= k < periods.len() ==> is_surge_period(points, dates, #[trigger] periods[k])
    &&& forall|j: int, k: int|
        0 <= j < k < periods.len() ==> (#[trigger] periods[j]).end < (#[trigger] periods[k]).start
    &&& forall|i: int|
        0 <= i < points.len() && (#[trigger] points[i]).high ==> covered(periods, i)
}

/// Some period of `periods` holds position `i`.
pub open spec fn covered(periods: Seq<SurgePeriod>, i: int) -> bool {
    exists|k: int|
        0 <= k < periods.len() && (#[trigger] periods[k]).start <= i && i <= periods[k].end
}

impl SurgeState {
    /// The state is one that a scan can be in just before it reads position
    /// `index`.
    pub open spec fn fits(self, index: int) -> bool {
        match self {
            SurgeState::Idle => true,
            SurgeState::InSurge { start, peak } => start <= peak < index,
        }
    }

    /// The state after reading the point at `index`.
    pub open spec fn next(self, points: Seq<SurgePoint>, index: int) -> SurgeState {
        match self {
            SurgeState::Idle => if points[index].high {
                SurgeState::InSurge { start: index as usize, peak: index as usize }
            } else {
                SurgeState::Idle
            },
            SurgeState::InSurge { start, peak } => if !points[index].high {
                SurgeState::Idle
            } else if points[index].level > points[peak as int].level {
                SurgeState::InSurge { start, peak: index as usize }
            } else {
                SurgeState::InSurge { start, peak }
            },
        }
    }

    /// The surge that reading the point at `index` closes, if any.
    pub open spec fn closes(self, points: Seq<SurgePoint>, index: int) -> Option<ClosedSurge> {
        match self {
            SurgeState::InSurge { start, peak } => if !points[index].high {
                Some(ClosedSurge { start, end: (index - 1) as usize, peak })
            } else {
                None
            },
            SurgeState::Idle => None,
        }
    }

    /// The surge that the end of a series of `len` points closes, if any.
    pub open spec fn closes_at_end(self, len: int) -> Option<ClosedSurge> {
        match self {
            SurgeState::InSurge { start, peak } => Some(
                ClosedSurge { start, end: (len - 1) as usize, peak },
            ),
            SurgeState::Idle => None,
        }
    }

    /// One transition of the scan: reads the point at `index`, and returns the
    /// next state and the surge that the point closed, if it closed one.
    pub fn step(self, points: &Vec<SurgePoint>, index: usize) -> (result: (
        SurgeState,
        Option<ClosedSurge>,
    ))
        requires
            index < points.len(),
            self.fits(index as int),
        ensures
            result.0 == self.next(points@, index as int),
            result.1 == self.closes(points@, index as int),
            result.0.fits(index + 1),
    {
        let point = points[index];
        match self {
            SurgeState::Idle => {
                if point.high {
                    (SurgeState::InSurge { start: index, peak: index }, None)
                } else {
                    (SurgeState::Idle, None)
                }
            },
            SurgeState::InSurge { start, peak } => {
                if !point.high {
                    (SurgeState::Idle, Some(ClosedSurge { start, end: index - 1, peak }))
                } else if point.level > points[peak].level {
                    (SurgeState::InSurge { start, peak: index }, None)
                } else {
                    (SurgeState::InSurge { start, peak }, None)
                }
            },
        }
    }

    /// The end of the series: returns the surge that is still open, if one is.
    pub fn finish(self, len: usize) -> (closed: Option<ClosedSurge>)
        requires
            self.fits(len as int),
        ensures
            closed == self.closes_at_end(len as int),
    {
        match self {
            SurgeState::InSurge { start, peak } => Some(ClosedSurge { start, end: len - 1, peak }),
            SurgeState::Idle => None,
        }
    }
}

/// Exactly the positions `first..=last` of `points` are high.
pub open spec fn is_single_block(points: Seq<SurgePoint>, first: int, last: int) -> bool {
    &&& 0 <= first <= last < points.len()
    &&& forall|i: int|
        0 <= i < points.len() ==> ((#[trigger] points[i]).high <==> first <= i <= last)
}

/// Two runs that share a position are the same run.
proof fn lemma_run_unique(points: Seq<SurgePoint>, s1: int, e1: int, s2: int, e2: int, i: int)
    requires
        is_run(points, s1, e1),
        is_run(points, s2, e2),
        s1 <= i <= e1,
        s2 <= i <= e2,
    ensures
        s1 == s2,
        e1 == e2,
{
    if s1 < s2 {
        assert(points[s2 - 1].high);
    }
    if s2 < s1 {
        assert(points[s1 - 1].high);
    }
    if e1 < e2 {
        assert(points[e1 + 1].high);
    }
    if e2 < e1 {
        assert(points[e2 + 1].high);
    }
}

/// A run has one peak.
proof fn lemma_peak_unique(points: Seq<SurgePoint>, start: int, end: int, p1: int, p2: int)
    requires
        is_peak(points, start, end, p1),
        is_peak(points, start, end, p2),
    ensures
        p1 == p2,
{
    if p1 < p2 {
        assert(points[p1].level < points[p2].level);
        assert(points[p2].level <= points[p1].level);
    }
    if p2 < p1 {
        assert(points[p2].level < points[p1].level);
        assert(points[p1].level <= points[p2].level);
    }
}

/// `is_surge_report`, kept folded while the uniqueness argument runs.
#[verifier::opaque]
spec fn folded_report(
    points: Seq<SurgePoint>,
    dates: Seq<String>,
    periods: Seq<SurgePeriod>,
) -> bool {
    is_surge_report(points, dates, periods)
}

/// The period at position `k` of a report is a run that starts at a high
/// point.
proof fn lemma_report_period(
    points: Seq<SurgePoint>,
    dates: Seq<String>,
    periods: Seq<SurgePeriod>,
    k: int,
)
    requires
        folded_report(points, dates, periods),
        0 <= k < periods.len(),
    ensures
        is_run(points, periods[k].start as int, periods[k].end as int),
        points[periods[k].start as int].high,
{
    reveal(folded_report);
    assert(is_surge_period(points, dates, periods[k]));
}

/// Periods of a report do not overlap, and stand in series order.
proof fn lemma_report_ordered(
    points: Seq<SurgePoint>,
    dates: Seq<String>,
    periods: Seq<SurgePeriod>,
    j: int,
    k: int,
)
    requires
        folded_report(points, dates, periods),
        0 <= j < k < periods.len(),
    ensures
        periods[j].end < periods[k].start,
{
    reveal(folded_report);
}

/// A high point lies in some period of a report.
proof fn lemma_report_covers(
    points: Seq<SurgePoint>,
    dates: Seq<String>,
    periods: Seq<SurgePeriod>,
    i: int,
) -> (k: int)
    requires
        folded_report(points, dates, periods),
        0 <= i < points.len(),
        points[i].high,
    ensures
        0 <= k < periods.len(),
        periods[k].start <= i <= periods[k].end,
{
    reveal(folded_report);
    assert(covered(periods, i));
    choose|k: int| 0 <= k < periods.len() && (#[trigger] periods[k]).start <= i && i <= periods[k].end
}

/// Two reports on the same points agree on the period at position `k`.
proof fn lemma_reports_agree_at(
    points: Seq<SurgePoint>,
    dates: Seq<String>,
    a: Seq<SurgePeriod>,
    b: Seq<SurgePeriod>,
    k: int,
)
    requires
        folded_report(points, dates, a),
        folded_report(points, dates, b),
        0 <= k < a.len(),
    ensures
        k < b.len(),
        a[k].start == b[k].start,
        a[k].end == b[k].end,
    decreases k,
{
    let s = a[k].start as int;
    lemma_report_period(points, dates, a, k);
    let m = lemma_report_covers(points, dates, b, s);
    lemma_report_period(points, dates, b, m);
    lemma_run_unique(
        points,
        a[k].start as int,
        a[k].end as int,
        b[m].start as int,
        b[m].end as int,
        s,
    );
    if m < k {
        lemma_reports_agree_at(points, dates, a, b, m);
        lemma_report_ordered(points, dates, a, m, k);
        lemma_report_period(points, dates, a, m);
        assert(false);
    } else if m > k {
        let t = b[k].start as int;
        lemma_report_period(points, dates, b, k);
        let j = lemma_report_covers(points, dates, a, t);
        lemma_report_period(points, dates, a, j);
        lemma_run_unique(
            points,
            a[j].start as int,
            a[j].end as int,
            b[k].start as int,
            b[k].end as int,
            t,
        );
        lemma_report_ordered(points, dates, b, k, m);
        if j < k {
            lemma_reports_agree_at(points, dates, a, b, j);
            lemma_report_period(points, dates, b, j);
            lemma_report_ordered(points, dates, b, j, k);
            assert(false);
        } else if j > k {
            lemma_report_ordered(points, dates, a, k, j);
            assert(false);
        } else {
            assert(false);
        }
    }
}

/// The report is determined by the points and the dates: two reports on the
/// same input hold the same periods.
pub proof fn lemma_surge_report_unique(
    points: Seq<SurgePoint>,
    dates: Seq<String>,
    a: Seq<SurgePeriod>,
    b: Seq<SurgePeriod>,
)
    requires
        is_surge_report(points, dates, a),
        is_surge_report(points, dates, b),
    ensures
        a.len() == b.len(),
        forall|k: int|
            0 <= k < a.len() ==> {
                &&& (#[trigger] a[k]).start == b[k].start
                &&& a[k].end == b[k].end
                &&& a[k].peak == b[k].peak
                &&& a[k].start_date@ == b[k].start_date@
                &&& a[k].end_date@ == b[k].end_date@
                &&& a[k].severity == b[k].severity
            },
{
    assert(folded_report(points, dates, a) && folded_report(points, dates, b)) by {
        reveal(folded_report);
    }
    if a.len() > 0 {
        lemma_reports_agree_at(points, dates, a, b, a.len() - 1);
    }
    if b.len() > 0 {
        lemma_reports_agree_at(points, dates, b, a, b.len() - 1);
    }
    assert forall|k: int| 0 <= k < a.len() implies {
        &&& (#[trigger] a[k]).start == b[k].start
        &&& a[k].end == b[k].end
        &&& a[k].peak == b[k].peak
        &&& a[k].start_date@ == b[k].start_date@
        &&& a[k].end_date@ == b[k].end_date@
        &&& a[k].severity == b[k].severity
    } by {
        lemma_reports_agree_at(points, dates, a, b, k);
        assert(is_surge_period(points, dates, a[k]));
        assert(is_surge_period(points, dates, b[k]));
        lemma_peak_unique(
            points,
            a[k].start as int,
            a[k].end as int,
            a[k].peak as int,
            b[k].peak as int,
        );
    }
}

/// A series without a high point has no surge.
pub proof fn lemma_no_high_point_no_surge(
    points: Seq<SurgePoint>,
    dates: Seq<String>,
    periods: Seq<SurgePeriod>,
)
    requires
        is_surge_report(points, dates, periods),
        forall|i: int| 0 <= i < points.len() ==> !(#[trigger] points[i]).high,
    ensures
        periods.len() == 0,
{
    if periods.len() > 0 {
        assert(is_surge_period(points, dates, periods[0]));
        assert(points[periods[0].start as int].high);
    }
}

/// Where the high points form one block, the report holds one surge, and it
/// spans the block.
pub proof fn lemma_single_block_single_surge(
    points: Seq<SurgePoint>,
    dates: Seq<String>,
    periods: Seq<SurgePeriod>,
    first: int,
    last: int,
)
    requires
        is_surge_report(points, dates, periods),
        is_single_block(points, first, last),
    ensures
        periods.len() == 1,
        periods[0].start == first,
        periods[0].end == last,
{
    assert(points[first].high);
    assert(covered(periods, first));
    let k = choose|k: int|
        0 <= k < periods.len() && (#[trigger] periods[k]).start <= first && first
            <= periods[k].end;
    assert(is_surge_period(points, dates, periods[k]));
    let s = periods[k].start as int;
    let e = periods[k].end as int;
    assert(points[s].high);
    assert(points[e].high);
    if e < last {
        assert(points[e + 1].high);
    }
    if k > 0 {
        assert(is_surge_period(points, dates, periods[0]));
        assert(points[periods[0].start as int].high);
        assert(periods[0].end < periods[k].start);
    }
    if k + 1 < periods.len() {
        assert(is_surge_period(points, dates, periods[k + 1]));
        assert(points[periods[k + 1].start as int].high);
        assert(periods[k].end < periods[k + 1].start);
    }
}

/// What holds of the scan just before it reads position `i`.
spec fn scanned(
    points: Seq<SurgePoint>,
    dates: Seq<String>,
    periods: Seq<SurgePeriod>,
    state: SurgeState,
    i: int,
) -> bool {
    &&& forall|k: int|
        0 <= k < periods.len() ==> is_surge_period(points, dates, #[trigger] periods[k])
            && periods[k].end + 1 < i
    &&& forall|j: int, k: int|
        0 <= j < k < periods.len() ==> (#[trigger] periods[j]).end < (#[trigger] periods[k]).start
    &&& match state {
        SurgeState::Idle => {
            &&& i == 0 || !points[i - 1].high
            &&& forall|j: int|
                0 <= j < i && (#[trigger] points[j]).high ==> covered(periods, j)
        },
        SurgeState::InSurge { start, peak } => {
            &&& start <= peak < i
            &&& forall|j: int| start <= j < i ==> (#[trigger] points[j]).high
            &&& start == 0 || !points[start - 1].high
            &&& is_peak(points, start as int, i - 1, peak as int)
            &&& forall|k: int| 0 <= k < periods.len() ==> (#[trigger] periods[k]).end < start
            &&& forall|j: int|
                0 <= j < start && (#[trigger] points[j]).high ==> covered(periods, j)
        },
    }
}

/// Dates a closed surge and labels it with the severity at its peak.
fn dated(points: &Vec<SurgePoint>, dates: &Vec<String>, closed: ClosedSurge) -> (period:
    SurgePeriod)
    requires
        points.len() == dates.len(),
        is_run(points@, closed.start as int, closed.end as int),
        is_peak(points@, closed.start as int, closed.end as int, closed.peak as int),
    ensures
        is_surge_period(points@, dates@, period),
        period.start == closed.start,
        period.end == closed.end,
        period.peak == closed.peak,
{
    SurgePeriod {
        start: closed.start,
        end: closed.end,
        peak: closed.peak,
        start_date: dates[closed.start].clone(),
        end_date: dates[closed.end].clone(),
        severity: points[closed.peak].severity,
    }
}

/// Finds the surge periods of a forecast.
///
/// Without points, or with a date list of another length, there is nothing to
/// report. Otherwise the report holds every maximal run of adjacent high
/// points once, in series order, each with the dates of its first and last
/// point, the position of its peak and the severity at the peak.
pub fn identify_surges(points: &Vec<SurgePoint>, dates: &Vec<String>) -> (periods: Vec<
    SurgePeriod,
>)
    ensures
        paired_fault(points.len() as int, dates.len() as int, ANY_POINTS as int).is_some()
            ==> periods@.len() == 0,
        points.len() == dates.len() ==> is_surge_report(points@, dates@, periods@),
        (forall|i: int| 0 <= i < points.len() ==> !(#[trigger] points@[i]).high)
            ==> periods@.len() == 0,
        forall|first: int, last: int|
            points.len() == dates.len() && #[trigger] is_single_block(points@, first, last) ==> {
                &&& periods@.len() == 1
                &&& periods@[0].start == first
                &&& periods@[0].end == last
            },
{
    let mut periods: Vec<SurgePeriod> = Vec::new();
    if check_paired(points.len(), dates.len(), ANY_POINTS).is_some() {
        return periods;
    }
    let mut state = SurgeState::Idle;
    let mut i: usize = 0;
    while i < points.len()
        invariant
            i <= points.len(),
            points.len() == dates.len(),
            state.fits(i as int),
            scanned(points@, dates@, periods@, state, i as int),
        decreases points.len() - i,
    {
        let ghost before = periods@;
        let ghost prior = state;
        let (next, closed) = state.step(points, i);
        match closed {
            Some(surge) => {
                let period = dated(points, dates, surge);
                periods.push(period);
                proof {
                    assert forall|j: int| 0 <= j < i + 1 && (#[trigger] points@[j]).high implies covered(
                        periods@,
                        j,
                    ) by {
                        if j < surge.start {
                            let k = choose|k: int|
                                0 <= k < before.len() && (#[trigger] before[k]).start <= j && j
                                    <= before[k].end;
                            assert(periods@[k] == before[k]);
                        } else {
                            assert(periods@[before.len() as int].start <= j);
                        }
                    }
                    assert forall|k: int| 0 <= k < periods@.len() implies is_surge_period(
                        points@,
                        dates@,
                        #[trigger] periods@[k],
                    ) && periods@[k].end + 1 < i + 1 by {
                        if k < before.len() {
                            assert(periods@[k] == before[k]);
                        }
                    }
                    assert forall|j: int, k: int| 0 <= j < k < periods@.len() implies (
                    #[trigger] periods@[j]).end < (#[trigger] periods@[k]).start by {
                        assert(periods@[j] == before[j]);
                        if k < before.len() {
                            assert(periods@[k] == before[k]);
                        }
                    }
                }
            },
            None => {
                proof {
                    match prior {
                        SurgeState::Idle => {
                            if points@[i as int].high {
                                assert forall|k: int| 0 <= k < periods@.len() implies (
                                #[trigger] periods@[k]).end < i by {}
                            }
                        },
                        SurgeState::InSurge { start, peak } => {},
                    }
                }
            },
        }
        state = next;
        i = i + 1;
    }
    match state.finish(points.len()) {
        Some(surge) => {
            let ghost before = periods@;
            let period = dated(points, dates, surge);
            periods.push(period);
            proof {
                assert forall|j: int| 0 <= j < points@.len() && (#[trigger] points@[j]).high implies covered(
                    periods@,
                    j,
                ) by {
                    if j < surge.start {
                        let k = choose|k: int|
                            0 <= k < before.len() && (#[trigger] before[k]).start <= j && j
                                <= before[k].end;
                        assert(periods@[k] == before[k]);
                    } else {
                        assert(periods@[before.len() as int].start <= j);
                    }
                }
                assert forall|k: int| 0 <= k < periods@.len() implies is_surge_period(
                    points@,
                    dates@,
                    #[trigger] periods@[k],
                ) by {
                    if k < before.len() {
                        assert(periods@[k] == before[k]);
                    }
                }
                assert forall|j: int, k: int| 0 <= j < k < periods@.len() implies (
                #[trigger] periods@[j]).end < (#[trigger] periods@[k]).start by {
                    assert(periods@[j] == before[j]);
                    if k < before.len() {
                        assert(periods@[k] == before[k]);
                    }
                }
            }
        },
        None => {},
    }
    proof {
        if forall|i: int| 0 <= i < points.len() ==> !(#[trigger] points@[i]).high {
            lemma_no_high_point_no_surge(points@, dates@, periods@);
        }
        assert forall|first: int, last: int| #[trigger]
            is_single_block(points@, first, last) implies {
            &&& periods@.len() == 1
            &&& periods@[0].start == first
            &&& periods@[0].end == last
        } by {
            lemma_single_block_single_surge(points@, dates@, periods@, first, last);
        }
    }
    periods
}

} // verus!
