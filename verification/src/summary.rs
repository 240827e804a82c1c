//! The combined analysis: the three detectors over one series, and the counts
//! drawn from their reports.

use vstd::prelude::*;
use crate::ensemble::anomalies_of;
use crate::ensemble::detect_anomalies;
use crate::ensemble::AnomalyResult;
use crate::ensemble::PointSignals;
use crate::labels::Severity;
use crate::seasonal::detect_seasonal_anomalies;
use crate::seasonal::seasonal_anomalies_of;
use crate::trend::detect_trend_changes;
use crate::trend::trend_changes_of;

verus! {

/// The reports of the three detectors over one series, with their counts.
#[derive(Debug)]
pub struct AnomalyAnalysisSummary {
    /// How many points the ensemble reported.
    pub total_anomalies: usize,
    /// How many of them with high severity.
    pub high_severity_count: usize,
    /// How many positions show a significant change of trend.
    pub significant_trend_changes: usize,
    /// How many positions deviate from their season.
    pub seasonal_anomaly_count: usize,
    pub anomalies: Vec<AnomalyResult>,
    pub seasonal_anomalies: Vec<usize>,
    pub trend_changes: Vec<usize>,
}

/// How many reported points have high severity.
pub open spec fn high_severity_count_of(anomalies: Seq<AnomalyResult>) -> nat {
    anomalies.filter(|a: AnomalyResult| a.severity == Severity::High).len()
}

pub fn count_high_severity(anomalies: &Vec<AnomalyResult>) -> (count: usize)
    ensures
        count == high_severity_count_of(anomalies@),
        count <= anomalies@.len(),
{
    let ghost is_high = |a: AnomalyResult| a.severity == Severity::High;
    let mut count: usize = 0;
    let mut i: usize = 0;
    assert(anomalies@.take(0) =~= Seq::<AnomalyResult>::empty());
    while i < anomalies.len()
        invariant
            i <= anomalies.len(),
            is_high == |a: AnomalyResult| a.severity == Severity::High,
            count == anomalies@.take(i as int).filter(is_high).len(),
            count <= i,
        decreases anomalies.len() - i,
    {
        proof {
            assert(anomalies@.take(i + 1) =~= anomalies@.take(i as int).push(anomalies@[i as int]));
            anomalies@.take(i as int).lemma_filter_len_push(is_high, anomalies@[i as int]);
        }
        match anomalies[i].severity {
            Severity::High => {
                count = count + 1;
            },
            _ => {},
        }
        i = i + 1;
    }
    assert(anomalies@.take(anomalies@.len() as int) =~= anomalies@);
    count
}

/// Runs the three detectors over the signals of one series and counts what
/// they report.
///
/// `signals` feeds the ensemble; `deviates` and `seasonal_period` feed the
/// seasonal detector; `significant` and `window` feed the trend detector.
pub fn analyze_anomalies(
    signals: &Vec<PointSignals>,
    seasonal_period: usize,
    deviates: &Vec<bool>,
    window: usize,
    significant: &Vec<bool>,
) -> (summary: AnomalyAnalysisSummary)
    ensures
        summary.anomalies@ == anomalies_of(signals@),
        summary.seasonal_anomalies@ == seasonal_anomalies_of(seasonal_period as int, deviates@),
        summary.trend_changes@ == trend_changes_of(window as int, significant@),
        summary.total_anomalies == summary.anomalies@.len(),
        summary.high_severity_count == high_severity_count_of(summary.anomalies@),
        summary.seasonal_anomaly_count == summary.seasonal_anomalies@.len(),
        summary.significant_trend_changes == summary.trend_changes@.len(),
{
    let anomalies = detect_anomalies(signals);
    let seasonal_anomalies = detect_seasonal_anomalies(seasonal_period, deviates);
    let trend_changes = detect_trend_changes(window, significant);
    let total_anomalies = anomalies.len();
    let high_severity_count = count_high_severity(&anomalies);
    AnomalyAnalysisSummary {
        total_anomalies,
        high_severity_count,
        significant_trend_changes: trend_changes.len(),
        seasonal_anomaly_count: seasonal_anomalies.len(),
        anomalies,
        seasonal_anomalies,
        trend_changes,
    }
}

} // verus!
