//! The rules on labels, windows, ranks and slots, on given values.

use ils_core::ensemble::{
    classify_point, collect_reported, detect_anomalies, ensemble_window, AnomalyResult, MethodSet,
    PointSignals,
};
use ils_core::forecast::ForecastModel;
use ils_core::input::{
    check_paired, check_series, InputFault, ANY_POINTS, ENSEMBLE_POINTS, KURTOSIS_POINTS,
    SKEWNESS_POINTS, SPREAD_POINTS,
};
use ils_core::labels::{Sensitivity, Severity, TrendDirection};
use ils_core::seasonal::{
    detect_seasonal_anomalies, forecast_slot, has_two_cycles, initial_cycles, phase_positions,
    seasonal_history, seasonal_slot, CycleWindows,
};
use ils_core::summary::{analyze_anomalies, count_high_severity};
use ils_core::trend::{detect_trend_changes, trend_windows, TrendWindows};
use ils_core::windows::{
    median_ranks, moving_average_len, moving_average_slot, quantile_ranks, recent_start,
    REALTIME_WINDOW, TREND_WINDOW,
};

const QUIET: PointSignals =
    PointSignals { z_score: false, strong_z_score: false, iqr: false, moving_avg: false };

#[test]
fn severity_follows_the_bands() {
    assert_eq!(Severity::from_bands(true, true), Severity::High);
    assert_eq!(Severity::from_bands(true, false), Severity::High);
    assert_eq!(Severity::from_bands(false, true), Severity::Medium);
    assert_eq!(Severity::from_bands(false, false), Severity::Low);
}

#[test]
fn severity_labels() {
    assert_eq!(Severity::Low.label(), "low");
    assert_eq!(Severity::Medium.label(), "medium");
    assert_eq!(Severity::High.label(), "high");
}

#[test]
fn trend_direction_follows_the_bands() {
    assert_eq!(TrendDirection::from_bands(true, false), TrendDirection::Increasing);
    assert_eq!(TrendDirection::from_bands(false, true), TrendDirection::Decreasing);
    assert_eq!(TrendDirection::from_bands(false, false), TrendDirection::Stable);
    assert_eq!(TrendDirection::from_bands(true, true), TrendDirection::Increasing);
}

#[test]
fn trend_direction_labels() {
    assert_eq!(TrendDirection::Increasing.label(), "increasing");
    assert_eq!(TrendDirection::Decreasing.label(), "decreasing");
    assert_eq!(TrendDirection::Stable.label(), "stable");
}

#[test]
fn sensitivity_is_parsed_with_medium_as_default() {
    assert_eq!(Sensitivity::parse("low"), Sensitivity::Low);
    assert_eq!(Sensitivity::parse("medium"), Sensitivity::Medium);
    assert_eq!(Sensitivity::parse("high"), Sensitivity::High);
    assert_eq!(Sensitivity::parse(""), Sensitivity::Medium);
    assert_eq!(Sensitivity::parse("HIGH"), Sensitivity::Medium);
    assert_eq!(Sensitivity::parse("lowest"), Sensitivity::Medium);
}

#[test]
fn sensitivity_multipliers() {
    assert_eq!(Sensitivity::Low.multiplier_tenths(), 30);
    assert_eq!(Sensitivity::Medium.multiplier_tenths(), 20);
    assert_eq!(Sensitivity::High.multiplier_tenths(), 15);
}

#[test]
fn ensemble_window_is_a_third_between_three_and_seven() {
    assert_eq!(ensemble_window(0), 3);
    assert_eq!(ensemble_window(3), 3);
    assert_eq!(ensemble_window(10), 3);
    assert_eq!(ensemble_window(12), 4);
    assert_eq!(ensemble_window(20), 6);
    assert_eq!(ensemble_window(21), 7);
    assert_eq!(ensemble_window(23), 7);
    assert_eq!(ensemble_window(1000), 7);
}

#[test]
fn method_set_counts_and_names() {
    let none = MethodSet { z_score: false, iqr: false, moving_avg: false };
    assert!(none.is_empty());
    assert_eq!(none.count(), 0);
    assert!(none.names().is_empty());

    let two = MethodSet { z_score: true, iqr: false, moving_avg: true };
    assert!(!two.is_empty());
    assert_eq!(two.count(), 2);
    assert_eq!(two.names(), vec!["z-score", "moving-avg"]);

    let fence = MethodSet { z_score: false, iqr: true, moving_avg: false };
    assert_eq!(fence.count(), 1);
    assert_eq!(fence.names(), vec!["iqr"]);
}

#[test]
fn point_without_a_signal_is_not_reported() {
    assert_eq!(classify_point(4, 10, &QUIET), None);
    let strong_only = PointSignals { strong_z_score: true, ..QUIET };
    assert_eq!(classify_point(4, 10, &strong_only), None);
}

#[test]
fn one_method_is_low_or_medium_and_two_are_high() {
    let fence = PointSignals { iqr: true, ..QUIET };
    assert_eq!(
        classify_point(4, 10, &fence),
        Some(AnomalyResult {
            index: 4,
            severity: Severity::Low,
            methods: MethodSet { z_score: false, iqr: true, moving_avg: false },
        })
    );
    let strong = PointSignals { z_score: true, strong_z_score: true, ..QUIET };
    assert_eq!(classify_point(4, 10, &strong).unwrap().severity, Severity::Medium);
    let two = PointSignals { z_score: true, iqr: true, ..QUIET };
    assert_eq!(classify_point(4, 10, &two).unwrap().severity, Severity::High);
    let two_strong = PointSignals { z_score: true, strong_z_score: true, moving_avg: true, ..QUIET };
    assert_eq!(classify_point(4, 10, &two_strong).unwrap().severity, Severity::High);
}

#[test]
fn moving_average_counts_only_once_its_window_is_filled() {
    let drift = PointSignals { moving_avg: true, ..QUIET };
    assert_eq!(classify_point(0, 10, &drift), None);
    assert_eq!(classify_point(1, 10, &drift), None);
    assert!(classify_point(2, 10, &drift).is_some());
    assert_eq!(classify_point(5, 21, &drift), None);
    assert!(classify_point(6, 21, &drift).is_some());

    let both = PointSignals { z_score: true, moving_avg: true, ..QUIET };
    let early = classify_point(1, 10, &both).unwrap();
    assert_eq!(early.severity, Severity::Low);
    assert_eq!(early.methods.names(), vec!["z-score"]);
}

#[test]
fn short_series_has_no_anomalies() {
    let loud = PointSignals { z_score: true, strong_z_score: true, iqr: true, moving_avg: true };
    assert!(detect_anomalies(&vec![]).is_empty());
    assert!(detect_anomalies(&vec![loud]).is_empty());
    assert!(detect_anomalies(&vec![loud, loud]).is_empty());
    assert_eq!(detect_anomalies(&vec![loud, loud, loud]).len(), 3);
}

#[test]
fn anomalies_come_in_series_order_each_at_its_own_position() {
    let fence = PointSignals { iqr: true, ..QUIET };
    let mut signals = vec![QUIET; 200];
    for i in [3usize, 17, 18, 150, 199] {
        signals[i] = fence;
    }
    let anomalies = detect_anomalies(&signals);
    let indices: Vec<usize> = anomalies.iter().map(|a| a.index).collect();
    assert_eq!(indices, vec![3, 17, 18, 150, 199]);
    for (i, anomaly) in indices.iter().zip(anomalies.iter()) {
        assert_eq!(Some(*anomaly), classify_point(*i, signals.len(), &signals[*i]));
    }
}

#[test]
fn reported_verdicts_are_kept_in_order() {
    let a = AnomalyResult {
        index: 1,
        severity: Severity::Low,
        methods: MethodSet { z_score: true, iqr: false, moving_avg: false },
    };
    let b = AnomalyResult { index: 4, severity: Severity::High, ..a };
    assert_eq!(collect_reported(&vec![None, Some(a), None, None, Some(b), None]), vec![a, b]);
    assert!(collect_reported(&vec![None, None]).is_empty());
}

#[test]
fn high_severities_are_counted() {
    let low = AnomalyResult {
        index: 0,
        severity: Severity::Low,
        methods: MethodSet { z_score: true, iqr: false, moving_avg: false },
    };
    let high = AnomalyResult { severity: Severity::High, ..low };
    let medium = AnomalyResult { severity: Severity::Medium, ..low };
    assert_eq!(count_high_severity(&vec![]), 0);
    assert_eq!(count_high_severity(&vec![low, high, medium, high]), 2);
}

#[test]
fn analysis_without_data_is_empty() {
    let summary = analyze_anomalies(&vec![], 7, &vec![], 5, &vec![]);
    assert_eq!(summary.total_anomalies, 0);
    assert_eq!(summary.high_severity_count, 0);
    assert_eq!(summary.seasonal_anomaly_count, 0);
    assert_eq!(summary.significant_trend_changes, 0);
    assert!(summary.anomalies.is_empty());
}

#[test]
fn moving_average_length_and_alignment() {
    assert_eq!(moving_average_len(10, 3), 8);
    assert_eq!(moving_average_len(10, 10), 1);
    assert_eq!(moving_average_len(10, 11), 0);
    assert_eq!(moving_average_len(10, 0), 0);
    assert_eq!(moving_average_len(0, 0), 0);
    assert_eq!(moving_average_len(5, 1), 5);

    assert_eq!(moving_average_slot(1, 10, 3), None);
    assert_eq!(moving_average_slot(2, 10, 3), Some(0));
    assert_eq!(moving_average_slot(9, 10, 3), Some(7));
    assert_eq!(moving_average_slot(10, 10, 3), None);
    assert_eq!(moving_average_slot(4, 10, 0), None);
    assert_eq!(moving_average_slot(4, 3, 5), None);
}

#[test]
fn recent_window_ends_with_the_series() {
    assert_eq!(REALTIME_WINDOW, 14);
    assert_eq!(TREND_WINDOW, 7);
    assert_eq!(recent_start(30, 14), 16);
    assert_eq!(recent_start(14, 14), 0);
    assert_eq!(recent_start(10, 14), 0);
    assert_eq!(recent_start(0, 7), 0);
}

#[test]
fn median_reads_the_middle_ranks() {
    assert_eq!(median_ranks(0), None);
    assert_eq!(median_ranks(1), Some((0, 0)));
    assert_eq!(median_ranks(2), Some((0, 1)));
    assert_eq!(median_ranks(4), Some((1, 2)));
    assert_eq!(median_ranks(5), Some((2, 2)));
}

#[test]
fn quantile_reads_one_rank_or_two_neighbours() {
    assert_eq!(quantile_ranks(0, 0, 0), None);
    assert_eq!(quantile_ranks(10, 2, 3), Some((2, 3)));
    assert_eq!(quantile_ranks(10, 4, 4), Some((4, 4)));
    assert_eq!(quantile_ranks(10, 9, 9), Some((9, 9)));
    assert_eq!(quantile_ranks(10, 9, 10), Some((9, 9)));
    assert_eq!(quantile_ranks(10, 12, 12), Some((9, 9)));
    assert_eq!(quantile_ranks(1, 0, 0), Some((0, 0)));
}

#[test]
fn quantile_at_one_half_reads_the_median_ranks() {
    for len in 1usize..40 {
        assert_eq!(quantile_ranks(len, (len - 1) / 2, len / 2), median_ranks(len));
    }
}

#[test]
fn two_cycles_are_needed_for_seasons() {
    assert!(has_two_cycles(14, 7));
    assert!(has_two_cycles(30, 7));
    assert!(!has_two_cycles(13, 7));
    assert!(has_two_cycles(0, 0));
    assert!(!has_two_cycles(usize::MAX, usize::MAX));
    assert_eq!(ForecastModel::select(30, 7), ForecastModel::Seasonal);
    assert_eq!(ForecastModel::select(13, 7), ForecastModel::Simple);
}

#[test]
fn slots_wrap_around_the_season() {
    assert_eq!(seasonal_slot(0, 7), 0);
    assert_eq!(seasonal_slot(6, 7), 6);
    assert_eq!(seasonal_slot(7, 7), 0);
    assert_eq!(seasonal_slot(30, 7), 2);
    assert_eq!(forecast_slot(30, 0, 7), 2);
    assert_eq!(forecast_slot(30, 4, 7), 6);
    assert_eq!(forecast_slot(30, 5, 7), 0);
    assert_eq!(forecast_slot(usize::MAX, usize::MAX, 7), ((usize::MAX % 7) * 2) % 7);
    assert_eq!(forecast_slot(usize::MAX, 3, usize::MAX), 3);
}

#[test]
fn seasonal_factors_are_seeded_from_two_full_cycles() {
    assert_eq!(
        initial_cycles(0, 14, 7),
        Some(CycleWindows { first_start: 0, second_start: 7, second_end: 14 })
    );
    assert_eq!(initial_cycles(1, 14, 7), None);
    assert_eq!(
        initial_cycles(6, 20, 7),
        Some(CycleWindows { first_start: 6, second_start: 13, second_end: 20 })
    );
    assert_eq!(initial_cycles(6, 19, 7), None);
    assert_eq!(initial_cycles(0, 10, 0), None);
    assert_eq!(initial_cycles(11, 10, 1), None);
}

#[test]
fn phase_positions_cover_the_full_cycles() {
    assert_eq!(phase_positions(0, 30, 7), vec![0, 7, 14, 21]);
    assert_eq!(phase_positions(6, 30, 7), vec![6, 13, 20, 27]);
    assert_eq!(phase_positions(2, 6, 7), Vec::<usize>::new());
    assert_eq!(phase_positions(0, 3, 1), vec![0, 1, 2]);
}

#[test]
fn seasonal_history_steps_back_by_the_period() {
    assert_eq!(seasonal_history(17, 7), vec![10, 3]);
    assert_eq!(seasonal_history(21, 7), vec![14, 7, 0]);
    assert_eq!(seasonal_history(6, 7), Vec::<usize>::new());
    assert_eq!(seasonal_history(7, 7), vec![0]);
    assert_eq!(seasonal_history(5, 0), Vec::<usize>::new());
    assert_eq!(seasonal_history(3, 1), vec![2, 1, 0]);
}

#[test]
fn seasonal_anomalies_need_two_earlier_observations() {
    let all = vec![true; 28];
    assert_eq!(detect_seasonal_anomalies(7, &all), (14..28).collect::<Vec<usize>>());
    assert!(detect_seasonal_anomalies(7, &vec![true; 13]).is_empty());
    assert!(detect_seasonal_anomalies(0, &all).is_empty());
    assert!(detect_seasonal_anomalies(15, &all).is_empty());
    let mut some = vec![false; 28];
    some[3] = true;
    some[17] = true;
    some[27] = true;
    assert_eq!(detect_seasonal_anomalies(7, &some), vec![17, 27]);
}

#[test]
fn trend_windows_lie_just_before_the_position() {
    assert_eq!(trend_windows(9, 5), None);
    assert_eq!(
        trend_windows(10, 5),
        Some(TrendWindows { old_start: 0, new_start: 5, end: 10 })
    );
    assert_eq!(
        trend_windows(23, 5),
        Some(TrendWindows { old_start: 13, new_start: 18, end: 23 })
    );
    assert_eq!(trend_windows(4, 0), Some(TrendWindows { old_start: 4, new_start: 4, end: 4 }));
}

#[test]
fn trend_changes_need_two_windows_before_them() {
    let all = vec![true; 20];
    assert_eq!(detect_trend_changes(5, &all), (10..20).collect::<Vec<usize>>());
    assert!(detect_trend_changes(5, &vec![true; 10]).is_empty());
    assert!(detect_trend_changes(11, &all).is_empty());
    let mut some = vec![false; 20];
    some[2] = true;
    some[12] = true;
    assert_eq!(detect_trend_changes(5, &some), vec![12]);
    assert!(detect_trend_changes(5, &vec![]).is_empty());
}

#[test]
fn confidence_decays_to_its_floor() {
    let seasonal = ForecastModel::Seasonal;
    assert_eq!(seasonal.confidence_percent(0), 100);
    assert_eq!(seasonal.confidence_percent(1), 95);
    assert_eq!(seasonal.confidence_percent(7), 65);
    assert_eq!(seasonal.confidence_percent(8), 60);
    assert_eq!(seasonal.confidence_percent(9), 60);
    assert_eq!(seasonal.confidence_percent(usize::MAX), 60);

    let simple = ForecastModel::Simple;
    assert_eq!(simple.confidence_percent(0), 100);
    assert_eq!(simple.confidence_percent(1), 92);
    assert_eq!(simple.confidence_percent(6), 52);
    assert_eq!(simple.confidence_percent(7), 50);
    assert_eq!(simple.confidence_percent(1000), 50);
}

#[test]
fn confidence_never_grows_with_the_horizon() {
    for model in [ForecastModel::Seasonal, ForecastModel::Simple] {
        let mut last = model.confidence_percent(0);
        for step in 1..30 {
            let next = model.confidence_percent(step);
            assert!(next <= last);
            last = next;
        }
    }
}

#[test]
fn short_series_is_insufficient() {
    assert_eq!(check_series(0, ANY_POINTS), Some(InputFault::InsufficientData));
    assert_eq!(check_series(1, ANY_POINTS), None);
    assert_eq!(check_series(1, SPREAD_POINTS), Some(InputFault::InsufficientData));
    assert_eq!(check_series(2, SPREAD_POINTS), None);
    assert_eq!(check_series(2, SKEWNESS_POINTS), Some(InputFault::InsufficientData));
    assert_eq!(check_series(3, SKEWNESS_POINTS), None);
    assert_eq!(check_series(3, KURTOSIS_POINTS), Some(InputFault::InsufficientData));
    assert_eq!(check_series(4, KURTOSIS_POINTS), None);
    assert_eq!(check_series(2, ENSEMBLE_POINTS), Some(InputFault::InsufficientData));
    assert_eq!(check_series(3, ENSEMBLE_POINTS), None);
    assert_eq!(check_series(0, 0), None);
}

#[test]
fn paired_series_must_match_before_they_must_suffice() {
    assert_eq!(check_paired(5, 4, ANY_POINTS), Some(InputFault::ParameterMismatch));
    assert_eq!(check_paired(0, 1, SPREAD_POINTS), Some(InputFault::ParameterMismatch));
    assert_eq!(check_paired(0, 0, ANY_POINTS), Some(InputFault::InsufficientData));
    assert_eq!(check_paired(1, 1, SPREAD_POINTS), Some(InputFault::InsufficientData));
    assert_eq!(check_paired(1, 1, ANY_POINTS), None);
    assert_eq!(check_paired(7, 7, SPREAD_POINTS), None);
}
