//! Decision rules and index plans of a time-series analytics engine.
//!
//! The engine computes descriptive statistics, forecasts and anomaly reports
//! over a series of observations. This crate holds the part of it that is
//! decided on positions, flags and labels: which observations feed which
//! window, which points an ensemble of detectors reports, how adjacent
//! high-volume points merge into surge periods, and which label a verdict
//! carries. The measurements themselves are taken by the caller.
//!
//! Every function is verified against its contract, and none panics.
//!
//! - [`ensemble`]: three detection signals per point, combined into verdicts.
//! - [`surge`]: runs of high-volume points, merged into dated periods.
//! - [`seasonal`]: slots, seeding windows and histories of a seasonal cycle.
//! - [`trend`]: the windows whose slopes are compared, and the changes found.
//! - [`summary`]: the three detectors over one series, with their counts.
//! - [`forecast`]: the model a history supports, and how confidence decays.
//! - [`windows`]: moving-average alignment, recent windows, median and
//!   quantile ranks.
//! - [`labels`]: severities, trend directions and sensitivities.
//! - [`input`]: when an input falls short of what an operation needs.
//! - [`selection`]: the items present in a sequence of optional items.

pub mod ensemble;
pub mod forecast;
pub mod input;
pub mod labels;
pub mod seasonal;
pub mod selection;
pub mod summary;
pub mod surge;
pub mod trend;
pub mod windows;
