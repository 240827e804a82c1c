//! Forecast rules that do not depend on the values: which model a history
//! supports, and how confidence decays with the horizon.

use vstd::prelude::*;
use crate::seasonal::has_two_cycles;
use crate::seasonal::has_two_cycles_spec;

verus! {

/// The model behind a forecast.
#[derive(Clone, Copy, Debug, PartialEq, Eq, Structural)]
pub enum ForecastModel {
    /// Level, trend and seasonal factors; needs two full cycles of history.
    Seasonal,
    /// Level and trend only: the fallback for a short history.
    Simple,
}

impl ForecastModel {
    /// The model that a history of `len` points supports for a season of
    /// `season_length` points.
    pub open spec fn supported(len: int, season_length: int) -> ForecastModel {
        if has_two_cycles_spec(len, season_length) {
            ForecastModel::Seasonal
        } else {
            ForecastModel::Simple
        }
    }

    pub fn select(len: usize, season_length: usize) -> (model: ForecastModel)
        ensures
            model == ForecastModel::supported(len as int, season_length as int),
    {
        if has_two_cycles(len, season_length) {
            ForecastModel::Seasonal
        } else {
            ForecastModel::Simple
        }
    }

    /// Hundredths of confidence lost with each step of the horizon.
    pub open spec fn decay(self) -> int {
        match self {
            ForecastModel::Seasonal => 5,
            ForecastModel::Simple => 8,
        }
    }

    /// Hundredths of confidence below which no forecast falls.
    pub open spec fn floor(self) -> int {
        match self {
            ForecastModel::Seasonal => 60,
            ForecastModel::Simple => 50,
        }
    }

    /// Confidence in the forecast `step` positions past the first one, in
    /// hundredths: full confidence at step 0, less by the model's decay with
    /// each step, never below the model's floor.
    pub open spec fn confidence_spec(self, step: int) -> int {
        if 100 - self.decay() * step < self.floor() {
            self.floor()
        } else {
            100 - self.decay() * step
        }
    }

    pub fn confidence_percent(&self, step: usize) -> (percent: u8)
        ensures
            percent == self.confidence_spec(step as int),
            self.floor() <= percent <= 100,
    {
        match self {
            ForecastModel::Seasonal => {
                if step >= 8 {
                    60
                } else {
                    100 - 5 * (step as u8)
                }
            },
            ForecastModel::Simple => {
                if step >= 7 {
                    50
                } else {
                    100 - 8 * (step as u8)
                }
            },
        }
    }

    /// Confidence never grows with the horizon.
    pub proof fn lemma_confidence_decays(self, near: int, far: int)
        requires
            0 <= near <= far,
        ensures
            self.confidence_spec(far) <= self.confidence_spec(near),
    {
    }
}

} // verus!
