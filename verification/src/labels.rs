//! Labels that verdicts carry, and the bands that select them.

use vstd::prelude::*;

verus! {

/// How serious a reported point is.
#[derive(Clone, Copy, Debug, PartialEq, Eq, Structural)]
pub enum Severity {
    Low,
    Medium,
    High,
}

impl Severity {
    /// The severity of a measure that is compared with an upper and a lower
    /// mark: high above the upper mark, medium above the lower one only.
    pub open spec fn banded(above_upper: bool, above_lower: bool) -> Severity {
        if above_upper {
            Severity::High
        } else if above_lower {
            Severity::Medium
        } else {
            Severity::Low
        }
    }

    pub fn from_bands(above_upper: bool, above_lower: bool) -> (severity: Severity)
        ensures
            severity == Severity::banded(above_upper, above_lower),
    {
        if above_upper {
            Severity::High
        } else if above_lower {
            Severity::Medium
        } else {
            Severity::Low
        }
    }

    /// The label as text.
    pub open spec fn label_text(self) -> Seq<char> {
        match self {
            Severity::Low => "low"@,
            Severity::Medium => "medium"@,
            Severity::High => "high"@,
        }
    }

    pub fn label(&self) -> (text: &'static str)
        ensures
            text@ == self.label_text(),
    {
        match self {
            Severity::Low => "low",
            Severity::Medium => "medium",
            Severity::High => "high",
        }
    }
}

/// Where a series is heading.
#[derive(Clone, Copy, Debug, PartialEq, Eq, Structural)]
pub enum TrendDirection {
    Increasing,
    Decreasing,
    Stable,
}

impl TrendDirection {
    /// The direction of a slope that is compared with a positive and a
    /// negative mark: increasing above the one, decreasing below the other.
    pub open spec fn banded(above_rise: bool, below_fall: bool) -> TrendDirection {
        if above_rise {
            TrendDirection::Increasing
        } else if below_fall {
            TrendDirection::Decreasing
        } else {
            TrendDirection::Stable
        }
    }

    pub fn from_bands(above_rise: bool, below_fall: bool) -> (direction: TrendDirection)
        ensures
            direction == TrendDirection::banded(above_rise, below_fall),
    {
        if above_rise {
            TrendDirection::Increasing
        } else if below_fall {
            TrendDirection::Decreasing
        } else {
            TrendDirection::Stable
        }
    }

    /// The label as text.
    pub open spec fn label_text(self) -> Seq<char> {
        match self {
            TrendDirection::Increasing => "increasing"@,
            TrendDirection::Decreasing => "decreasing"@,
            TrendDirection::Stable => "stable"@,
        }
    }

    pub fn label(&self) -> (text: &'static str)
        ensures
            text@ == self.label_text(),
    {
        match self {
            TrendDirection::Increasing => "increasing",
            TrendDirection::Decreasing => "decreasing",
            TrendDirection::Stable => "stable",
        }
    }
}

/// How readily the real-time check flags a value.
#[derive(Clone, Copy, Debug, PartialEq, Eq, Structural)]
pub enum Sensitivity {
    Low,
    Medium,
    High,
}

impl Sensitivity {
    /// The sensitivity that a label names; any other text names the medium
    /// one.
    pub open spec fn named(text: Seq<char>) -> Sensitivity {
        if text == "low"@ {
            Sensitivity::Low
        } else if text == "high"@ {
            Sensitivity::High
        } else {
            Sensitivity::Medium
        }
    }

    pub fn parse(text: &str) -> (sensitivity: Sensitivity)
        ensures
            sensitivity == Sensitivity::named(text@),
    {
        let given = text.to_owned();
        if given == "low".to_owned() {
            Sensitivity::Low
        } else if given == "high".to_owned() {
            Sensitivity::High
        } else {
            Sensitivity::Medium
        }
    }

    /// Tenths of a standard deviation by which a value may lie off the mean
    /// before it is flagged.
    pub open spec fn multiplier_tenths_spec(self) -> int {
        match self {
            Sensitivity::Low => 30,
            Sensitivity::Medium => 20,
            Sensitivity::High => 15,
        }
    }

    pub fn multiplier_tenths(&self) -> (tenths: u32)
        ensures
            tenths == self.multiplier_tenths_spec(),
    {
        match self {
            Sensitivity::Low => 30,
            Sensitivity::Medium => 20,
            Sensitivity::High => 15,
        }
    }
}

} // verus!
