//! Seasonal structure of a series: slots of a cycle, the windows that seed
//! the seasonal factors, the observations of one phase, and the selection of
//! seasonal anomalies.

use vstd::prelude::*;
use vstd::arithmetic::div_mod::lemma_add_mod_noop;
use vstd::arithmetic::div_mod::lemma_fundamental_div_mod;
use vstd::arithmetic::div_mod::lemma_fundamental_div_mod_converse;
use vstd::arithmetic::div_mod::lemma_mod_multiples_vanish;
use vstd::arithmetic::div_mod::lemma_small_mod;
use crate::selection::lemma_present_keyed;
use crate::selection::lemma_present_take_succ;
use crate::selection::present;

verus! {

/// A series of `len` points holds two full cycles of `cycle` points each.
pub open spec fn has_two_cycles_spec(len: int, cycle: int) -> bool {
    len >= 2 * cycle
}

/// Whether a seasonal model can be fitted: with fewer than two full cycles
/// the engine falls back to a model without seasons.
pub fn has_two_cycles(len: usize, cycle: usize) -> (enough: bool)
    ensures
        enough == has_two_cycles_spec(len as int, cycle as int),
{
    cycle <= len / 2
}

/// The slot of the cycle that position `index` falls into.
pub fn seasonal_slot(index: usize, season_length: usize) -> (slot: usize)
    requires
        season_length > 0,
    ensures
        slot == index as int % season_length as int,
        slot < season_length,
{
    index % season_length
}

/// The slot of the cycle that the forecast `step` positions past the end of a
/// series of `len` points falls into (`step` 0 is the first position past the
/// end).
pub fn forecast_slot(len: usize, step: usize, season_length: usize) -> (slot: usize)
    requires
        season_length > 0,
    ensures
        slot == (len + step) % season_length as int,
        slot < season_length,
{
    let a = len % season_length;
    let b = step % season_length;
    proof {
        lemma_add_mod_noop(len as int, step as int, season_length as int);
    }
    if a >= season_length - b {
        let slot = a - (season_length - b);
        proof {
            let m = season_length as int;
            lemma_fundamental_div_mod_converse(a + b, m, 1, slot as int);
        }
        slot
    } else {
        proof {
            lemma_small_mod((a + b) as nat, season_length as nat);
        }
        a + b
    }
}

/// The two windows that seed the seasonal factor of one slot: the cycle that
/// starts at the slot, and the cycle after it.
#[derive(Clone, Copy, Debug, PartialEq, Eq, Structural)]
pub struct CycleWindows {
    /// First position of the first cycle.
    pub first_start: usize,
    /// First position of the second cycle, one past the end of the first.
    pub second_start: usize,
    /// One past the last position of the second cycle.
    pub second_end: usize,
}

/// The windows of `slot`, where two full cycles that start at the slot lie
/// inside a series of `len` points.
pub open spec fn initial_cycles_spec(slot: int, len: int, season_length: int) -> Option<
    CycleWindows,
> {
    if season_length > 0 && slot + 2 * season_length <= len {
        Some(
            CycleWindows {
                first_start: slot as usize,
                second_start: (slot + season_length) as usize,
                second_end: (slot + 2 * season_length) as usize,
            },
        )
    } else {
        None
    }
}

/// The windows from which the seasonal factor of `slot` is initialised. A slot
/// that lacks two full cycles has none, and keeps the neutral factor.
pub fn initial_cycles(slot: usize, len: usize, season_length: usize) -> (windows: Option<
    CycleWindows,
>)
    ensures
        windows == initial_cycles_spec(slot as int, len as int, season_length as int),
{
    if season_length > 0 && slot <= len && season_length <= (len - slot) / 2 {
        Some(
            CycleWindows {
                first_start: slot,
                second_start: slot + season_length,
                second_end: slot + season_length + season_length,
            },
        )
    } else {
        None
    }
}

/// The positions of phase `phase` in the full cycles of a series of `len`
/// points: one per full cycle, in series order.
pub open spec fn phase_positions_spec(phase: int, len: int, season_length: int) -> Seq<usize> {
    Seq::new((len / season_length) as nat, |k: int| (phase + k * season_length) as usize)
}

/// The observations that make up the seasonal pattern at one phase.
pub fn phase_positions(phase: usize, len: usize, season_length: usize) -> (positions: Vec<usize>)
    requires
        phase < season_length,
    ensures
        positions@ == phase_positions_spec(phase as int, len as int, season_length as int),
        forall|k: int| 0 <= k < positions@.len() ==> (#[trigger] positions@[k]) < len,
{
    let cycles = len / season_length;
    let mut positions: Vec<usize> = Vec::new();
    let mut k: usize = 0;
    let mut position = phase;
    proof {
        lemma_fundamental_div_mod(len as int, season_length as int);
        assert(0 * season_length == 0);
        assert(season_length * cycles == cycles * season_length) by (nonlinear_arith);
    }
    while k < cycles
        invariant
            k <= cycles,
            cycles == len as int / season_length as int,
            cycles * season_length <= len,
            phase < season_length,
            k < cycles ==> position == phase + k * season_length,
            positions@.len() == k,
            forall|j: int|
                0 <= j < k ==> (#[trigger] positions@[j]) == phase + j * season_length
                    && positions@[j] < len,
        decreases cycles - k,
    {
        proof {
            let s = season_length as int;
            assert(phase + k * s < cycles * s) by (nonlinear_arith)
                requires
                    0 <= k < cycles,
                    0 <= phase < s,
            ;
            assert((k + 1) * s == k * s + s) by (nonlinear_arith);
            if k + 1 < cycles {
                assert(phase + (k + 1) * s < cycles * s) by (nonlinear_arith)
                    requires
                        0 <= k + 1 < cycles,
                        0 <= phase < s,
                ;
            }
        }
        positions.push(position);
        k = k + 1;
        if k < cycles {
            position = position + season_length;
        }
    }
    assert(positions@ =~= phase_positions_spec(
        phase as int,
        len as int,
        season_length as int,
    ));
    positions
}

/// How many earlier observations share the phase of position `index`.
pub open spec fn seasonal_history_len(index: int, period: int) -> int {
    if period > 0 {
        index / period
    } else {
        0
    }
}

/// The earlier positions that share the phase of `index`, stepping back by
/// `period` until the series is exhausted: the nearest first.
pub open spec fn seasonal_history_spec(index: int, period: int) -> Seq<usize> {
    Seq::new(
        seasonal_history_len(index, period) as nat,
        |k: int| (index - (k + 1) * period) as usize,
    )
}

/// The observations with which the one at `index` is compared.
pub fn seasonal_history(index: usize, period: usize) -> (history: Vec<usize>)
    ensures
        history@ == seasonal_history_spec(index as int, period as int),
        forall|k: int| 0 <= k < history@.len() ==> (#[trigger] history@[k]) < index,
{
    let mut history: Vec<usize> = Vec::new();
    if period == 0 {
        assert(history@ =~= seasonal_history_spec(index as int, period as int));
        return history;
    }
    let mut position = index;
    assert(0 * period == 0);
    while position >= period
        invariant
            period > 0,
            position <= index,
            position == index - history@.len() * period,
            forall|k: int|
                0 <= k < history@.len() ==> (#[trigger] history@[k]) == index - (k + 1) * period
                    && history@[k] < index,
        decreases position,
    {
        proof {
            let n = history@.len() as int;
            let p = period as int;
            assert((n + 1) * p == n * p + p) by (nonlinear_arith);
        }
        position = position - period;
        history.push(position);
    }
    proof {
        let n = history@.len() as int;
        let p = period as int;
        assert(n * p == p * n) by (nonlinear_arith);
        lemma_fundamental_div_mod_converse(index as int, p, n, position as int);
        assert(history@ =~= seasonal_history_spec(index as int, period as int));
    }
    history
}

/// Every position of a phase lies inside the series and falls into the slot
/// of that phase.
pub proof fn lemma_phase_positions_share_slot(phase: int, len: int, season_length: int, k: int)
    requires
        0 <= phase < season_length,
        0 <= len <= usize::MAX,
        0 <= k < phase_positions_spec(phase, len, season_length).len(),
    ensures
        phase_positions_spec(phase, len, season_length)[k] < len,
        phase_positions_spec(phase, len, season_length)[k] as int % season_length == phase,
{
    let s = season_length;
    lemma_fundamental_div_mod(len, s);
    assert(phase + k * s < (len / s) * s) by (nonlinear_arith)
        requires
            0 <= k < len / s,
            0 <= phase < s,
    ;
    assert(s * (len / s) == (len / s) * s) by (nonlinear_arith);
    assert(0 <= k * s) by (nonlinear_arith)
        requires
            0 <= k,
            0 < s,
    ;
    lemma_mod_multiples_vanish(k, phase, s);
    assert(s * k + phase == phase + k * s) by (nonlinear_arith);
    lemma_small_mod(phase as nat, s as nat);
}

/// Every observation in the history of a position lies before it and shares
/// its slot.
pub proof fn lemma_history_shares_slot(index: int, period: int, k: int)
    requires
        0 <= index <= usize::MAX,
        0 <= k < seasonal_history_spec(index, period).len(),
    ensures
        period > 0,
        seasonal_history_spec(index, period)[k] < index,
        seasonal_history_spec(index, period)[k] as int % period == index % period,
{
    lemma_fundamental_div_mod(index, period);
    assert((k + 1) * period <= (index / period) * period) by (nonlinear_arith)
        requires
            0 <= k + 1 <= index / period,
            0 < period,
    ;
    assert(period * (index / period) == (index / period) * period) by (nonlinear_arith);
    assert(0 < (k + 1) * period) by (nonlinear_arith)
        requires
            0 <= k,
            0 < period,
    ;
    lemma_mod_multiples_vanish(-(k + 1), index, period);
    assert(period * (-(k + 1)) + index == index - (k + 1) * period) by (nonlinear_arith);
}

/// The observation at `index` can be judged against its season: the series
/// holds two cycles, the position lies past the first, and at least two
/// earlier observations share its phase.
pub open spec fn is_seasonal_candidate(index: int, len: int, period: int) -> bool {
    &&& has_two_cycles_spec(len, period)
    &&& period <= index < len
    &&& seasonal_history_len(index, period) >= 2
}

/// Position by position: the position itself where it is a candidate that
/// deviates from its season.
pub open spec fn seasonal_marks(period: int, deviates: Seq<bool>) -> Seq<Option<usize>> {
    Seq::new(
        deviates.len(),
        |i: int|
            if is_seasonal_candidate(i, deviates.len() as int, period) && deviates[i] {
                Some(i as usize)
            } else {
                None
            },
    )
}

/// The positions of the seasonal anomalies, in series order.
pub open spec fn seasonal_anomalies_of(period: int, deviates: Seq<bool>) -> Seq<usize> {
    present(seasonal_marks(period, deviates))
}

/// A candidate is a position of at least twice the period.
proof fn lemma_seasonal_candidate(index: int, len: int, period: int)
    requires
        0 <= index < len,
        0 <= period,
    ensures
        is_seasonal_candidate(index, len, period) <==> (period > 0 && index >= 2 * period),
{
    if period > 0 {
        lemma_fundamental_div_mod(index, period);
        let q = index / period;
        let r = index % period;
        assert(period * q == q * period) by (nonlinear_arith);
        if q >= 2 {
            assert(q * period >= 2 * period) by (nonlinear_arith)
                requires
                    q >= 2,
                    period > 0,
            ;
        } else {
            assert(q * period <= period) by (nonlinear_arith)
                requires
                    q <= 1,
                    period > 0,
            ;
        }
    }
}

/// Selects the seasonal anomalies of a series.
///
/// `deviates` says of each position whether its observation lies further from
/// the mean of its seasonal history than the allowed spread. A position is
/// reported where it is a candidate and deviates; positions that cannot be
/// judged are never reported, whatever `deviates` says of them.
pub fn detect_seasonal_anomalies(period: usize, deviates: &Vec<bool>) -> (anomalies: Vec<usize>)
    ensures
        anomalies@ == seasonal_anomalies_of(period as int, deviates@),
{
    let ghost marks = seasonal_marks(period as int, deviates@);
    let len = deviates.len();
    let mut anomalies: Vec<usize> = Vec::new();
    let mut i: usize = 0;
    while i < len
        invariant
            i <= len,
            len == deviates.len(),
            marks == seasonal_marks(period as int, deviates@),
            anomalies@ == present(marks.take(i as int)),
        decreases len - i,
    {
        proof {
            lemma_present_take_succ(marks, i as int);
            lemma_seasonal_candidate(i as int, len as int, period as int);
        }
        if period > 0 && period <= i / 2 && deviates[i] {
            anomalies.push(i);
        }
        i = i + 1;
    }
    assert(marks.take(marks.len() as int) =~= marks);
    anomalies
}

/// The seasonal report is exact: it holds the candidates that deviate, each
/// once, in series order, and nothing else.
pub proof fn lemma_seasonal_anomalies_exact(period: int, deviates: Seq<bool>)
    requires
        deviates.len() <= usize::MAX,
    ensures
        forall|k: int|
            0 <= k < seasonal_anomalies_of(period, deviates).len() ==> {
                &&& is_seasonal_candidate(
                    (#[trigger] seasonal_anomalies_of(period, deviates)[k]) as int,
                    deviates.len() as int,
                    period,
                )
                &&& deviates[seasonal_anomalies_of(period, deviates)[k] as int]
            },
        forall|j: int, k: int|
            0 <= j < k < seasonal_anomalies_of(period, deviates).len() ==> (
            #[trigger] seasonal_anomalies_of(period, deviates)[j]) < (
            #[trigger] seasonal_anomalies_of(period, deviates)[k]),
        forall|i: int|
            is_seasonal_candidate(i, deviates.len() as int, period) && (
            #[trigger] deviates[i]) ==> seasonal_anomalies_of(period, deviates).contains(
                i as usize,
            ),
{
    let marks = seasonal_marks(period, deviates);
    let report = seasonal_anomalies_of(period, deviates);
    lemma_present_keyed(marks, |p: usize| p as int);
    assert forall|k: int| 0 <= k < report.len() implies {
        &&& is_seasonal_candidate((#[trigger] report[k]) as int, deviates.len() as int, period)
        &&& deviates[report[k] as int]
    } by {
        assert(marks[report[k] as int] == Some(report[k]));
    }
    assert forall|i: int|
        is_seasonal_candidate(i, deviates.len() as int, period) && (
        #[trigger] deviates[i]) implies report.contains(i as usize) by {
        assert(marks[i].is_some());
        let k = choose|k: int| 0 <= k < report.len() && #[trigger] report[k] == marks[i].unwrap();
        assert(report[k] == i as usize);
    }
}

} // verus!
