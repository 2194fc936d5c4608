//! The two state spaces of a sensor: the remembered state, anchored at a
//! monotonic instant, and its naive projection, expressed as an effective
//! absence duration.

use vstd::prelude::*;
use crate::configuration::SensorState;

verus! {

/// Remembered state of a sensor. Instants are monotonic milliseconds.
#[derive(Clone, Copy, Debug, PartialEq, Eq, Structural)]
pub enum SensorMemoryState {
    /// no report received since program start
    Uninitialized,
    /// presence reported
    Present,
    /// absent since the remembered instant
    AbsentSince(u64),
}

/// A sensor or room state projected at a virtual "now + look-ahead".
/// The duration is the effective absence already net of the sensor delay.
#[derive(Clone, Copy, Debug, PartialEq, Eq, Structural)]
pub enum SensorMemoryNaiveState {
    /// no report received since program start
    Uninitialized,
    /// present, or absent for less than the delay
    Present,
    /// absent for the given milliseconds beyond the delay
    AbsentSince(u64),
}

/// Rank of a naive state in the election order:
/// Present before any absence, any absence before Uninitialized.
pub open spec fn naive_state_rank(state: SensorMemoryNaiveState) -> int {
    match state {
        SensorMemoryNaiveState::Present => 0,
        SensorMemoryNaiveState::AbsentSince(_) => 1,
        SensorMemoryNaiveState::Uninitialized => 2,
    }
}

/// Strict order on naive states:
/// `Present < AbsentSince(small) < AbsentSince(large) < Uninitialized`.
pub open spec fn naive_state_lt(a: SensorMemoryNaiveState, b: SensorMemoryNaiveState) -> bool {
    ||| naive_state_rank(a) < naive_state_rank(b)
    ||| {
        &&& a matches SensorMemoryNaiveState::AbsentSince(da)
        &&& b matches SensorMemoryNaiveState::AbsentSince(db)
        &&& da < db
    }
}

/// The order is total: distinct states compare in exactly one direction.
pub proof fn lemma_naive_state_lt_total(a: SensorMemoryNaiveState, b: SensorMemoryNaiveState)
    ensures
        a == b <==> !naive_state_lt(a, b) && !naive_state_lt(b, a),
        !(naive_state_lt(a, b) && naive_state_lt(b, a)),
{
}

impl PartialOrd for SensorMemoryNaiveState {
    fn partial_cmp(&self, other: &Self) -> (r: Option<core::cmp::Ordering>) {
        match (self, other) {
            (SensorMemoryNaiveState::Present, SensorMemoryNaiveState::Present) => Some(
                core::cmp::Ordering::Equal,
            ),
            (SensorMemoryNaiveState::Present, _) => Some(core::cmp::Ordering::Less),
            (_, SensorMemoryNaiveState::Present) => Some(core::cmp::Ordering::Greater),
            (
                SensorMemoryNaiveState::AbsentSince(da),
                SensorMemoryNaiveState::AbsentSince(db),
            ) => if da < db {
                Some(core::cmp::Ordering::Less)
            } else if da == db {
                Some(core::cmp::Ordering::Equal)
            } else {
                Some(core::cmp::Ordering::Greater)
            },
            (
                SensorMemoryNaiveState::AbsentSince(_),
                SensorMemoryNaiveState::Uninitialized,
            ) => Some(core::cmp::Ordering::Less),
            (
                SensorMemoryNaiveState::Uninitialized,
                SensorMemoryNaiveState::AbsentSince(_),
            ) => Some(core::cmp::Ordering::Greater),
            (
                SensorMemoryNaiveState::Uninitialized,
                SensorMemoryNaiveState::Uninitialized,
            ) => Some(core::cmp::Ordering::Equal),
        }
    }
}

impl vstd::std_specs::cmp::PartialOrdSpecImpl for SensorMemoryNaiveState {
    open spec fn obeys_partial_cmp_spec() -> bool {
        true
    }

    open spec fn partial_cmp_spec(&self, other: &Self) -> Option<core::cmp::Ordering> {
        if *self == *other {
            Some(core::cmp::Ordering::Equal)
        } else if naive_state_lt(*self, *other) {
            Some(core::cmp::Ordering::Less)
        } else {
            Some(core::cmp::Ordering::Greater)
        }
    }
}

/// The remembered state after one report: an absence instant is set only on
/// the transition away from Present or Uninitialized; repeated absence
/// reports never refresh it.
pub open spec fn sensor_transition(
    prior: SensorMemoryState,
    raw: SensorState,
    instant: u64,
) -> SensorMemoryState {
    match (prior, raw) {
        (SensorMemoryState::Uninitialized, SensorState::Absent) => SensorMemoryState::AbsentSince(
            instant,
        ),
        (SensorMemoryState::Uninitialized, SensorState::Present) => SensorMemoryState::Present,
        (SensorMemoryState::AbsentSince(since), SensorState::Absent) => SensorMemoryState::AbsentSince(
            since,
        ),
        (SensorMemoryState::AbsentSince(_), SensorState::Present) => SensorMemoryState::Present,
        (SensorMemoryState::Present, SensorState::Absent) => SensorMemoryState::AbsentSince(instant),
        (SensorMemoryState::Present, SensorState::Present) => SensorMemoryState::Present,
    }
}

/// Absence instants are stable: once a report has made a sensor absent,
/// every further absence report, at any instant, leaves its remembered
/// state - and with it the absence instant - unchanged.
pub proof fn lemma_absent_since_stable(
    prior: SensorMemoryState,
    first_instant: u64,
    later_instant: u64,
)
    ensures
        sensor_transition(
            sensor_transition(prior, SensorState::Absent, first_instant),
            SensorState::Absent,
            later_instant,
        ) == sensor_transition(prior, SensorState::Absent, first_instant),
{
}

/// Apply one report to a remembered state.
pub fn apply_sensor_transition(
    prior: SensorMemoryState,
    raw: SensorState,
    instant: u64,
) -> (r: SensorMemoryState)
    ensures
        r == sensor_transition(prior, raw, instant),
{
    match (prior, raw) {
        (SensorMemoryState::Uninitialized, SensorState::Absent) => SensorMemoryState::AbsentSince(
            instant,
        ),
        (SensorMemoryState::Uninitialized, SensorState::Present) => SensorMemoryState::Present,
        (SensorMemoryState::AbsentSince(since), SensorState::Absent) => SensorMemoryState::AbsentSince(
            since,
        ),
        (SensorMemoryState::AbsentSince(_), SensorState::Present) => SensorMemoryState::Present,
        (SensorMemoryState::Present, SensorState::Absent) => SensorMemoryState::AbsentSince(
            instant,
        ),
        (SensorMemoryState::Present, SensorState::Present) => SensorMemoryState::Present,
    }
}

/// The remembered state after the one-shot takeover: a sensor that never
/// reported counts as absent since the takeover instant; every other state
/// is kept.
pub open spec fn takeover_state(state: SensorMemoryState, instant: u64) -> SensorMemoryState {
    if state is Uninitialized {
        SensorMemoryState::AbsentSince(instant)
    } else {
        state
    }
}

/// Takeover is idempotent: a second takeover, at any instant, changes
/// nothing.
pub proof fn lemma_takeover_idempotent(
    state: SensorMemoryState,
    first_instant: u64,
    later_instant: u64,
)
    ensures
        takeover_state(takeover_state(state, first_instant), later_instant) == takeover_state(
            state,
            first_instant,
        ),
{
}

} // verus!
