//! Per-sensor memory: the configured absence delay and the remembered
//! state, with the hysteresis-aware projection to a naive state.

use vstd::prelude::*;
use crate::strategy::sensor_states::{SensorMemoryNaiveState, SensorMemoryState};

verus! {

/// Memory the engine keeps for one sensor.
pub struct SensorMemory {
    /// milliseconds an absence must persist before it counts
    pub delay: u64,
    /// last remembered state
    pub state: SensorMemoryState,
}

/// Milliseconds elapsed from `instant` to `now`, zero for instants that lie
/// in the future.
pub open spec fn spec_elapsed(instant: u64, now: u64) -> int {
    if now >= instant {
        now - instant
    } else {
        0
    }
}

/// The naive state of a sensor at `now`, looking `look_ahead` milliseconds
/// into the future: an absence projects as Present while the effective
/// absence `elapsed + look_ahead` is still below the delay, and as
/// `AbsentSince(elapsed + look_ahead - delay)` once it is not.
pub open spec fn spec_naive_state(
    state: SensorMemoryState,
    delay: u64,
    now: u64,
    look_ahead: u64,
) -> SensorMemoryNaiveState {
    match state {
        SensorMemoryState::Uninitialized => SensorMemoryNaiveState::Uninitialized,
        SensorMemoryState::Present => SensorMemoryNaiveState::Present,
        SensorMemoryState::AbsentSince(instant) => {
            let effective = spec_elapsed(instant, now) + look_ahead;
            if effective < delay {
                SensorMemoryNaiveState::Present
            } else {
                SensorMemoryNaiveState::AbsentSince((effective - delay) as u64)
            }
        },
    }
}

/// Hysteresis lower bound: a sensor whose effective absence is still below
/// its delay projects as Present.
pub proof fn lemma_hysteresis_lower_bound(
    instant: u64,
    delay: u64,
    now: u64,
    look_ahead: u64,
)
    requires
        spec_elapsed(instant, now) + look_ahead < delay,
    ensures
        spec_naive_state(SensorMemoryState::AbsentSince(instant), delay, now, look_ahead)
            == SensorMemoryNaiveState::Present,
{
}

impl SensorMemory {
    /// Project the remembered state at `now`, looking `look_ahead`
    /// milliseconds into the future.
    pub fn get_naive_state(&self, now: u64, look_ahead: u64) -> (r: SensorMemoryNaiveState)
        requires
            now + look_ahead <= u64::MAX,
        ensures
            r == spec_naive_state(self.state, self.delay, now, look_ahead),
    {
        match self.state {
            SensorMemoryState::Uninitialized => SensorMemoryNaiveState::Uninitialized,
            SensorMemoryState::Present => SensorMemoryNaiveState::Present,
            SensorMemoryState::AbsentSince(instant) => {
                let elapsed: u64 = if now >= instant {
                    now - instant
                } else {
                    0
                };
                let effective: u64 = elapsed + look_ahead;
                if effective < self.delay {
                    SensorMemoryNaiveState::Present
                } else {
                    SensorMemoryNaiveState::AbsentSince(effective - self.delay)
                }
            },
        }
    }
}

} // verus!
