//! Decision engine of a presence-driven lighting controller.
//!
//! The engine ingests timestamped sensor and switch events from a message
//! bus, maintains a per-room occupancy model with delay-based hysteresis,
//! elects a single "current room", and plans minimal sets of switch
//! commands that reconcile the actual switch states with the desired ones.
//!
//! All timestamps and durations are monotonic milliseconds supplied by the
//! caller; the engine never reads a clock of its own, so every run is
//! deterministic and replayable.

use vstd::prelude::*;

pub mod configuration;
pub mod dummy_configuration;
pub mod entities;
pub mod state_memory;
pub mod strategy;

use crate::configuration::{Scene, SensorState, SwitchState};

verus! {

/// Command accepted on the light-control topic: switches to the named scene.
pub struct LightControlSetCommand {
    /// change the scene to the given scene name
    pub scene: Option<String>,
}

/// An inbound bus message recorded for deterministic replay.
pub struct ReplayMessage {
    pub topic: String,
    pub payload: String,
}

/// An outbound bus message handed to the publisher.
pub struct PublishMessage {
    pub topic: String,
    pub payload: String,
}

/// A sensor reported a new raw state at the given monotonic instant.
pub struct SensorChangeContent {
    pub topic: String,
    pub state: SensorState,
}

/// A switch echoed its own state at the given monotonic instant.
pub struct SwitchChangeContent {
    pub topic: String,
    pub state: SwitchState,
}

/// The events the decision engine consumes, in arrival order.
///
/// Instants are monotonic milliseconds supplied by the producer.
pub enum UpdateMessage {
    /// Apply a scene snapshot and re-assert every switch.
    SceneChange(Scene),
    /// A switch echoed its state.
    SwitchChange(u64, SwitchChangeContent),
    /// A sensor reported a state.
    SensorChange(u64, SensorChangeContent),
    /// Periodic pulse that re-runs the planner so absence timers can expire.
    Ping,
    /// One-shot takeover: every still-uninitialized sensor becomes absent
    /// as of the given instant.
    Deinit(u64),
}

} // verus!
