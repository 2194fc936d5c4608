//! End-to-end scenarios of the decision engine, with a virtual monotonic
//! clock in milliseconds: one sensor per room with ten seconds of delay,
//! one switch without delay, default scene.

use light_control::configuration::{Configuration, Credentials, Sensor, Switch, SwitchCommand,
    SwitchState};
use light_control::strategy::sensor_states::SensorMemoryState;
use light_control::strategy::Strategy;
use light_control::{SensorChangeContent, SwitchChangeContent};
use light_control::configuration::SensorState;

fn sensor(topic: &str, room: &str) -> Sensor {
    Sensor {
        topic: topic.to_string(),
        key: "occupancy".to_string(),
        room: room.to_string(),
        invert_state: false,
        delay: 10,
    }
}

fn switch(topic: &str, room: &str) -> Switch {
    Switch {
        topic: topic.to_string(),
        key: "state".to_string(),
        rooms: vec![room.to_string()],
        command: SwitchCommand {
            command: "{{state}}".to_string(),
            init_command: None,
            topic: format!("{}/set", topic),
            on: "ON".to_string(),
            off: "OFF".to_string(),
        },
        delay: 0,
    }
}

fn single_room_setup() -> Strategy {
    let configuration = Configuration {
        credentials: Credentials {
            host: "".to_string(),
            user: "".to_string(),
            password: "".to_string(),
        },
        scenes: vec![],
        sensors: vec![sensor("M1", "R1")],
        switches: vec![switch("L1", "R1")],
    };
    Strategy::new(&configuration)
}

fn two_room_setup() -> Strategy {
    let configuration = Configuration {
        credentials: Credentials {
            host: "".to_string(),
            user: "".to_string(),
            password: "".to_string(),
        },
        scenes: vec![],
        sensors: vec![sensor("M1", "R1"), sensor("M2", "R2")],
        switches: vec![switch("L1", "R1"), switch("L2", "R2")],
    };
    Strategy::new(&configuration)
}

fn report(strategy: &mut Strategy, now: u64, topic: &str, state: SensorState) {
    strategy.update_sensor(
        now,
        SensorChangeContent {
            topic: topic.to_string(),
            state,
        },
    );
    strategy.calculate_current_room(now);
}

fn command(topic: &str, state: SwitchState) -> light_control::strategy::SwitchCommand {
    light_control::strategy::SwitchCommand {
        topic: topic.to_string(),
        state,
        brightness: 255,
    }
}

#[test]
fn scenario_first_presence() {
    let mut strategy = single_room_setup();
    report(&mut strategy, 0, "M1", SensorState::Present);
    let plan = strategy.trigger_commands(0, false);
    assert_eq!(plan, vec![command("L1", SwitchState::On)]);
    // the device echoes its new state
    strategy.update_switch(
        0,
        SwitchChangeContent {
            topic: "L1".to_string(),
            state: SwitchState::On,
        },
    );
    assert_eq!(strategy.room_switches[0].state, SwitchState::On);
}

#[test]
fn scenario_absence_within_delay() {
    let mut strategy = single_room_setup();
    report(&mut strategy, 0, "M1", SensorState::Present);
    strategy.trigger_commands(0, false);
    strategy.update_switch(
        0,
        SwitchChangeContent {
            topic: "L1".to_string(),
            state: SwitchState::On,
        },
    );
    // five seconds later the sensor falls silent: still within the delay
    report(&mut strategy, 5_000, "M1", SensorState::Absent);
    let plan = strategy.trigger_commands(5_000, false);
    assert!(plan.is_empty());
}

#[test]
fn scenario_absence_beyond_delay() {
    let mut strategy = single_room_setup();
    report(&mut strategy, 0, "M1", SensorState::Present);
    strategy.trigger_commands(0, false);
    strategy.update_switch(
        0,
        SwitchChangeContent {
            topic: "L1".to_string(),
            state: SwitchState::On,
        },
    );
    report(&mut strategy, 5_000, "M1", SensorState::Absent);
    strategy.trigger_commands(5_000, false);
    // at fifteen seconds the absence exactly reaches the delay: the
    // effective absence is zero, which does not exceed the switch delay
    strategy.calculate_current_room(15_000);
    let plan = strategy.trigger_commands(15_000, false);
    assert!(plan.is_empty());
    // one second later the absence exceeds the switch delay
    strategy.calculate_current_room(16_000);
    let plan = strategy.trigger_commands(16_000, false);
    assert_eq!(plan, vec![command("L1", SwitchState::Off)]);
}

#[test]
fn scenario_two_rooms_current_room_hysteresis() {
    let mut strategy = two_room_setup();
    report(&mut strategy, 0, "M1", SensorState::Present);
    assert_eq!(strategy.current_room, Some("R1".to_string()));
    // with two present rooms the election keeps its earlier choice
    report(&mut strategy, 0, "M2", SensorState::Present);
    assert_eq!(strategy.current_room, Some("R1".to_string()));
    // the first room falls silent: the one present room is elected
    report(&mut strategy, 20_000, "M1", SensorState::Absent);
    assert_eq!(strategy.current_room, Some("R2".to_string()));
    // suppose the user was last seen in the first room instead
    strategy.current_room = Some("R1".to_string());
    report(&mut strategy, 25_000, "M2", SensorState::Absent);
    // the current room's effective absence equals the threshold: retained
    assert_eq!(strategy.current_room, Some("R1".to_string()));
    // five seconds on, its absence exceeds the threshold: the election
    // moves to the room with the shorter absence
    strategy.calculate_current_room(30_000);
    assert_eq!(strategy.current_room, Some("R2".to_string()));
}

#[test]
fn scenario_scene_override() {
    let mut strategy = single_room_setup();
    report(&mut strategy, 0, "M1", SensorState::Present);
    strategy.trigger_commands(0, false);
    strategy.update_switch(
        0,
        SwitchChangeContent {
            topic: "L1".to_string(),
            state: SwitchState::On,
        },
    );
    // the night scene disables the switch; the scene change forces a
    // re-publication of every switch
    strategy.set_brightness(255);
    strategy.set_room_tracking_enabled(true);
    strategy.set_disabled_switches(vec!["L1".to_string()]);
    strategy.set_enabled_switches(vec![]);
    strategy.set_ignored_switches(vec![]);
    strategy.calculate_current_room(1_000);
    let plan = strategy.trigger_commands(1_000, true);
    assert_eq!(plan, vec![command("L1", SwitchState::Off)]);
}

#[test]
fn scenario_takeover() {
    let mut strategy = single_room_setup();
    // the sensor never sent a message; after the largest delay plus a grace
    // period, the takeover counts it as absent since startup
    strategy.replace_uninitialized_with_absents(0);
    strategy.calculate_current_room(20_000);
    let plan = strategy.trigger_commands(20_000, false);
    assert_eq!(plan, vec![command("L1", SwitchState::Off)]);
}

#[test]
fn absent_since_instant_is_stable() {
    let mut strategy = single_room_setup();
    report(&mut strategy, 0, "M1", SensorState::Present);
    report(&mut strategy, 1_000, "M1", SensorState::Absent);
    assert_eq!(
        strategy.room_sensors[0].1[0].1.state,
        SensorMemoryState::AbsentSince(1_000)
    );
    // chatty repetitions of the absence never refresh the instant
    report(&mut strategy, 5_000, "M1", SensorState::Absent);
    report(&mut strategy, 9_000, "M1", SensorState::Absent);
    assert_eq!(
        strategy.room_sensors[0].1[0].1.state,
        SensorMemoryState::AbsentSince(1_000)
    );
}

#[test]
fn takeover_is_idempotent() {
    let mut once = single_room_setup();
    report(&mut once, 0, "M1", SensorState::Present);
    let mut twice = single_room_setup();
    report(&mut twice, 0, "M1", SensorState::Present);
    once.replace_uninitialized_with_absents(2_000);
    twice.replace_uninitialized_with_absents(2_000);
    twice.replace_uninitialized_with_absents(7_000);
    for (group_once, group_twice) in once.room_sensors.iter().zip(twice.room_sensors.iter()) {
        assert_eq!(group_once.0, group_twice.0);
        for (entry_once, entry_twice) in group_once.1.iter().zip(group_twice.1.iter()) {
            assert_eq!(entry_once.0, entry_twice.0);
            assert_eq!(entry_once.1.state, entry_twice.1.state);
        }
    }
}

#[test]
fn room_is_present_while_any_sensor_is() {
    let configuration = Configuration {
        credentials: Credentials {
            host: "".to_string(),
            user: "".to_string(),
            password: "".to_string(),
        },
        scenes: vec![],
        sensors: vec![sensor("M1", "R1"), sensor("M2", "R1")],
        switches: vec![switch("L1", "R1")],
    };
    let mut strategy = Strategy::new(&configuration);
    report(&mut strategy, 0, "M1", SensorState::Absent);
    report(&mut strategy, 30_000, "M2", SensorState::Present);
    let map = strategy.get_room_state(30_000, 0);
    assert_eq!(
        map[0].1,
        light_control::strategy::sensor_states::SensorMemoryNaiveState::Present
    );
}

#[test]
fn scene_change_reasserts_every_switch_once() {
    let mut strategy = two_room_setup();
    report(&mut strategy, 0, "M1", SensorState::Present);
    report(&mut strategy, 0, "M2", SensorState::Present);
    let plan = strategy.trigger_commands(0, false);
    assert_eq!(plan.len(), 2);
    strategy.update_switch(
        0,
        SwitchChangeContent {
            topic: "L1".to_string(),
            state: SwitchState::On,
        },
    );
    strategy.update_switch(
        0,
        SwitchChangeContent {
            topic: "L2".to_string(),
            state: SwitchState::On,
        },
    );
    // without the force flag nothing material changed: the plan is empty
    let plan = strategy.trigger_commands(0, false);
    assert!(plan.is_empty());
    // a scene change forces every switch to be re-asserted exactly once
    let plan = strategy.trigger_commands(0, true);
    assert_eq!(plan.len(), 2);
    assert_eq!(plan.iter().filter(|c| c.topic == "L1").count(), 1);
    assert_eq!(plan.iter().filter(|c| c.topic == "L2").count(), 1);
}

#[test]
fn two_present_rooms_keep_the_election() {
    let mut strategy = two_room_setup();
    report(&mut strategy, 0, "M2", SensorState::Present);
    assert_eq!(strategy.current_room, Some("R2".to_string()));
    // a second present room never changes the earlier choice
    report(&mut strategy, 1_000, "M1", SensorState::Present);
    assert_eq!(strategy.current_room, Some("R2".to_string()));
}
