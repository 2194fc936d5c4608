//! Tests of the decision engine: room states, ignored sensors and the
//! command planner. Instants are monotonic milliseconds.

use light_control::configuration::{Configuration, Credentials, Scene, Sensor, SwitchState};
use light_control::dummy_configuration::create_light_switch;
use light_control::strategy::{Strategy, SwitchCommand};
use light_control::strategy::sensor_states::{SensorMemoryNaiveState, SensorMemoryState};

fn create_sensor(topic: &str, rooms: String, delay: u64) -> Sensor {
    Sensor {
        topic: topic.to_string(),
        key: "occupancy".to_string(),
        invert_state: false,
        delay,
        room: rooms,
    }
}

fn create_test_setup() -> Strategy {
    create_test_setup_with_scene(vec![])
}

fn create_test_setup_with_scene(scenes: Vec<Scene>) -> Strategy {
    let configuration = Configuration {
        credentials: Credentials {
            host: "".to_string(),
            user: "".to_string(),
            password: "".to_string(),
        },
        scenes,
        sensors: vec![
            create_sensor("motion1", "room1".to_string(), 10),
            create_sensor("motion2", "room1".to_string(), 10),
        ],
        switches: vec![create_light_switch("light1", vec!["room1".to_string()])],
    };
    let strategy = Strategy::new(&configuration);

    // test if sensors are proper initialized
    let map = strategy.get_room_state(0, 0);
    let room1 = lookup(&map, "room1");
    assert!(room1.is_some());
    assert_eq!(
        SensorMemoryNaiveState::Uninitialized,
        room1.unwrap(),
        "room1 is not uninitialised"
    );
    strategy
}

fn lookup(
    map: &Vec<(String, SensorMemoryNaiveState)>,
    room: &str,
) -> Option<SensorMemoryNaiveState> {
    for (name, state) in map.iter() {
        if name == room {
            return Some(*state);
        }
    }
    None
}

fn set_sensor_state(strategy: &mut Strategy, room: &str, topic: &str, state: SensorMemoryState) {
    let mut found = false;
    for group in strategy.room_sensors.iter_mut() {
        if group.0 == room {
            for entry in group.1.iter_mut() {
                if entry.0 == topic {
                    entry.1.state = state;
                    found = true;
                }
            }
        }
    }
    assert!(found);
}

#[test]
fn test_instant_arithmetic() {
    // an instant taken 20 seconds in the past
    let instant: u64 = 0;
    let now: u64 = 20_001;
    let elapsed = now - instant;
    assert!(elapsed - 10_000 > 10_000);
    assert!(elapsed - 10_000 < 11_000);
}

#[test]
fn test_get_room_state_absent() {
    let mut strategy = create_test_setup();
    // absent since 60 seconds; the sensor delay is 10 seconds
    set_sensor_state(&mut strategy, "room1", "motion1", SensorMemoryState::AbsentSince(0));
    let map = strategy.get_room_state(60_001, 0);
    match lookup(&map, "room1").expect("should never happen") {
        SensorMemoryNaiveState::AbsentSince(duration) => {
            assert!(duration < 51_000);
            assert!(duration > 50_000);
        }
        _ => panic!("should never happen"),
    }
}

#[test]
fn test_get_room_state_absent_and_delay() {
    let mut strategy = create_test_setup();
    // absent since 2 seconds, still within the 10 second delay
    set_sensor_state(&mut strategy, "room1", "motion1", SensorMemoryState::AbsentSince(0));
    let map = strategy.get_room_state(2_001, 0);
    assert_eq!(SensorMemoryNaiveState::Present, lookup(&map, "room1").unwrap());
}

#[test]
fn test_get_room_state_absent_and_delay_with_previous_state() {
    let mut strategy = create_test_setup();
    // a stale cached room state must not influence the fresh computation
    strategy.room_state = vec![(
        "room1".to_string(),
        SensorMemoryNaiveState::AbsentSince(5_000),
    )];
    set_sensor_state(&mut strategy, "room1", "motion1", SensorMemoryState::AbsentSince(0));
    let map = strategy.get_room_state(2_001, 0);
    assert_eq!(SensorMemoryNaiveState::Present, lookup(&map, "room1").unwrap());
}

#[test]
fn test_get_room_state_present() {
    let mut strategy = create_test_setup();
    set_sensor_state(&mut strategy, "room1", "motion1", SensorMemoryState::Present);
    let map = strategy.get_room_state(12_001, 0);
    assert_eq!(SensorMemoryNaiveState::Present, lookup(&map, "room1").unwrap());
}

#[test]
fn test_get_room_state_ignored_sensors() {
    let scene = Scene {
        name: "test".to_string(),
        brightness: 255,
        disabled_switches: vec![],
        enabled_switches: vec![],
        ignored_switches: vec![],
        room_tracking_enabled: false,
        ignored_sensors: vec!["motion1".to_string()],
    };
    let mut strategy = create_test_setup_with_scene(vec![scene]);
    set_sensor_state(&mut strategy, "room1", "motion1", SensorMemoryState::Present);
    let map = strategy.get_room_state(0, 0);
    match lookup(&map, "room1").unwrap() {
        SensorMemoryNaiveState::Uninitialized => {}
        _ => panic!("should never happen"),
    }
}

#[test]
fn test_get_room_state_ignore_all_sensors_in_room() {
    let scene = Scene {
        name: "test".to_string(),
        brightness: 255,
        disabled_switches: vec![],
        enabled_switches: vec![],
        ignored_switches: vec![],
        room_tracking_enabled: false,
        ignored_sensors: vec!["motion1".to_string(), "motion2".to_string()],
    };
    let mut strategy = create_test_setup_with_scene(vec![scene]);
    set_sensor_state(&mut strategy, "room1", "motion1", SensorMemoryState::Present);
    set_sensor_state(&mut strategy, "room1", "motion2", SensorMemoryState::Present);
    let map = strategy.get_room_state(0, 0);
    match lookup(&map, "room1").unwrap() {
        SensorMemoryNaiveState::Uninitialized => {}
        _ => panic!("should never happen"),
    }
}

#[test]
fn test_get_room_state_ignore_one_sensors_in_room_with_presents() {
    let scene = Scene {
        name: "test".to_string(),
        brightness: 255,
        disabled_switches: vec![],
        enabled_switches: vec![],
        ignored_switches: vec![],
        room_tracking_enabled: false,
        ignored_sensors: vec!["motion1".to_string()],
    };
    let mut strategy = create_test_setup_with_scene(vec![scene]);
    set_sensor_state(&mut strategy, "room1", "motion1", SensorMemoryState::Present);
    set_sensor_state(&mut strategy, "room1", "motion2", SensorMemoryState::Present);
    let map = strategy.get_room_state(0, 0);
    match lookup(&map, "room1").unwrap() {
        SensorMemoryNaiveState::Present => {}
        _ => panic!("should never happen"),
    }
}

#[test]
fn test_trigger_command1() {
    let mut strategy = create_test_setup();
    let commands = strategy.trigger_commands(0, false);
    assert!(commands.is_empty());
}

#[test]
fn test_trigger_command2() {
    let mut strategy = create_test_setup();
    strategy.set_enabled_switches(vec!["zigbee2mqtt/light1".to_string()]);
    let commands = strategy.trigger_commands(0, false);
    assert!(!commands.is_empty());
    assert_eq!(
        commands.get(0).unwrap(),
        &SwitchCommand {
            topic: "zigbee2mqtt/light1".to_string(),
            state: SwitchState::On,
            brightness: 255,
        }
    )
}

#[test]
fn test_trigger_command3() {
    let mut strategy = create_test_setup();
    strategy.set_disabled_switches(vec!["zigbee2mqtt/light1".to_string()]);
    let commands = strategy.trigger_commands(0, false);
    assert!(!commands.is_empty());
    assert_eq!(
        commands.get(0).unwrap(),
        &SwitchCommand {
            topic: "zigbee2mqtt/light1".to_string(),
            state: SwitchState::Off,
            brightness: 255,
        }
    )
}

#[test]
fn test_trigger_command4() {
    let mut strategy = create_test_setup();
    strategy.current_room = Some("room1".to_string());
    set_sensor_state(&mut strategy, "room1", "motion1", SensorMemoryState::Present);
    let commands = strategy.trigger_commands(0, false);
    assert!(!commands.is_empty());
    assert_eq!(
        commands.get(0).unwrap(),
        &SwitchCommand {
            topic: "zigbee2mqtt/light1".to_string(),
            state: SwitchState::On,
            brightness: 255,
        }
    );
    strategy.set_ignored_switches(vec!["zigbee2mqtt/light1".to_string()]);
    let commands = strategy.trigger_commands(0, false);
    assert!(commands.is_empty());
}
