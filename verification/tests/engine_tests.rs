//! Tests of the plain occupancy engine, the value-typed home model and the
//! hard-wired configuration.

use light_control::configuration::{
    Configuration, Credentials, PayloadValue, Sensor, SwitchState,
};
use light_control::dummy_configuration::{
    create_door_sensor, create_light_switch, create_motion_sensor, create_sonoff_switch,
    hardcoded_config,
};
use light_control::entities;
use light_control::entities::Presents;
use light_control::state_memory::{SensorMemoryState, StateMemory};
use light_control::{SensorChangeContent, SwitchChangeContent};
use light_control::configuration::SensorState;

fn plain_sensor(topic: &str, room: &str) -> Sensor {
    Sensor {
        topic: topic.to_string(),
        key: "occupancy".to_string(),
        room: room.to_string(),
        invert_state: false,
        delay: 10,
    }
}

fn memory_setup() -> StateMemory {
    let configuration = Configuration {
        credentials: Credentials {
            host: "".to_string(),
            user: "".to_string(),
            password: "".to_string(),
        },
        scenes: vec![],
        sensors: vec![plain_sensor("motion1", "room1"), plain_sensor("motion2", "room1")],
        switches: vec![create_light_switch("light1", vec!["room1".to_string()])],
    };
    StateMemory::new(&configuration)
}

#[test]
fn state_memory_starts_absent_and_off() {
    let memory = memory_setup();
    assert_eq!(memory.room_sensors.len(), 1);
    assert_eq!(memory.room_sensors[0].0, "room1");
    assert_eq!(memory.room_sensors[0].1.len(), 2);
    for entry in memory.room_sensors[0].1.iter() {
        assert_eq!(entry.1.state, SensorMemoryState::Absent);
    }
    assert_eq!(memory.room_switches.len(), 1);
    assert_eq!(memory.room_switches[0].state, SwitchState::Off);
    // nothing is present, every switch already off: nothing to do
    assert!(memory.trigger_commands().is_empty());
}

#[test]
fn state_memory_presence_turns_switch_on() {
    let mut memory = memory_setup();
    memory.update_sensor(
        1_000,
        SensorChangeContent {
            topic: "motion1".to_string(),
            state: SensorState::Present,
        },
    );
    let commands = memory.trigger_commands();
    assert_eq!(commands.len(), 1);
    assert_eq!(commands[0].topic, "zigbee2mqtt/light1");
    assert_eq!(commands[0].state, SwitchState::On);
    // the device echoes the new state; nothing is left to do
    memory.update_switch(
        1_000,
        SwitchChangeContent {
            topic: "zigbee2mqtt/light1".to_string(),
            state: SwitchState::On,
        },
    );
    assert!(memory.trigger_commands().is_empty());
}

#[test]
fn state_memory_absence_keeps_instant() {
    let mut memory = memory_setup();
    memory.update_sensor(
        1_000,
        SensorChangeContent {
            topic: "motion1".to_string(),
            state: SensorState::Present,
        },
    );
    memory.update_sensor(
        2_000,
        SensorChangeContent {
            topic: "motion1".to_string(),
            state: SensorState::Absent,
        },
    );
    memory.update_sensor(
        9_000,
        SensorChangeContent {
            topic: "motion1".to_string(),
            state: SensorState::Absent,
        },
    );
    assert_eq!(
        memory.room_sensors[0].1[0].1.state,
        SensorMemoryState::AbsentSince(2_000)
    );
}

fn small_home() -> entities::Home {
    entities::Home {
        rooms: vec![
            (
                "room1".to_string(),
                entities::Room {
                    sensors: vec![entities::Sensor {
                        topic: "motion1".to_string(),
                        key: "occupancy".to_string(),
                        presents_negator: false,
                    }],
                    switches: vec![entities::Switch {
                        topic: "light1".to_string(),
                    }],
                },
            ),
            (
                "room2".to_string(),
                entities::Room {
                    sensors: vec![entities::Sensor {
                        topic: "door1".to_string(),
                        key: "contact".to_string(),
                        presents_negator: true,
                    }],
                    switches: vec![],
                },
            ),
        ],
    }
}

#[test]
fn entities_configuration_routes_topics() {
    let configuration = entities::Configuration::new(small_home());
    assert_eq!(configuration.name, "test-setup");
    assert_eq!(configuration.presents.len(), 2);
    assert_eq!(configuration.presents[0], ("room1".to_string(), Presents::Absent));
    assert_eq!(configuration.presents[1], ("room2".to_string(), Presents::Absent));
    assert_eq!(
        configuration.topic_to_room,
        vec![
            ("light1".to_string(), "room1".to_string()),
            ("motion1".to_string(), "room1".to_string()),
            ("door1".to_string(), "room2".to_string()),
        ]
    );
    assert_eq!(configuration.get_topics(), vec!["motion1", "light1", "door1"]);
    let sensor = configuration.get_sensor_for_topic("door1".to_string()).unwrap();
    assert_eq!(sensor.key, "contact");
    assert!(sensor.presents_negator);
    assert!(configuration.get_sensor_for_topic("light1".to_string()).is_none());
    let switch = configuration.get_switch_for_topic("light1".to_string()).unwrap();
    assert_eq!(switch.topic, "light1");
    assert!(configuration.get_switch_for_topic("motion1".to_string()).is_none());
}

#[test]
fn entities_presence_decoding() {
    assert_eq!(Presents::negate(Presents::Present), Presents::Absent);
    assert_eq!(Presents::negate(Presents::Absent), Presents::Present);
    assert_eq!(
        Presents::json_value_to_presents(PayloadValue::Bool(true)),
        Some(Presents::Present)
    );
    assert_eq!(
        Presents::json_value_to_presents(PayloadValue::Text("On".to_string())),
        Some(Presents::Present)
    );
    assert_eq!(
        Presents::json_value_to_presents(PayloadValue::Text("open".to_string())),
        Some(Presents::Absent)
    );
    assert_eq!(Presents::json_value_to_presents(PayloadValue::Other), None);
}

#[test]
fn dummy_configuration_is_consistent() {
    let configuration = hardcoded_config();
    assert_eq!(configuration.sensors.len(), 9);
    assert_eq!(configuration.switches.len(), 9);
    assert_eq!(configuration.scenes.len(), 2);
    assert_eq!(configuration.scenes[0].name, "default");
    assert_eq!(configuration.scenes[1].name, "night");
    assert_eq!(configuration.scenes[1].brightness, 25);
    for scene in configuration.scenes.iter() {
        assert!(scene.verify().is_ok());
    }
    assert_eq!(configuration.get_min_sensor_delay(), 60);
    assert_eq!(configuration.get_max_sensor_delay(), 120);
}

#[test]
fn dummy_builders_shape_devices() {
    let motion = create_motion_sensor("zigbee2mqtt/motion_sensor_1", "kitchen_room".to_string());
    assert_eq!(motion.key, "occupancy");
    assert!(!motion.invert_state);
    assert_eq!(motion.delay, 60);
    let door = create_door_sensor("zigbee2mqtt/door_sensor_2", "floor_room".to_string());
    assert_eq!(door.key, "contact");
    assert!(door.invert_state);
    assert_eq!(door.delay, 120);
    let light = create_light_switch("light_1", vec!["floor_room".to_string()]);
    assert_eq!(light.topic, "zigbee2mqtt/light_1");
    assert_eq!(light.command.topic, "zigbee2mqtt/light_1/set");
    assert!(light.command.init_command.is_none());
    let sonoff = create_sonoff_switch("PAL01", vec!["bed_room".to_string()]);
    assert_eq!(sonoff.topic, "stat/PAL01/RESULT");
    assert_eq!(sonoff.command.topic, "cmnd/PAL01/POWER");
    assert_eq!(sonoff.command.init_command, Some("(null)".to_string()));
}
