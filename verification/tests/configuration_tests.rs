//! Tests of the configuration types: command rendering, scene validation
//! and payload decoding.

use light_control::configuration::{
    template_supported, Configuration, Credentials, Payload, PayloadValue, Scene, Sensor,
    SensorState, SwitchCommand, SwitchState,
};

#[test]
fn test_get_topic_and_command() {
    let switch_command = SwitchCommand {
        command: r#"{"test":{{state}}}"#.to_string(),
        init_command: None,
        topic: "test/test/test".to_string(),
        on: "1".to_string(),
        off: "0".to_string(),
    };
    let (topic, command) = switch_command.get_topic_and_command(SwitchState::On, 123).unwrap();
    assert_eq!(topic, "test/test/test");
    assert_eq!(command, r#"{"test":1}"#);
    let (topic, command) = switch_command.get_topic_and_command(SwitchState::Off, 123).unwrap();
    assert_eq!(topic, "test/test/test");
    assert_eq!(command, r#"{"test":0}"#);
}

#[test]
fn test_get_topic_and_command2() {
    let switch_command = SwitchCommand {
        command: r#"{"state":"{{state}}","brightness":{{brightness}}}"#.to_string(),
        init_command: None,
        topic: "lights/light_1/set".to_string(),
        on: "ON".to_string(),
        off: "OFF".to_string(),
    };
    let (topic, command) = switch_command.get_topic_and_command(SwitchState::On, 123).unwrap();
    assert_eq!(topic, "lights/light_1/set");
    assert_eq!(command, r#"{"state":"ON","brightness":123}"#);
    let (topic, command) = switch_command.get_topic_and_command(SwitchState::Off, 123).unwrap();
    assert_eq!(topic, "lights/light_1/set");
    assert_eq!(command, r#"{"state":"OFF","brightness":123}"#);
}

#[test]
fn test_verify1() {
    let scene = Scene {
        name: "".to_string(),
        brightness: 0,
        disabled_switches: vec!["test1".to_string()],
        enabled_switches: vec!["test2".to_string()],
        ignored_switches: vec!["test3".to_string()],
        room_tracking_enabled: false,
        ignored_sensors: vec![],
    };
    match scene.verify() {
        Err(_) => panic!("verification failed but it shouldn't"),
        Ok(_) => {}
    }
}

#[test]
fn test_verify2() {
    let scene = Scene {
        name: "".to_string(),
        brightness: 0,
        disabled_switches: vec!["test1".to_string()],
        enabled_switches: vec!["test1".to_string()],
        ignored_switches: vec!["test3".to_string()],
        room_tracking_enabled: false,
        ignored_sensors: vec![],
    };
    match scene.verify() {
        Ok(_) => panic!("verification successful but it shouldn't"),
        Err(_) => {}
    }
}

#[test]
fn test_verify3() {
    let scene = Scene {
        name: "".to_string(),
        brightness: 0,
        disabled_switches: vec!["test1".to_string()],
        enabled_switches: vec!["test2".to_string()],
        ignored_switches: vec!["test2".to_string()],
        room_tracking_enabled: false,
        ignored_sensors: vec![],
    };
    match scene.verify() {
        Ok(_) => panic!("verification successful but it shouldn't"),
        Err(_) => {}
    }
}

#[test]
fn test_verify4() {
    let scene = Scene {
        name: "".to_string(),
        brightness: 0,
        disabled_switches: vec!["test1".to_string()],
        enabled_switches: vec!["test2".to_string()],
        ignored_switches: vec!["test1".to_string()],
        room_tracking_enabled: false,
        ignored_sensors: vec![],
    };
    match scene.verify() {
        Ok(_) => panic!("verification successful but it shouldn't"),
        Err(_) => {}
    }
}

#[test]
fn test_template_supported() {
    // ordinary placeholder templates are covered by the rendering contract
    assert!(template_supported(r#"{"state":"{{state}}","brightness":{{brightness}}}"#));
    assert!(template_supported("{{state}}"));
    assert!(template_supported("{{a.b}}"));
    assert!(template_supported(""));
    // partial tags read a file from disk; delimiter changes could hide one
    assert!(!template_supported("{{> part}}"));
    assert!(!template_supported("a {{=<% %>=}} b"));
    // implicit-dot tags resolve to the whole data map and abort the engine
    assert!(!template_supported("{{.}}"));
    assert!(!template_supported("{{ . }}"));
    assert!(!template_supported("{{&.}}"));
    assert!(!template_supported("{{& . }}"));
    assert!(!template_supported("{{{.}}}"));
    assert!(!template_supported("{{{ . }}}"));
}

#[test]
fn test_decode_sensor_state_values() {
    assert_eq!(
        SensorState::json_value_to_sensor_state(&PayloadValue::Bool(true)),
        Some(SensorState::Present)
    );
    assert_eq!(
        SensorState::json_value_to_sensor_state(&PayloadValue::Bool(false)),
        Some(SensorState::Absent)
    );
    assert_eq!(
        SensorState::json_value_to_sensor_state(&PayloadValue::Text("ON".to_string())),
        Some(SensorState::Present)
    );
    assert_eq!(
        SensorState::json_value_to_sensor_state(&PayloadValue::Text("oN".to_string())),
        Some(SensorState::Present)
    );
    assert_eq!(
        SensorState::json_value_to_sensor_state(&PayloadValue::Text("off".to_string())),
        Some(SensorState::Absent)
    );
    assert_eq!(SensorState::json_value_to_sensor_state(&PayloadValue::Other), None);
}

#[test]
fn test_decode_switch_state_values() {
    assert_eq!(
        SwitchState::json_value_to_switch_state(&PayloadValue::Bool(true)),
        Some(SwitchState::On)
    );
    assert_eq!(
        SwitchState::json_value_to_switch_state(&PayloadValue::Text("on".to_string())),
        Some(SwitchState::On)
    );
    assert_eq!(
        SwitchState::json_value_to_switch_state(&PayloadValue::Text("anything".to_string())),
        Some(SwitchState::Off)
    );
    assert_eq!(SwitchState::json_value_to_switch_state(&PayloadValue::Other), None);
}

fn one_sensor_config(invert_state: bool) -> Configuration {
    Configuration {
        credentials: Credentials {
            host: "".to_string(),
            user: "".to_string(),
            password: "".to_string(),
        },
        scenes: vec![],
        sensors: vec![Sensor {
            topic: "zigbee2mqtt/door_1".to_string(),
            key: "contact".to_string(),
            room: "room1".to_string(),
            invert_state,
            delay: 10,
        }],
        switches: vec![],
    }
}

#[test]
fn test_update_sensor_for_topic_inverts() {
    let configuration = one_sensor_config(true);
    let payload = Payload {
        entries: vec![("contact".to_string(), PayloadValue::Bool(true))],
    };
    let update = configuration.get_update_sensor_for_topic("zigbee2mqtt/door_1", &payload);
    assert_eq!(update, Some(("zigbee2mqtt/door_1".to_string(), SensorState::Absent)));
}

#[test]
fn test_update_sensor_for_topic_missing_key() {
    let configuration = one_sensor_config(false);
    let payload = Payload {
        entries: vec![("occupancy".to_string(), PayloadValue::Bool(true))],
    };
    assert_eq!(configuration.get_update_sensor_for_topic("zigbee2mqtt/door_1", &payload), None);
}

#[test]
fn test_update_sensor_for_unknown_topic() {
    let configuration = one_sensor_config(false);
    let payload = Payload {
        entries: vec![("contact".to_string(), PayloadValue::Bool(true))],
    };
    assert_eq!(configuration.get_update_sensor_for_topic("zigbee2mqtt/other", &payload), None);
}

#[test]
fn test_min_max_sensor_delay() {
    let mut configuration = one_sensor_config(false);
    configuration.sensors.push(Sensor {
        topic: "zigbee2mqtt/motion_9".to_string(),
        key: "occupancy".to_string(),
        room: "room2".to_string(),
        invert_state: false,
        delay: 90,
    });
    assert_eq!(configuration.get_min_sensor_delay(), 10);
    assert_eq!(configuration.get_max_sensor_delay(), 90);
    assert_eq!(configuration.get_topics().len(), 2);
}
