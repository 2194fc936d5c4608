//! A hard-wired configuration with a few rooms, motion and door sensors
//! and two switch families, handy for trying the engine without a
//! configuration file.

use vstd::prelude::*;
use vstd::string::StringExecFns;
use crate::configuration::{Configuration, Credentials, Scene, Sensor, Switch, SwitchCommand};

verus! {

/// A motion sensor: reports under the `occupancy` key, plain reading,
/// a minute of hysteresis.
pub fn create_motion_sensor(topic: &str, rooms: String) -> (r: Sensor)
    ensures
        r.topic@ == topic@,
        r.key@ == "occupancy"@,
        r.invert_state == false,
        r.delay == 60,
        r.room == rooms,
{
    Sensor {
        topic: String::from_str(topic),
        key: String::from_str("occupancy"),
        invert_state: false,
        delay: 60,
        room: rooms,
    }
}

/// A door contact: an open door means presence, so the reading is
/// inverted; two minutes of hysteresis.
pub fn create_door_sensor(topic: &str, rooms: String) -> (r: Sensor)
    ensures
        r.topic@ == topic@,
        r.key@ == "contact"@,
        r.invert_state == true,
        r.delay == 120,
        r.room == rooms,
{
    Sensor {
        topic: String::from_str(topic),
        key: String::from_str("contact"),
        invert_state: true,
        delay: 120,
        room: rooms,
    }
}

/// A dimmable light reachable under the `zigbee2mqtt/` prefix.
pub fn create_light_switch(name: &str, rooms: Vec<String>) -> (r: Switch)
    ensures
        r.topic@ == "zigbee2mqtt/"@ + name@,
        r.key@ == "state"@,
        r.rooms == rooms,
        r.delay == 0,
        r.command.topic@ == "zigbee2mqtt/"@ + name@ + "/set"@,
        r.command.command@ == "{\"state\":\"{{state}}\",\"brightness\":{{brightness}}}"@,
        r.command.init_command is None,
        r.command.on@ == "ON"@,
        r.command.off@ == "OFF"@,
{
    let mut topic = String::from_str("zigbee2mqtt/");
    topic.append(name);
    let mut command_topic = String::from_str("zigbee2mqtt/");
    command_topic.append(name);
    command_topic.append("/set");
    Switch {
        topic,
        rooms,
        key: String::from_str("state"),
        delay: 0,
        command: SwitchCommand {
            topic: command_topic,
            command: String::from_str("{\"state\":\"{{state}}\",\"brightness\":{{brightness}}}"),
            init_command: None,
            on: String::from_str("ON"),
            off: String::from_str("OFF"),
        },
    }
}

/// A Sonoff relay: reports under `stat/<name>/RESULT`, commanded over
/// `cmnd/<name>/POWER`, and asked for its state once at startup.
pub fn create_sonoff_switch(name: &str, rooms: Vec<String>) -> (r: Switch)
    ensures
        r.topic@ == "stat/"@ + name@ + "/RESULT"@,
        r.key@ == "POWER"@,
        r.rooms == rooms,
        r.delay == 0,
        r.command.topic@ == "cmnd/"@ + name@ + "/POWER"@,
        r.command.command@ == "{{state}}"@,
        r.command.init_command matches Some(init) && init@ == "(null)"@,
        r.command.on@ == "ON"@,
        r.command.off@ == "OFF"@,
{
    let mut topic = String::from_str("stat/");
    topic.append(name);
    topic.append("/RESULT");
    let mut command_topic = String::from_str("cmnd/");
    command_topic.append(name);
    command_topic.append("/POWER");
    Switch {
        topic,
        rooms,
        key: String::from_str("POWER"),
        delay: 0,
        command: SwitchCommand {
            topic: command_topic,
            command: String::from_str("{{state}}"),
            init_command: Some(String::from_str("(null)")),
            on: String::from_str("ON"),
            off: String::from_str("OFF"),
        },
    }
}

/// A fixed five-room home: nine sensors, nine switches, a default scene
/// and a dimmed night scene that shuts the bedroom and living-room relays.
pub fn hardcoded_config() -> (r: Configuration)
    ensures
        r.sensors@.len() == 9,
        r.switches@.len() == 9,
        r.scenes@.len() == 2,
        r.scenes@[0].name@ == "default"@,
        r.scenes@[0].brightness == 255,
        r.scenes@[0].room_tracking_enabled == true,
        r.scenes@[0].disabled_switches@.len() == 0,
        r.scenes@[0].enabled_switches@.len() == 0,
        r.scenes@[0].ignored_switches@.len() == 0,
        r.scenes@[0].consistent(),
        r.scenes@[1].name@ == "night"@,
        r.scenes@[1].brightness == 25,
        r.scenes@[1].room_tracking_enabled == false,
        r.scenes@[1].disabled_switches@.len() == 4,
        r.scenes@[1].enabled_switches@.len() == 0,
        r.scenes@[1].ignored_switches@.len() == 0,
        r.scenes@[1].consistent(),
        forall|i: int| 0 <= i < 9 ==> (#[trigger] r.sensors@[i]).delay == 60 || r.sensors@[i].delay == 120,
{
    let mut sensors: Vec<Sensor> = Vec::new();
    sensors.push(create_motion_sensor("zigbee2mqtt/motion_sensor_2", String::from_str("bed_room")));
    sensors.push(create_motion_sensor("zigbee2mqtt/motion_sensor_7", String::from_str("bed_room")));
    sensors.push(
        create_motion_sensor("zigbee2mqtt/motion_sensor_1", String::from_str("kitchen_room")),
    );
    sensors.push(
        create_motion_sensor("zigbee2mqtt/motion_sensor_4", String::from_str("living_room")),
    );
    sensors.push(
        create_motion_sensor("zigbee2mqtt/motion_sensor_5", String::from_str("living_room")),
    );
    sensors.push(create_motion_sensor("zigbee2mqtt/motion_sensor_5", String::from_str("bath_room")));
    sensors.push(create_motion_sensor("zigbee2mqtt/motion_sensor_8", String::from_str("bath_room")));
    sensors.push(create_door_sensor("zigbee2mqtt/door_sensor_2", String::from_str("floor_room")));
    sensors.push(create_door_sensor("zigbee2mqtt/door_sensor_4", String::from_str("floor_room")));

    let mut switches: Vec<Switch> = Vec::new();
    switches.push(create_light_switch("light_1", single_room("floor_room")));
    switches.push(create_light_switch("light_2", single_room("floor_room")));
    switches.push(create_light_switch("light_3", single_room("living_room")));
    switches.push(create_light_switch("light_4", single_room("bath_room")));
    switches.push(create_light_switch("light_8", single_room("bed_room")));
    switches.push(create_sonoff_switch("PAL01", single_room("bed_room")));
    switches.push(create_sonoff_switch("PAL03", single_room("living_room")));
    switches.push(create_sonoff_switch("PAL04", single_room("bed_room")));
    switches.push(create_sonoff_switch("PAL06", single_room("kitchen_room")));

    let mut night_disabled: Vec<String> = Vec::new();
    night_disabled.push(String::from_str("stat/PAL01/RESULT"));
    night_disabled.push(String::from_str("stat/PAL03/RESULT"));
    night_disabled.push(String::from_str("stat/PAL04/RESULT"));
    night_disabled.push(String::from_str("zigbee2mqtt/light_2"));

    let mut scenes: Vec<Scene> = Vec::new();
    scenes.push(
        Scene {
            room_tracking_enabled: true,
            name: String::from_str("default"),
            brightness: 255,
            enabled_switches: Vec::new(),
            ignored_switches: Vec::new(),
            disabled_switches: Vec::new(),
            ignored_sensors: Vec::new(),
        },
    );
    scenes.push(
        Scene {
            room_tracking_enabled: false,
            name: String::from_str("night"),
            brightness: 25,
            enabled_switches: Vec::new(),
            ignored_switches: Vec::new(),
            disabled_switches: night_disabled,
            ignored_sensors: Vec::new(),
        },
    );

    Configuration {
        credentials: Credentials {
            host: String::from_str("tcp://pepe.lan:1883"),
            user: String::from_str("homeassistant"),
            password: String::from_str("hallo"),
        },
        switches,
        sensors,
        scenes,
    }
}

/// A one-element room list.
fn single_room(room: &str) -> (r: Vec<String>)
    ensures
        r@.len() == 1,
        r@[0]@ == room@,
{
    let mut rooms: Vec<String> = Vec::new();
    rooms.push(String::from_str(room));
    rooms
}

} // verus!
