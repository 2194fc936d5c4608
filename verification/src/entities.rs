//! An earlier, value-typed model of the home: rooms own their sensors and
//! switches, and a flat configuration is derived from the home for quick
//! lookups.

use vstd::prelude::*;
use vstd::string::StringExecFns;
use crate::configuration::PayloadValue;

verus! {

/// A sensor generates inputs, like door open/close or motion detected.
pub struct Sensor {
    pub topic: String,
    /// payload key to read the state from
    pub key: String,
    /// some sensors send false on presence; this negates the decoded state
    pub presents_negator: bool,
}

/// A switch receives commands, like lights on/off.
pub struct Switch {
    pub topic: String,
}

/// A room and its devices.
pub struct Room {
    pub sensors: Vec<Sensor>,
    pub switches: Vec<Switch>,
}

/// A home: named rooms.
pub struct Home {
    pub rooms: Vec<(String, Room)>,
}

/// Whether presence is detected.
#[derive(Clone, Copy, Debug, PartialEq, Eq, Structural)]
pub enum Presents {
    /// presence is detected
    Present,
    /// absence is detected
    Absent,
}

/// The derived lights configuration: per-room presence, topic-to-room
/// routing and flat device lists.
pub struct Configuration {
    /// name of this setup
    pub name: String,
    /// home configuration as the user entered it
    pub home: Home,
    /// whether presence is detected, per room
    pub presents: Vec<(String, Presents)>,
    /// device topic to room
    pub topic_to_room: Vec<(String, String)>,
    pub all_sensors: Vec<Sensor>,
    pub all_switch: Vec<Switch>,
}

/// The topics of one room: its sensors' first, then its switches'.
pub open spec fn spec_room_topics(room: Room) -> Seq<String> {
    room.sensors@.map_values(|s: Sensor| s.topic) + room.switches@.map_values(
        |w: Switch| w.topic,
    )
}

/// The topics of a home: each room's topics, in room order.
pub open spec fn spec_home_topics(rooms: Seq<(String, Room)>) -> Seq<String>
    decreases rooms.len(),
{
    if rooms.len() == 0 {
        Seq::empty()
    } else {
        spec_home_topics(rooms.drop_last()) + spec_room_topics(rooms.last().1)
    }
}

/// Every sensor of a home, in room order.
pub open spec fn spec_all_sensors(rooms: Seq<(String, Room)>) -> Seq<Sensor>
    decreases rooms.len(),
{
    if rooms.len() == 0 {
        Seq::empty()
    } else {
        spec_all_sensors(rooms.drop_last()) + rooms.last().1.sensors@
    }
}

/// Every switch of a home, in room order.
pub open spec fn spec_all_switches(rooms: Seq<(String, Room)>) -> Seq<Switch>
    decreases rooms.len(),
{
    if rooms.len() == 0 {
        Seq::empty()
    } else {
        spec_all_switches(rooms.drop_last()) + rooms.last().1.switches@
    }
}

/// The topic-to-room routing of a home: per room, its switch topics first,
/// then its sensor topics, each paired with the room name.
pub open spec fn spec_topic_to_room(rooms: Seq<(String, Room)>) -> Seq<(String, String)>
    decreases rooms.len(),
{
    if rooms.len() == 0 {
        Seq::empty()
    } else {
        let last = rooms.last();
        spec_topic_to_room(rooms.drop_last()) + last.1.switches@.map_values(
            |w: Switch| (w.topic, last.0),
        ) + last.1.sensors@.map_values(|s: Sensor| (s.topic, last.0))
    }
}

/// `i` is the position of the first sensor listening on `topic`.
pub open spec fn first_entity_sensor_match(sensors: Seq<Sensor>, topic: Seq<char>, i: int) -> bool {
    &&& 0 <= i < sensors.len()
    &&& sensors[i].topic@ == topic
    &&& forall|j: int| 0 <= j < i ==> (#[trigger] sensors[j]).topic@ != topic
}

/// `i` is the position of the first switch listening on `topic`.
pub open spec fn first_entity_switch_match(switches: Seq<Switch>, topic: Seq<char>, i: int) -> bool {
    &&& 0 <= i < switches.len()
    &&& switches[i].topic@ == topic
    &&& forall|j: int| 0 <= j < i ==> (#[trigger] switches[j]).topic@ != topic
}

impl Room {
    /// The topics of this room's devices: sensors first, then switches.
    pub fn get_topics(&self) -> (r: Vec<String>)
        ensures
            r@ == spec_room_topics(*self),
    {
        let mut topics: Vec<String> = Vec::new();
        let mut i: usize = 0;
        while i < self.sensors.len()
            invariant
                0 <= i <= self.sensors@.len(),
                topics@.len() == i,
                forall|j: int| 0 <= j < i ==> topics@[j] == (#[trigger] self.sensors@[j]).topic,
            decreases self.sensors@.len() - i,
        {
            topics.push(self.sensors[i].topic.clone());
            i = i + 1;
        }
        let mut k: usize = 0;
        while k < self.switches.len()
            invariant
                0 <= k <= self.switches@.len(),
                topics@.len() == self.sensors@.len() + k,
                forall|j: int|
                    0 <= j < self.sensors@.len() ==> topics@[j] == (
                    #[trigger] self.sensors@[j]).topic,
                forall|j: int|
                    0 <= j < k ==> topics@[self.sensors@.len() + j] == (
                    #[trigger] self.switches@[j]).topic,
            decreases self.switches@.len() - k,
        {
            topics.push(self.switches[k].topic.clone());
            k = k + 1;
        }
        proof {
            assert(topics@ =~= spec_room_topics(*self));
        }
        topics
    }
}

impl Home {
    /// The topics of every device of the home, in room order.
    pub fn get_topics(&self) -> (r: Vec<String>)
        ensures
            r@ == spec_home_topics(self.rooms@),
    {
        let mut topics: Vec<String> = Vec::new();
        let mut i: usize = 0;
        while i < self.rooms.len()
            invariant
                0 <= i <= self.rooms@.len(),
                topics@ == spec_home_topics(self.rooms@.take(i as int)),
            decreases self.rooms@.len() - i,
        {
            proof {
                assert(self.rooms@.take(i + 1).drop_last() =~= self.rooms@.take(i as int));
            }
            let mut room_topics = self.rooms[i].1.get_topics();
            topics.append(&mut room_topics);
            i = i + 1;
        }
        proof {
            assert(self.rooms@.take(self.rooms@.len() as int) =~= self.rooms@);
        }
        topics
    }
}

/// Copy a sensor, keeping the fields.
fn clone_sensor(sensor: &Sensor) -> (r: Sensor)
    ensures
        r == *sensor,
{
    Sensor {
        topic: sensor.topic.clone(),
        key: sensor.key.clone(),
        presents_negator: sensor.presents_negator,
    }
}

/// Copy a switch, keeping the fields.
fn clone_switch(switch: &Switch) -> (r: Switch)
    ensures
        r == *switch,
{
    Switch { topic: switch.topic.clone() }
}

impl Configuration {
    /// Derive the flat configuration from a home: every room starts absent,
    /// and every device topic routes to its room.
    pub fn new(home: Home) -> (result: Configuration)
        ensures
            result.name@ == "test-setup"@,
            result.home == home,
            result.presents@ == Seq::new(home.rooms@.len(), |i: int| (home.rooms@[i].0, Presents::Absent)),
            result.topic_to_room@ == spec_topic_to_room(home.rooms@),
            result.all_sensors@ == spec_all_sensors(home.rooms@),
            result.all_switch@ == spec_all_switches(home.rooms@),
    {
        let mut presents: Vec<(String, Presents)> = Vec::new();
        let mut topic_to_room: Vec<(String, String)> = Vec::new();
        let mut all_sensors: Vec<Sensor> = Vec::new();
        let mut all_switch: Vec<Switch> = Vec::new();

        let mut i: usize = 0;
        while i < home.rooms.len()
            invariant
                0 <= i <= home.rooms@.len(),
                presents@.len() == i,
                forall|j: int|
                    0 <= j < i ==> #[trigger] presents@[j] == (
                    home.rooms@[j].0,
                    Presents::Absent,
                ),
                topic_to_room@ == spec_topic_to_room(home.rooms@.take(i as int)),
                all_sensors@ == spec_all_sensors(home.rooms@.take(i as int)),
                all_switch@ == spec_all_switches(home.rooms@.take(i as int)),
            decreases home.rooms@.len() - i,
        {
            proof {
                assert(home.rooms@.take(i + 1).drop_last() =~= home.rooms@.take(i as int));
            }
            let ghost old_routes = topic_to_room@;
            let ghost old_sensors = all_sensors@;
            let ghost old_switches = all_switch@;
            let room_name = &home.rooms[i].0;
            let room = &home.rooms[i].1;
            presents.push((room_name.clone(), Presents::Absent));
            let mut k: usize = 0;
            while k < room.switches.len()
                invariant
                    0 <= k <= room.switches@.len(),
                    room == &home.rooms@[i as int].1,
                    room_name == &home.rooms@[i as int].0,
                    topic_to_room@.len() == old_routes.len() + k,
                    forall|j: int| 0 <= j < old_routes.len() ==> topic_to_room@[j] == old_routes[j],
                    forall|j: int|
                        0 <= j < k ==> topic_to_room@[old_routes.len() + j] == ((
                        #[trigger] room.switches@[j]).topic, home.rooms@[i as int].0),
                    all_switch@.len() == old_switches.len() + k,
                    forall|j: int| 0 <= j < old_switches.len() ==> all_switch@[j] == old_switches[j],
                    forall|j: int|
                        0 <= j < k ==> all_switch@[old_switches.len() + j] == (
                        #[trigger] room.switches@[j]),
                decreases room.switches@.len() - k,
            {
                topic_to_room.push((room.switches[k].topic.clone(), room_name.clone()));
                all_switch.push(clone_switch(&room.switches[k]));
                k = k + 1;
            }
            let mut k: usize = 0;
            let ghost routes_after_switches = topic_to_room@;
            while k < room.sensors.len()
                invariant
                    0 <= k <= room.sensors@.len(),
                    room == &home.rooms@[i as int].1,
                    room_name == &home.rooms@[i as int].0,
                    topic_to_room@.len() == routes_after_switches.len() + k,
                    forall|j: int|
                        0 <= j < routes_after_switches.len() ==> topic_to_room@[j]
                            == routes_after_switches[j],
                    forall|j: int|
                        0 <= j < k ==> topic_to_room@[routes_after_switches.len() + j] == ((
                        #[trigger] room.sensors@[j]).topic, home.rooms@[i as int].0),
                    all_sensors@.len() == old_sensors.len() + k,
                    forall|j: int| 0 <= j < old_sensors.len() ==> all_sensors@[j] == old_sensors[j],
                    forall|j: int|
                        0 <= j < k ==> all_sensors@[old_sensors.len() + j] == (
                        #[trigger] room.sensors@[j]),
                decreases room.sensors@.len() - k,
            {
                topic_to_room.push((room.sensors[k].topic.clone(), room_name.clone()));
                all_sensors.push(clone_sensor(&room.sensors[k]));
                k = k + 1;
            }
            proof {
                assert(topic_to_room@ =~= spec_topic_to_room(home.rooms@.take(i + 1)));
                assert(all_sensors@ =~= spec_all_sensors(home.rooms@.take(i + 1)));
                assert(all_switch@ =~= spec_all_switches(home.rooms@.take(i + 1)));
            }
            i = i + 1;
        }
        proof {
            assert(home.rooms@.take(home.rooms@.len() as int) =~= home.rooms@);
        }
        let result = Configuration {
            name: String::from_str("test-setup"),
            presents,
            topic_to_room,
            all_sensors,
            all_switch,
            home,
        };
        proof {
            assert(result.presents@ =~= Seq::new(
                result.home.rooms@.len(),
                |i: int| (result.home.rooms@[i].0, Presents::Absent),
            ));
        }
        result
    }

    /// The topics of every device of the home.
    pub fn get_topics(&self) -> (r: Vec<String>)
        ensures
            r@ == spec_home_topics(self.home.rooms@),
    {
        self.home.get_topics()
    }

    /// The first sensor listening on `topic`, if any.
    pub fn get_sensor_for_topic(&self, topic: String) -> (r: Option<Sensor>)
        ensures
            match r {
                Some(sensor) => exists|i: int|
                    #![auto]
                    first_entity_sensor_match(self.all_sensors@, topic@, i) && sensor
                        == self.all_sensors@[i],
                None => forall|i: int|
                    0 <= i < self.all_sensors@.len() ==> (#[trigger] self.all_sensors@[i]).topic@
                        != topic@,
            },
    {
        let mut i: usize = 0;
        while i < self.all_sensors.len()
            invariant
                0 <= i <= self.all_sensors@.len(),
                forall|j: int| 0 <= j < i ==> (#[trigger] self.all_sensors@[j]).topic@ != topic@,
            decreases self.all_sensors@.len() - i,
        {
            if self.all_sensors[i].topic.eq(&topic) {
                return Some(clone_sensor(&self.all_sensors[i]));
            }
            i = i + 1;
        }
        None
    }

    /// The first switch listening on `topic`, if any.
    pub fn get_switch_for_topic(&self, topic: String) -> (r: Option<Switch>)
        ensures
            match r {
                Some(switch) => exists|i: int|
                    #![auto]
                    first_entity_switch_match(self.all_switch@, topic@, i) && switch
                        == self.all_switch@[i],
                None => forall|i: int|
                    0 <= i < self.all_switch@.len() ==> (#[trigger] self.all_switch@[i]).topic@
                        != topic@,
            },
    {
        let mut i: usize = 0;
        while i < self.all_switch.len()
            invariant
                0 <= i <= self.all_switch@.len(),
                forall|j: int| 0 <= j < i ==> (#[trigger] self.all_switch@[j]).topic@ != topic@,
            decreases self.all_switch@.len() - i,
        {
            if self.all_switch[i].topic.eq(&topic) {
                return Some(clone_switch(&self.all_switch[i]));
            }
            i = i + 1;
        }
        None
    }
}

/// What `Presents::negate` returns.
pub open spec fn spec_negate_presents(presents: Presents) -> Presents {
    match presents {
        Presents::Absent => Presents::Present,
        Presents::Present => Presents::Absent,
    }
}

/// The presence the engine decodes from one payload value: booleans map
/// directly, strings case-insensitively equal to "on" mean presence, any
/// other string means absence, anything else is undecodable.
pub open spec fn spec_presents_of_value(value: PayloadValue) -> Option<Presents> {
    match value {
        PayloadValue::Bool(b) => if b {
            Some(Presents::Present)
        } else {
            Some(Presents::Absent)
        },
        PayloadValue::Text(s) => if crate::configuration::spec_is_on_string(s@) {
            Some(Presents::Present)
        } else {
            Some(Presents::Absent)
        },
        PayloadValue::Other => None,
    }
}

impl Presents {
    /// The opposite reading, for sensors that report inverted.
    pub fn negate(presents: Presents) -> (r: Presents)
        ensures
            r == spec_negate_presents(presents),
    {
        match presents {
            Presents::Absent => Presents::Present,
            Presents::Present => Presents::Absent,
        }
    }

    /// Decode a payload value into a presence, if it is decodable.
    pub fn json_value_to_presents(value: PayloadValue) -> (r: Option<Presents>)
        ensures
            r == spec_presents_of_value(value),
    {
        match value {
            PayloadValue::Bool(state) => if state {
                Some(Presents::Present)
            } else {
                Some(Presents::Absent)
            },
            PayloadValue::Text(state) => if crate::configuration::is_on_string(&state) {
                Some(Presents::Present)
            } else {
                Some(Presents::Absent)
            },
            PayloadValue::Other => None,
        }
    }
}

} // verus!
