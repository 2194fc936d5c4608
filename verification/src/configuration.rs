//! Static configuration of the controller: sensors, switches and scenes,
//! together with the decoding of flat key/value payloads into sensor and
//! switch states.

use vstd::prelude::*;
use vstd::string::StrSliceExecFns;
use vstd::string::StringExecFns;

verus! {

/// Connection settings for the message bus. The engine itself never reads
/// them; they are carried for the adapters.
pub struct Credentials {
    pub host: String,
    pub user: String,
    pub password: String,
}

/// A sensor produces inputs, like door open/close or motion detected.
///
/// Only payloads that are flat key/value objects are understood.
pub struct Sensor {
    /// topic to listen to
    pub topic: String,
    /// payload key to read the state from
    pub key: String,
    /// the one room this sensor reports presence for
    pub room: String,
    /// some sensors send false on presence; this negates the decoded state
    pub invert_state: bool,
    /// seconds an absent report must persist before the sensor counts as absent
    pub delay: u64,
}

/// Raw presence state decoded from a sensor payload.
#[derive(Clone, Copy, Debug, PartialEq, Eq, Structural)]
pub enum SensorState {
    /// presence is detected
    Present,
    /// absence is detected
    Absent,
}

/// A switch receives commands, like lights on/off.
pub struct Switch {
    /// unique topic on which the switch reports its state
    pub topic: String,
    /// payload key to read the reported state from
    pub key: String,
    /// rooms this switch lights
    pub rooms: Vec<String>,
    /// how to command the device
    pub command: SwitchCommand,
    /// seconds to wait before turning the switch off once its room is absent
    pub delay: u64,
}

/// How to publish a command to a switch.
pub struct SwitchCommand {
    /// template for the command payload, with `{{state}}` and
    /// `{{brightness}}` placeholders
    pub command: String,
    /// command that asks the device to report its state, sent once at startup
    pub init_command: Option<String>,
    /// topic to send commands under
    pub topic: String,
    /// string sent for the state placeholder to turn the switch on
    pub on: String,
    /// string sent for the state placeholder to turn the switch off
    pub off: String,
}

/// Last known state of a switch.
#[derive(Clone, Copy, Debug, PartialEq, Eq, Structural)]
pub enum SwitchState {
    Unknown,
    On,
    Off,
}

/// A named overlay that forces, suppresses or ignores switches and sensors
/// and sets the brightness.
pub struct Scene {
    pub name: String,
    /// brightness for every command while this scene is active
    pub brightness: u8,
    /// switch topics forced off
    pub disabled_switches: Vec<String>,
    /// switch topics forced on
    pub enabled_switches: Vec<String>,
    /// switch topics for which no command is emitted
    pub ignored_switches: Vec<String>,
    /// whether the current room keeps its switches on
    pub room_tracking_enabled: bool,
    /// sensor topics treated as absent from the configuration
    pub ignored_sensors: Vec<String>,
}

/// The whole controller configuration.
pub struct Configuration {
    pub credentials: Credentials,
    pub scenes: Vec<Scene>,
    pub sensors: Vec<Sensor>,
    pub switches: Vec<Switch>,
}

/// Raised when a scene assigns one switch topic to two of its sets.
#[derive(Debug)]
pub struct ConfigurationError {}

/// A value read from a flat key/value payload, as far as the engine
/// interprets it: a boolean, a string, or anything else (which no state
/// can be decoded from). A missing key reads as `Other`.
#[derive(Debug)]
pub enum PayloadValue {
    Bool(bool),
    Text(String),
    Other,
}

/// A decoded flat key/value payload.
pub struct Payload {
    pub entries: Vec<(String, PayloadValue)>,
}

/// Whether some element of `v` has the character content `t`.
pub open spec fn contains_string(v: Seq<String>, t: Seq<char>) -> bool {
    exists|i: int| 0 <= i < v.len() && v[i]@ == t
}

/// Linear search for a string by content.
pub fn vec_contains_string(v: &Vec<String>, t: &String) -> (r: bool)
    ensures
        r == contains_string(v@, t@),
{
    let mut i: usize = 0;
    while i < v.len()
        invariant
            0 <= i <= v@.len(),
            forall|j: int| 0 <= j < i ==> v@[j]@ != t@,
        decreases v@.len() - i,
    {
        if v[i].eq(t) {
            return true;
        }
        i = i + 1;
    }
    false
}

/// Copy a vector of strings, keeping the contents.
pub fn clone_string_vec(v: &Vec<String>) -> (r: Vec<String>)
    ensures
        r@ == v@,
{
    let mut r: Vec<String> = Vec::new();
    let mut i: usize = 0;
    while i < v.len()
        invariant
            0 <= i <= v@.len(),
            r@.len() == i,
            forall|j: int| 0 <= j < i ==> r@[j] == v@[j],
        decreases v@.len() - i,
    {
        r.push(v[i].clone());
        i = i + 1;
    }
    proof {
        assert(r@ =~= v@);
    }
    r
}

/// `i` is the position of the first sensor listening on `topic`.
pub open spec fn first_sensor_match(sensors: Seq<Sensor>, topic: Seq<char>, i: int) -> bool {
    &&& 0 <= i < sensors.len()
    &&& sensors[i].topic@ == topic
    &&& forall|j: int| 0 <= j < i ==> sensors[j].topic@ != topic
}

/// `i` is the position of the first switch reporting on `topic`.
pub open spec fn first_switch_match(switches: Seq<Switch>, topic: Seq<char>, i: int) -> bool {
    &&& 0 <= i < switches.len()
    &&& switches[i].topic@ == topic
    &&& forall|j: int| 0 <= j < i ==> switches[j].topic@ != topic
}

/// `i` is the position of the first scene called `name`.
pub open spec fn first_scene_match(scenes: Seq<Scene>, name: Seq<char>, i: int) -> bool {
    &&& 0 <= i < scenes.len()
    &&& scenes[i].name@ == name
    &&& forall|j: int| 0 <= j < i ==> scenes[j].name@ != name
}

/// Largest configured sensor delay, in seconds; 0 without sensors.
pub open spec fn spec_max_sensor_delay(sensors: Seq<Sensor>) -> u64
    decreases sensors.len(),
{
    if sensors.len() == 0 {
        0
    } else {
        let m = spec_max_sensor_delay(sensors.drop_last());
        if sensors.last().delay > m {
            sensors.last().delay
        } else {
            m
        }
    }
}

/// Smallest configured sensor delay, in seconds; 0 without sensors.
pub open spec fn spec_min_sensor_delay(sensors: Seq<Sensor>) -> u64
    decreases sensors.len(),
{
    if sensors.len() == 0 {
        0
    } else {
        let m = spec_min_sensor_delay(sensors.drop_last());
        let d = sensors.last().delay;
        if sensors.len() == 1 {
            d
        } else if d < m {
            d
        } else {
            m
        }
    }
}

impl Configuration {
    /// The largest sensor delay, which bounds how long the startup takeover
    /// has to wait.
    pub fn get_max_sensor_delay(&self) -> (result: u64)
        ensures
            result == spec_max_sensor_delay(self.sensors@),
    {
        let mut result: u64 = 0;
        let mut i: usize = 0;
        while i < self.sensors.len()
            invariant
                0 <= i <= self.sensors@.len(),
                result == spec_max_sensor_delay(self.sensors@.take(i as int)),
            decreases self.sensors@.len() - i,
        {
            proof {
                assert(self.sensors@.take(i + 1).drop_last() =~= self.sensors@.take(i as int));
            }
            if result < self.sensors[i].delay {
                result = self.sensors[i].delay;
            }
            i = i + 1;
        }
        proof {
            assert(self.sensors@.take(self.sensors@.len() as int) =~= self.sensors@);
        }
        result
    }

    /// The smallest sensor delay, which becomes the tracker's look-ahead.
    pub fn get_min_sensor_delay(&self) -> (result: u64)
        ensures
            result == spec_min_sensor_delay(self.sensors@),
    {
        let mut result: u64 = 0;
        let mut i: usize = 0;
        while i < self.sensors.len()
            invariant
                0 <= i <= self.sensors@.len(),
                result == spec_min_sensor_delay(self.sensors@.take(i as int)),
            decreases self.sensors@.len() - i,
        {
            proof {
                assert(self.sensors@.take(i + 1).drop_last() =~= self.sensors@.take(i as int));
            }
            let d = self.sensors[i].delay;
            if i == 0 || d < result {
                result = d;
            }
            i = i + 1;
        }
        proof {
            assert(self.sensors@.take(self.sensors@.len() as int) =~= self.sensors@);
        }
        result
    }

    /// The first sensor configured for `topic`, if any.
    pub fn get_sensor_for_topic(&self, topic: String) -> (r: Option<&Sensor>)
        ensures
            match r {
                Some(s) => exists|i: int|
                    #![auto]
                    first_sensor_match(self.sensors@, topic@, i) && *s == self.sensors@[i],
                None => forall|i: int|
                    0 <= i < self.sensors@.len() ==> self.sensors@[i].topic@ != topic@,
            },
    {
        let mut i: usize = 0;
        while i < self.sensors.len()
            invariant
                0 <= i <= self.sensors@.len(),
                forall|j: int| 0 <= j < i ==> self.sensors@[j].topic@ != topic@,
            decreases self.sensors@.len() - i,
        {
            if self.sensors[i].topic.eq(&topic) {
                return Some(&self.sensors[i]);
            }
            i = i + 1;
        }
        None
    }

    /// The first scene called `name`, if any.
    pub fn get_scene(&self, name: &String) -> (r: Option<&Scene>)
        ensures
            match r {
                Some(s) => exists|i: int|
                    #![auto]
                    first_scene_match(self.scenes@, name@, i) && *s == self.scenes@[i],
                None => forall|i: int|
                    0 <= i < self.scenes@.len() ==> self.scenes@[i].name@ != name@,
            },
    {
        let mut i: usize = 0;
        while i < self.scenes.len()
            invariant
                0 <= i <= self.scenes@.len(),
                forall|j: int| 0 <= j < i ==> self.scenes@[j].name@ != name@,
            decreases self.scenes@.len() - i,
        {
            if self.scenes[i].name.eq(name) {
                return Some(&self.scenes[i]);
            }
            i = i + 1;
        }
        None
    }

    /// The first switch configured for `topic`, if any.
    pub fn get_switch_for_topic(&self, topic: String) -> (r: Option<&Switch>)
        ensures
            match r {
                Some(s) => exists|i: int|
                    #![auto]
                    first_switch_match(self.switches@, topic@, i) && *s == self.switches@[i],
                None => forall|i: int|
                    0 <= i < self.switches@.len() ==> self.switches@[i].topic@ != topic@,
            },
    {
        let mut i: usize = 0;
        while i < self.switches.len()
            invariant
                0 <= i <= self.switches@.len(),
                forall|j: int| 0 <= j < i ==> self.switches@[j].topic@ != topic@,
            decreases self.switches@.len() - i,
        {
            if self.switches[i].topic.eq(&topic) {
                return Some(&self.switches[i]);
            }
            i = i + 1;
        }
        None
    }

    /// All topics to subscribe to: every sensor topic, then every switch topic.
    pub fn get_topics(&self) -> (r: Vec<String>)
        ensures
            r@.len() == self.sensors@.len() + self.switches@.len(),
            forall|i: int|
                0 <= i < self.sensors@.len() ==> r@[i]@ == self.sensors@[i].topic@,
            forall|i: int|
                0 <= i < self.switches@.len() ==> r@[self.sensors@.len() + i]@
                    == self.switches@[i].topic@,
    {
        let mut topics: Vec<String> = Vec::new();
        let mut i: usize = 0;
        while i < self.sensors.len()
            invariant
                0 <= i <= self.sensors@.len(),
                topics@.len() == i,
                forall|j: int| 0 <= j < i ==> topics@[j]@ == self.sensors@[j].topic@,
            decreases self.sensors@.len() - i,
        {
            topics.push(self.sensors[i].topic.clone());
            i = i + 1;
        }
        let mut k: usize = 0;
        while k < self.switches.len()
            invariant
                0 <= k <= self.switches@.len(),
                topics@.len() == self.sensors@.len() + k,
                forall|j: int| 0 <= j < self.sensors@.len() ==> topics@[j]@ == self.sensors@[j].topic@,
                forall|j: int|
                    0 <= j < k ==> topics@[self.sensors@.len() + j]@ == self.switches@[j].topic@,
            decreases self.switches@.len() - k,
        {
            topics.push(self.switches[k].topic.clone());
            k = k + 1;
        }
        topics
    }
}

/// The state the engine decodes from one payload value: booleans map
/// directly, strings case-insensitively equal to "on" mean presence, any
/// other string means absence, and anything else is undecodable.
pub open spec fn spec_sensor_state_of_value(value: PayloadValue) -> Option<SensorState> {
    match value {
        PayloadValue::Bool(b) => if b {
            Some(SensorState::Present)
        } else {
            Some(SensorState::Absent)
        },
        PayloadValue::Text(s) => if spec_is_on_string(s@) {
            Some(SensorState::Present)
        } else {
            Some(SensorState::Absent)
        },
        PayloadValue::Other => None,
    }
}

/// The characters spell "on" up to ASCII case.
pub open spec fn spec_is_on_string(s: Seq<char>) -> bool {
    s.len() == 2 && (s[0] == 'o' || s[0] == 'O') && (s[1] == 'n' || s[1] == 'N')
}

/// Case-insensitive comparison with the two-letter word "on".
pub fn is_on_string(s: &String) -> (r: bool)
    ensures
        r == spec_is_on_string(s@),
{
    let st: &str = s.as_str();
    if st.unicode_len() != 2 {
        return false;
    }
    let c0 = st.get_char(0);
    let c1 = st.get_char(1);
    (c0 == 'o' || c0 == 'O') && (c1 == 'n' || c1 == 'N')
}

impl SensorState {
    /// The opposite reading, for sensors that report inverted.
    pub fn negate(presents: SensorState) -> (r: SensorState)
        ensures
            r == spec_negate_sensor_state(presents),
    {
        match presents {
            SensorState::Absent => SensorState::Present,
            SensorState::Present => SensorState::Absent,
        }
    }

    /// Decode a payload value into a sensor state, if it is decodable.
    pub fn json_value_to_sensor_state(value: &PayloadValue) -> (r: Option<SensorState>)
        ensures
            r == spec_sensor_state_of_value(*value),
    {
        match value {
            PayloadValue::Bool(state) => if *state {
                Some(SensorState::Present)
            } else {
                Some(SensorState::Absent)
            },
            PayloadValue::Text(state) => if is_on_string(state) {
                Some(SensorState::Present)
            } else {
                Some(SensorState::Absent)
            },
            PayloadValue::Other => None,
        }
    }
}

/// What `SensorState::negate` returns.
pub open spec fn spec_negate_sensor_state(presents: SensorState) -> SensorState {
    match presents {
        SensorState::Absent => SensorState::Present,
        SensorState::Present => SensorState::Absent,
    }
}

/// The switch state the engine decodes from one payload value, mirroring
/// the sensor decoding with On/Off in place of Present/Absent.
pub open spec fn spec_switch_state_of_value(value: PayloadValue) -> Option<SwitchState> {
    match value {
        PayloadValue::Bool(b) => if b {
            Some(SwitchState::On)
        } else {
            Some(SwitchState::Off)
        },
        PayloadValue::Text(s) => if spec_is_on_string(s@) {
            Some(SwitchState::On)
        } else {
            Some(SwitchState::Off)
        },
        PayloadValue::Other => None,
    }
}

impl SwitchState {
    /// Decode a payload value into a switch state, if it is decodable.
    pub fn json_value_to_switch_state(value: &PayloadValue) -> (r: Option<SwitchState>)
        ensures
            r == spec_switch_state_of_value(*value),
    {
        match value {
            PayloadValue::Bool(state) => if *state {
                Some(SwitchState::On)
            } else {
                Some(SwitchState::Off)
            },
            PayloadValue::Text(state) => if is_on_string(state) {
                Some(SwitchState::On)
            } else {
                Some(SwitchState::Off)
            },
            PayloadValue::Other => None,
        }
    }
}

/// The value stored under `key`, first occurrence; `Other` when missing,
/// which decodes to nothing, exactly as a missing key should.
pub open spec fn spec_payload_lookup(entries: Seq<(String, PayloadValue)>, key: Seq<char>) -> PayloadValue
    decreases entries.len(),
{
    if entries.len() == 0 {
        PayloadValue::Other
    } else if entries[0].0@ == key {
        entries[0].1
    } else {
        spec_payload_lookup(entries.drop_first(), key)
    }
}

impl Payload {
    /// Read the value stored under `key`; a missing key reads as `Other`.
    pub fn get(&self, key: &String) -> (r: &PayloadValue)
        ensures
            *r == spec_payload_lookup(self.entries@, key@),
    {
        let mut i: usize = 0;
        proof {
            assert(self.entries@.skip(0) =~= self.entries@);
        }
        while i < self.entries.len()
            invariant
                0 <= i <= self.entries@.len(),
                spec_payload_lookup(self.entries@, key@) == spec_payload_lookup(
                    self.entries@.skip(i as int),
                    key@,
                ),
            decreases self.entries@.len() - i,
        {
            proof {
                assert(self.entries@.skip(i as int)[0] == self.entries@[i as int]);
                assert(self.entries@.skip(i as int).drop_first() =~= self.entries@.skip(i + 1));
            }
            if self.entries[i].0.eq(key) {
                return &self.entries[i].1;
            }
            i = i + 1;
        }
        &PayloadValue::Other
    }
}

/// Sensor update derived from a payload for the sensor at the matched
/// position: the configured key is read, decoded, and inverted when the
/// sensor asks for it.
pub open spec fn spec_sensor_update(sensor: Sensor, entries: Seq<(String, PayloadValue)>) -> Option<
    (String, SensorState),
> {
    match spec_sensor_state_of_value(spec_payload_lookup(entries, sensor.key@)) {
        None => None,
        Some(state) => Some(
            (
                sensor.topic,
                if sensor.invert_state {
                    spec_negate_sensor_state(state)
                } else {
                    state
                },
            ),
        ),
    }
}

/// Switch update derived from a payload for the switch at the matched
/// position.
pub open spec fn spec_switch_update(switch: Switch, entries: Seq<(String, PayloadValue)>) -> Option<
    (String, SwitchState),
> {
    match spec_switch_state_of_value(spec_payload_lookup(entries, switch.key@)) {
        None => None,
        Some(state) => Some((switch.topic, state)),
    }
}

impl Configuration {
    /// Decode a sensor update from an inbound message: find the sensor for
    /// the topic, read its key, decode and possibly invert the state.
    /// An unknown topic or an undecodable value yields nothing.
    pub fn get_update_sensor_for_topic(&self, topic: &str, payload: &Payload) -> (r: Option<
        (String, SensorState),
    >)
        ensures
            (forall|i: int| 0 <= i < self.sensors@.len() ==> self.sensors@[i].topic@ != topic@)
                ==> r is None,
            forall|i: int|
                first_sensor_match(self.sensors@, topic@, i) ==> r == spec_sensor_update(
                    self.sensors@[i],
                    payload.entries@,
                ),
    {
        let sensor = match self.get_sensor_for_topic(topic.to_owned()) {
            None => {
                return None;
            },
            Some(sensor) => sensor,
        };
        let value = payload.get(&sensor.key);
        let presents = SensorState::json_value_to_sensor_state(value);
        match presents {
            None => None,
            Some(state) => {
                let state = if sensor.invert_state {
                    SensorState::negate(state)
                } else {
                    state
                };
                Some((sensor.topic.clone(), state))
            },
        }
    }

    /// Decode a switch update from an inbound message: find the switch for
    /// the topic, read its key and decode the state.
    pub fn get_update_switch_for_topic(&self, topic: &str, payload: &Payload) -> (r: Option<
        (String, SwitchState),
    >)
        ensures
            (forall|i: int| 0 <= i < self.switches@.len() ==> self.switches@[i].topic@ != topic@)
                ==> r is None,
            forall|i: int|
                first_switch_match(self.switches@, topic@, i) ==> r == spec_switch_update(
                    self.switches@[i],
                    payload.entries@,
                ),
    {
        let switch = match self.get_switch_for_topic(topic.to_owned()) {
            None => {
                return None;
            },
            Some(switch) => switch,
        };
        let value = payload.get(&switch.key);
        let state = SwitchState::json_value_to_switch_state(value);
        match state {
            None => None,
            Some(state) => Some((switch.topic.clone(), state)),
        }
    }
}

impl Sensor {
    /// Sensors report plainly unless configured otherwise.
    pub fn default_invert_state() -> (r: bool)
        ensures
            r == false,
    {
        false
    }

    /// A minute of hysteresis, unless configured otherwise.
    pub fn default_delay() -> (r: u64)
        ensures
            r == 60,
    {
        60
    }
}

impl Switch {
    /// Switches turn off as soon as their rooms are absent, unless
    /// configured otherwise.
    pub fn default_delay() -> (r: u64)
        ensures
            r == 0,
    {
        0
    }
}

impl SwitchCommand {
    /// State string that turns a switch on, unless configured otherwise.
    pub fn default_on() -> (r: String)
        ensures
            r@ == "ON"@,
    {
        String::from_str("ON")
    }

    /// State string that turns a switch off, unless configured otherwise.
    pub fn default_off() -> (r: String)
        ensures
            r@ == "OFF"@,
    {
        String::from_str("OFF")
    }
}

impl Scene {
    /// Full brightness, unless the scene sets one.
    pub fn default_brightness() -> (r: u8)
        ensures
            r == 255,
    {
        255
    }

    /// Room tracking is on, unless the scene turns it off.
    pub fn default_room_tracking_enabled() -> (r: bool)
        ensures
            r == true,
    {
        true
    }

    /// Whether the scene assigns no switch topic to two of its three sets.
    pub open spec fn consistent(self) -> bool {
        &&& spec_disjoint_strings(self.disabled_switches@, self.enabled_switches@)
        &&& spec_disjoint_strings(self.disabled_switches@, self.ignored_switches@)
        &&& spec_disjoint_strings(self.enabled_switches@, self.ignored_switches@)
    }

    /// Check that the disabled, enabled and ignored switch sets are
    /// pairwise disjoint; overlapping sets are a fatal configuration error.
    pub fn verify(&self) -> (r: Result<(), ConfigurationError>)
        ensures
            r is Ok <==> self.consistent(),
    {
        if vecs_share_string(&self.disabled_switches, &self.enabled_switches) {
            return Err(ConfigurationError {});
        }
        if vecs_share_string(&self.disabled_switches, &self.ignored_switches) {
            return Err(ConfigurationError {});
        }
        if vecs_share_string(&self.enabled_switches, &self.ignored_switches) {
            return Err(ConfigurationError {});
        }
        Ok(())
    }
}

/// The template opens no partial tag and no set-delimiter tag: it never
/// contains `{{` followed by `>` or by `=`. A partial tag makes the
/// template engine splice in a file read from disk, and a delimiter change
/// would let a partial be spelled with other delimiters; without either,
/// the default delimiters stay in force and rendering reads nothing but
/// the template and the inserted strings.
pub open spec fn spec_template_self_contained(template: Seq<char>) -> bool {
    forall|i: int|
        #![trigger template[i]]
        0 <= i && i + 3 <= template.len() ==> !(template[i] == '{' && template[i + 1] == '{' && (
        template[i + 2] == '>' || template[i + 2] == '='))
}

/// The Unicode white-space characters, the set str::trim removes and the
/// template engine trims from tag names.
pub open spec fn spec_template_whitespace(c: char) -> bool {
    ||| (0x9 <= c as u32 && c as u32 <= 0xD)
    ||| c as u32 == 0x20
    ||| c as u32 == 0x85
    ||| c as u32 == 0xA0
    ||| c as u32 == 0x1680
    ||| (0x2000 <= c as u32 && c as u32 <= 0x200A)
    ||| c as u32 == 0x2028
    ||| c as u32 == 0x2029
    ||| c as u32 == 0x202F
    ||| c as u32 == 0x205F
    ||| c as u32 == 0x3000
}

/// From position `j`: white space, then a lone `.`, then white space, then
/// `count` closing braces. This is the body of an implicit-dot tag, whose
/// value is the whole data map rather than a string.
pub open spec fn spec_implicit_dot_from(template: Seq<char>, j: int, count: int) -> bool
    decreases template.len() - j,
{
    if j < 0 || j >= template.len() {
        false
    } else if template[j] == '.' {
        spec_braces_after_ws(template, j + 1, count)
    } else if spec_template_whitespace(template[j]) {
        spec_implicit_dot_from(template, j + 1, count)
    } else {
        false
    }
}

/// From position `j`: white space, then `count` closing braces.
pub open spec fn spec_braces_after_ws(template: Seq<char>, j: int, count: int) -> bool
    decreases template.len() - j,
{
    if j < 0 || j > template.len() {
        false
    } else if j + count <= template.len() && (forall|p: int|
        j <= p < j + count ==> #[trigger] template[p] == '}') {
        true
    } else if j < template.len() && spec_template_whitespace(template[j]) {
        spec_braces_after_ws(template, j + 1, count)
    } else {
        false
    }
}

/// An implicit-dot tag opens at position `i`: `{{.}}`, `{{&.}}` or
/// `{{{.}}}`, with any white space around the dot. The engine resolves such
/// a tag to the whole data map and aborts on it instead of rendering.
pub open spec fn spec_implicit_dot_tag_at(template: Seq<char>, i: int) -> bool {
    &&& 0 <= i && i + 2 <= template.len()
    &&& template[i] == '{'
    &&& template[i + 1] == '{'
    &&& {
        ||| spec_implicit_dot_from(template, i + 2, 2)
        ||| (i + 3 <= template.len() && template[i + 2] == '&' && spec_implicit_dot_from(
            template,
            i + 3,
            2,
        ))
        ||| (i + 3 <= template.len() && template[i + 2] == '{' && spec_implicit_dot_from(
            template,
            i + 3,
            3,
        ))
    }
}

/// The templates the rendering contract covers: self-contained, so that the
/// engine reads no file and the result is a function of the strings alone,
/// and free of implicit-dot tags, on which the engine would abort.
pub open spec fn spec_template_supported(template: Seq<char>) -> bool {
    &&& spec_template_self_contained(template)
    &&& forall|i: int| !(#[trigger] spec_implicit_dot_tag_at(template, i))
}

/// Whether `c` is a white-space character in the template engine's sense.
fn template_whitespace(c: char) -> (r: bool)
    ensures
        r == spec_template_whitespace(c),
{
    let code = c as u32;
    (0x9 <= code && code <= 0xD) || code == 0x20 || code == 0x85 || code == 0xA0 || code == 0x1680
        || (0x2000 <= code && code <= 0x200A) || code == 0x2028 || code == 0x2029 || code == 0x202F
        || code == 0x205F || code == 0x3000
}

/// Scan for an implicit-dot tag body starting at `start`.
fn implicit_dot_from(template: &str, len: usize, start: usize, count: usize) -> (r: bool)
    requires
        len == template@.len(),
        start <= len,
        count >= 1,
    ensures
        r == spec_implicit_dot_from(template@, start as int, count as int),
{
    let mut j = start;
    while j < len && template_whitespace(template.get_char(j))
        invariant
            len == template@.len(),
            start <= j <= len,
            spec_implicit_dot_from(template@, start as int, count as int)
                == spec_implicit_dot_from(template@, j as int, count as int),
        decreases len - j,
    {
        j = j + 1;
    }
    if j >= len {
        return false;
    }
    if template.get_char(j) != '.' {
        return false;
    }
    let mut m = j + 1;
    while m < len && template_whitespace(template.get_char(m))
        invariant
            len == template@.len(),
            j + 1 <= m <= len,
            spec_braces_after_ws(template@, j + 1, count as int) == spec_braces_after_ws(
                template@,
                m as int,
                count as int,
            ),
        decreases len - m,
    {
        proof {
            assert(template@[m as int] != '}');
        }
        m = m + 1;
    }
    if len - m < count {
        proof {
            if m < len {
                assert(!spec_template_whitespace(template@[m as int]));
            }
        }
        return false;
    }
    let mut b: usize = 0;
    while b < count
        invariant
            len == template@.len(),
            0 <= b <= count,
            m + count <= len,
            spec_implicit_dot_from(template@, start as int, count as int)
                == spec_braces_after_ws(template@, m as int, count as int),
            !spec_template_whitespace(template@[m as int]),
            forall|p: int| m <= p < m + b ==> #[trigger] template@[p] == '}',
        decreases count - b,
    {
        if template.get_char(m + b) != '}' {
            proof {
                assert(template@[m + b] != '}');
                assert(!spec_braces_after_ws(template@, m as int, count as int));
            }
            return false;
        }
        b = b + 1;
    }
    proof {
        assert(spec_braces_after_ws(template@, m as int, count as int));
    }
    true
}

/// Check that the rendering contract covers this template: no partial or
/// set-delimiter tag, and no implicit-dot tag.
pub fn template_supported(template: &str) -> (r: bool)
    ensures
        r == spec_template_supported(template@),
{
    let len = template.unicode_len();
    let mut i: usize = 0;
    while i < len
        invariant
            len == template@.len(),
            0 <= i <= len,
            forall|j: int|
                #![trigger template@[j]]
                0 <= j < i ==> !(j + 3 <= len && template@[j] == '{' && template@[j + 1] == '{' && (
                template@[j + 2] == '>' || template@[j + 2] == '=')),
            forall|j: int| 0 <= j < i ==> !(#[trigger] spec_implicit_dot_tag_at(template@, j)),
        decreases len - i,
    {
        let opens = template.get_char(i) == '{' && i + 1 < len && template.get_char(i + 1) == '{';
        if opens {
            if i + 2 < len {
                let sigil = template.get_char(i + 2);
                if sigil == '>' || sigil == '=' {
                    proof {
                        assert(!spec_template_self_contained(template@)) by {
                            assert(template@[i as int] == '{');
                        }
                    }
                    return false;
                }
                if sigil == '&' && implicit_dot_from(template, len, i + 3, 2) {
                    proof {
                        assert(spec_implicit_dot_tag_at(template@, i as int));
                    }
                    return false;
                }
                if sigil == '{' && implicit_dot_from(template, len, i + 3, 3) {
                    proof {
                        assert(spec_implicit_dot_tag_at(template@, i as int));
                    }
                    return false;
                }
            }
            if implicit_dot_from(template, len, i + 2, 2) {
                proof {
                    assert(spec_implicit_dot_tag_at(template@, i as int));
                }
                return false;
            }
        }
        proof {
            assert(!spec_implicit_dot_tag_at(template@, i as int)) by {
                if i + 2 <= len && template@[i as int] == '{' && template@[i + 1] == '{' {
                    assert(!spec_implicit_dot_from(template@, i + 2, 2));
                }
            }
        }
        i = i + 1;
    }
    proof {
        assert forall|j: int| !(#[trigger] spec_implicit_dot_tag_at(template@, j)) by {
            if 0 <= j < len {
                assert(!spec_implicit_dot_tag_at(template@, j));
            }
        }
    }
    true
}

/// What rendering a supported command template yields for given state and
/// brightness strings. For such a template rendering is a pure function of
/// the three strings; its value is pinned only by running the template
/// engine.
pub uninterp spec fn render_of(template: Seq<char>, state: Seq<char>, brightness: Seq<char>) -> Seq<
    char,
>;

/// Whether a supported template compiles and renders. For such a template
/// this too depends on the template text alone.
pub uninterp spec fn render_ok(template: Seq<char>) -> bool;

/// Relies on mustache::compile_str and Template::render_data_to_string:
/// for a template without partial and set-delimiter tags no file is read,
/// so the rendering, and whether it succeeds, depend on the template text
/// and the two inserted strings alone; and without implicit-dot tags every
/// rendered value is one of the two inserted strings, so the engine's
/// abort on non-string values is never reached.
#[verifier::external_body]
fn render_template(template: &str, state: &str, brightness: &str) -> (r: Option<String>)
    requires
        spec_template_supported(template@),
    ensures
        r is Some <==> render_ok(template@),
        r matches Some(s) ==> s@ == render_of(template@, state@, brightness@),
{
    let data = mustache::MapBuilder::new()
        .insert_str("state", state)
        .insert_str("brightness", brightness)
        .build();
    let compiled = match mustache::compile_str(template) {
        Ok(compiled) => compiled,
        Err(_) => return None,
    };
    compiled.render_data_to_string(&data).ok()
}

/// The decimal digit character for a value below ten.
pub open spec fn spec_decimal_digit(d: u8) -> char
    recommends
        d < 10,
{
    (48 + d) as char
}

/// The decimal digits of a byte, without leading zeros.
pub open spec fn spec_u8_decimal(n: u8) -> Seq<char> {
    if n < 10 {
        seq![spec_decimal_digit(n)]
    } else if n < 100 {
        seq![spec_decimal_digit(n / 10), spec_decimal_digit(n % 10)]
    } else {
        seq![spec_decimal_digit(n / 100), spec_decimal_digit((n / 10) % 10), spec_decimal_digit(n % 10)]
    }
}

/// The one-character string for a decimal digit.
fn decimal_digit_str(d: u8) -> (r: &'static str)
    requires
        d < 10,
    ensures
        r@ =~= seq![spec_decimal_digit(d)],
{
    proof {
        reveal_strlit("0");
        reveal_strlit("1");
        reveal_strlit("2");
        reveal_strlit("3");
        reveal_strlit("4");
        reveal_strlit("5");
        reveal_strlit("6");
        reveal_strlit("7");
        reveal_strlit("8");
        reveal_strlit("9");
    }
    match d {
        0 => "0",
        1 => "1",
        2 => "2",
        3 => "3",
        4 => "4",
        5 => "5",
        6 => "6",
        7 => "7",
        8 => "8",
        _ => "9",
    }
}

/// Format a brightness value as decimal text for the template.
fn u8_to_decimal_string(n: u8) -> (r: String)
    ensures
        r@ == spec_u8_decimal(n),
{
    if n < 10 {
        String::from_str(decimal_digit_str(n))
    } else if n < 100 {
        let mut s = String::from_str(decimal_digit_str(n / 10));
        s.append(decimal_digit_str(n % 10));
        proof {
            assert(s@ =~= spec_u8_decimal(n));
        }
        s
    } else {
        let mut s = String::from_str(decimal_digit_str(n / 100));
        s.append(decimal_digit_str((n / 10) % 10));
        s.append(decimal_digit_str(n % 10));
        proof {
            assert(s@ =~= spec_u8_decimal(n));
        }
        s
    }
}

/// The state string a command uses for the desired state.
pub open spec fn spec_state_string(command: SwitchCommand, state: SwitchState) -> Seq<char> {
    if state is On {
        command.on@
    } else {
        command.off@
    }
}

impl SwitchCommand {
    /// The command topic and the rendered payload for the desired state and
    /// brightness. Yields nothing exactly when the configured template
    /// cannot be compiled or rendered; such a command is not emitted.
    pub fn get_topic_and_command(&self, state: SwitchState, brightness: u8) -> (r: Option<
        (String, String),
    >)
        requires
            state is On || state is Off,
            spec_template_supported(self.command@),
        ensures
            r is Some <==> render_ok(self.command@),
            r matches Some((topic, command)) ==> topic@ == self.topic@ && command@ == render_of(
                self.command@,
                spec_state_string(*self, state),
                spec_u8_decimal(brightness),
            ),
    {
        let state_value: &String = match state {
            SwitchState::On => &self.on,
            SwitchState::Off => &self.off,
            SwitchState::Unknown => &self.off,
        };
        let brightness_string = u8_to_decimal_string(brightness);
        match render_template(self.command.as_str(), state_value.as_str(), brightness_string.as_str()) {
            None => None,
            Some(command) => Some((self.topic.clone(), command)),
        }
    }
}

impl Switch {
    /// The command topic and payload that move this switch to the desired
    /// state at the given brightness.
    pub fn get_topic_and_command(&self, state: SwitchState, brightness: u8) -> (r: Option<
        (String, String),
    >)
        requires
            state is On || state is Off,
            spec_template_supported(self.command.command@),
        ensures
            r is Some <==> render_ok(self.command.command@),
            r matches Some((topic, command)) ==> topic@ == self.command.topic@ && command@
                == render_of(
                self.command.command@,
                spec_state_string(self.command, state),
                spec_u8_decimal(brightness),
            ),
    {
        self.command.get_topic_and_command(state, brightness)
    }
}

/// No string occurs, by content, in both sequences.
pub open spec fn spec_disjoint_strings(a: Seq<String>, b: Seq<String>) -> bool {
    forall|i: int, j: int| 0 <= i < a.len() && 0 <= j < b.len() ==> a[i]@ != b[j]@
}

/// Whether the two vectors share a string, by content.
fn vecs_share_string(a: &Vec<String>, b: &Vec<String>) -> (r: bool)
    ensures
        r <==> !spec_disjoint_strings(a@, b@),
{
    let mut i: usize = 0;
    while i < a.len()
        invariant
            0 <= i <= a@.len(),
            forall|k: int, j: int| 0 <= k < i && 0 <= j < b@.len() ==> a@[k]@ != b@[j]@,
        decreases a@.len() - i,
    {
        if vec_contains_string(b, &a[i]) {
            return true;
        }
        i = i + 1;
    }
    false
}

} // verus!
