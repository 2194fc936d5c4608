//! The decision engine: per-room sensor memories, switch memories, the
//! current-room election and the command planner.

pub mod room_state;
pub mod sensor_memory;
pub mod sensor_states;

use vstd::prelude::*;
use crate::configuration::{
    contains_string, spec_min_sensor_delay, Configuration, SensorState, SwitchState,
};
use crate::strategy::room_state::seq_char_lt;
use crate::strategy::sensor_memory::{spec_naive_state, SensorMemory};
use crate::strategy::sensor_states::{
    naive_state_lt, sensor_transition, takeover_state, SensorMemoryNaiveState, SensorMemoryState,
};
use crate::{SensorChangeContent, SwitchChangeContent};

verus! {

/// Largest delay, in seconds, that still converts to milliseconds within
/// a u64.
pub const MAX_DELAY_SECS: u64 = 18_446_744_073_709_551;

/// A planned command: set the switch behind `topic` to `state` at
/// `brightness`.
#[derive(Debug)]
pub struct SwitchCommand {
    pub topic: String,
    pub state: SwitchState,
    pub brightness: u8,
}

impl PartialEq for SwitchCommand {
    fn eq(&self, other: &Self) -> (r: bool) {
        self.topic.eq(&other.topic) && self.state == other.state && self.brightness
            == other.brightness
    }
}

impl vstd::std_specs::cmp::PartialEqSpecImpl for SwitchCommand {
    open spec fn obeys_eq_spec() -> bool {
        true
    }

    open spec fn eq_spec(&self, other: &Self) -> bool {
        self.topic@ == other.topic@ && self.state == other.state && self.brightness
            == other.brightness
    }
}

/// What the engine remembers of one switch.
pub struct SwitchMemory {
    /// topic the switch reports its state on
    pub topic: String,
    /// last state echoed by the device
    pub state: SwitchState,
    /// rooms the switch lights
    pub rooms: Vec<String>,
    /// milliseconds a room must be absent before the switch turns off
    pub delay: u64,
}

/// The decision engine state.
pub struct Strategy {
    /// all known sensors, grouped by room
    pub room_sensors: Vec<(String, Vec<(String, SensorMemory)>)>,
    /// all known switches
    pub room_switches: Vec<SwitchMemory>,
    /// last room states computed by the planner
    pub room_state: Vec<(String, SensorMemoryNaiveState)>,
    /// room we think the user is located in
    pub current_room: Option<String>,
    /// switch topics permanently turned off
    pub disabled_switches: Vec<String>,
    /// switch topics permanently turned on
    pub enabled_switches: Vec<String>,
    /// switch topics never commanded
    pub ignored_switches: Vec<String>,
    /// brightness for every planned command
    pub brightness: u8,
    /// milliseconds of look-ahead for the election: the smallest sensor delay
    pub look_ahead: u64,
    /// milliseconds the current room must be absent before it can lose the
    /// election to a less absent room
    pub current_room_threshold: u64,
    /// whether the current room keeps its switches on
    pub room_tracking_enabled: bool,
    /// sensor topics treated as absent from the configuration
    pub ignored_sensors: Vec<String>,
}

/// Fold of two naive states into one room state: any presence wins, then
/// the shortest absence, then absence over Uninitialized.
pub open spec fn combine_naive_states(
    a: SensorMemoryNaiveState,
    b: SensorMemoryNaiveState,
) -> SensorMemoryNaiveState {
    match (a, b) {
        (_, SensorMemoryNaiveState::Present) => SensorMemoryNaiveState::Present,
        (SensorMemoryNaiveState::Present, _) => SensorMemoryNaiveState::Present,
        (
            SensorMemoryNaiveState::AbsentSince(da),
            SensorMemoryNaiveState::AbsentSince(db),
        ) => SensorMemoryNaiveState::AbsentSince(
            if da <= db {
                da
            } else {
                db
            },
        ),
        (SensorMemoryNaiveState::AbsentSince(da), SensorMemoryNaiveState::Uninitialized) => SensorMemoryNaiveState::AbsentSince(
            da,
        ),
        (SensorMemoryNaiveState::Uninitialized, SensorMemoryNaiveState::AbsentSince(db)) => SensorMemoryNaiveState::AbsentSince(
            db,
        ),
        (
            SensorMemoryNaiveState::Uninitialized,
            SensorMemoryNaiveState::Uninitialized,
        ) => SensorMemoryNaiveState::Uninitialized,
    }
}

/// The aggregate naive state of a room: the fold of the naive states of its
/// sensors, skipping the ignored ones, starting from Uninitialized.
pub open spec fn spec_room_naive_state(
    entries: Seq<(String, SensorMemory)>,
    ignored: Seq<String>,
    now: u64,
    look_ahead: u64,
) -> SensorMemoryNaiveState
    decreases entries.len(),
{
    if entries.len() == 0 {
        SensorMemoryNaiveState::Uninitialized
    } else {
        let rest = spec_room_naive_state(entries.drop_last(), ignored, now, look_ahead);
        let entry = entries.last();
        if contains_string(ignored, entry.0@) {
            rest
        } else {
            combine_naive_states(
                rest,
                spec_naive_state(entry.1.state, entry.1.delay, now, look_ahead),
            )
        }
    }
}

/// One non-ignored present sensor makes the whole room present, whatever
/// the other sensors report.
pub proof fn lemma_room_present_monotonic(
    entries: Seq<(String, SensorMemory)>,
    ignored: Seq<String>,
    now: u64,
    look_ahead: u64,
    i: int,
)
    requires
        0 <= i < entries.len(),
        !contains_string(ignored, entries[i].0@),
        spec_naive_state(entries[i].1.state, entries[i].1.delay, now, look_ahead)
            is Present,
    ensures
        spec_room_naive_state(entries, ignored, now, look_ahead) is Present,
    decreases entries.len(),
{
    if i < entries.len() - 1 {
        lemma_room_present_monotonic(entries.drop_last(), ignored, now, look_ahead, i);
    }
}

/// The naive states of all rooms, in configuration order.
pub open spec fn spec_room_states(
    room_sensors: Seq<(String, Vec<(String, SensorMemory)>)>,
    ignored: Seq<String>,
    now: u64,
    look_ahead: u64,
) -> Seq<(String, SensorMemoryNaiveState)> {
    Seq::new(
        room_sensors.len(),
        |i: int|
            (
                room_sensors[i].0,
                spec_room_naive_state(room_sensors[i].1@, ignored, now, look_ahead),
            ),
    )
}

/// The state recorded for `room`, first occurrence; a missing room reads as
/// Uninitialized.
pub open spec fn spec_room_lookup(
    states: Seq<(String, SensorMemoryNaiveState)>,
    room: Seq<char>,
) -> SensorMemoryNaiveState
    decreases states.len(),
{
    if states.len() == 0 {
        SensorMemoryNaiveState::Uninitialized
    } else if states[0].0@ == room {
        states[0].1
    } else {
        spec_room_lookup(states.drop_first(), room)
    }
}

/// Election order on (room, state) pairs: the better state wins, the room
/// name breaks ties.
pub open spec fn room_pair_lt(
    a: (String, SensorMemoryNaiveState),
    b: (String, SensorMemoryNaiveState),
) -> bool {
    ||| naive_state_lt(a.1, b.1)
    ||| (a.1 == b.1 && seq_char_lt(a.0@, b.0@))
}

/// `i` is the first-ranked room in election order.
pub open spec fn is_best_room(states: Seq<(String, SensorMemoryNaiveState)>, i: int) -> bool {
    &&& 0 <= i < states.len()
    &&& forall|j: int|
        0 <= j < states.len() && j != i ==> room_pair_lt(states[i], #[trigger] states[j])
}

/// `i` is the first-ranked room in election order among the rooms other
/// than `cur`.
pub open spec fn is_best_other_room(
    states: Seq<(String, SensorMemoryNaiveState)>,
    cur: Seq<char>,
    i: int,
) -> bool {
    &&& 0 <= i < states.len()
    &&& states[i].0@ != cur
    &&& forall|j: int|
        0 <= j < states.len() && j != i && states[j].0@ != cur ==> room_pair_lt(
            states[i],
            #[trigger] states[j],
        )
}

/// The pair order never holds in both directions, and never of a pair with
/// itself.
pub proof fn lemma_room_pair_lt_asymmetric(
    a: (String, SensorMemoryNaiveState),
    b: (String, SensorMemoryNaiveState),
)
    ensures
        !(room_pair_lt(a, b) && room_pair_lt(b, a)),
        !room_pair_lt(a, a),
{
    crate::strategy::sensor_states::lemma_naive_state_lt_total(a.1, b.1);
    crate::strategy::room_state::lemma_seq_char_lt_total(a.0@, b.0@);
    crate::strategy::room_state::lemma_seq_char_lt_total(a.0@, a.0@);
}

/// The pair order is transitive.
pub proof fn lemma_room_pair_lt_trans(
    a: (String, SensorMemoryNaiveState),
    b: (String, SensorMemoryNaiveState),
    c: (String, SensorMemoryNaiveState),
)
    requires
        room_pair_lt(a, b),
        room_pair_lt(b, c),
    ensures
        room_pair_lt(a, c),
{
    if a.1 == b.1 && b.1 == c.1 {
        crate::strategy::room_state::lemma_seq_char_lt_trans(a.0@, b.0@, c.0@);
    }
}

/// Pairs with distinct room names compare in exactly one direction.
pub proof fn lemma_room_pair_lt_total(
    a: (String, SensorMemoryNaiveState),
    b: (String, SensorMemoryNaiveState),
)
    requires
        a.0@ != b.0@,
    ensures
        room_pair_lt(a, b) <==> !room_pair_lt(b, a),
{
    crate::strategy::sensor_states::lemma_naive_state_lt_total(a.1, b.1);
    crate::strategy::room_state::lemma_seq_char_lt_total(a.0@, b.0@);
}

/// At least two rooms are present.
pub open spec fn spec_two_rooms_present(states: Seq<(String, SensorMemoryNaiveState)>) -> bool {
    exists|i: int, j: int|
        0 <= i < j < states.len() && (#[trigger] states[i]).1 is Present && (
        #[trigger] states[j]).1 is Present
}

/// Some room is present.
pub open spec fn spec_some_room_present(states: Seq<(String, SensorMemoryNaiveState)>) -> bool {
    exists|i: int| 0 <= i < states.len() && (#[trigger] states[i]).1 is Present
}

/// Some room is absent.
pub open spec fn spec_some_room_absent(states: Seq<(String, SensorMemoryNaiveState)>) -> bool {
    exists|i: int| 0 <= i < states.len() && (#[trigger] states[i]).1 is AbsentSince
}

/// `i` is the position of the first switch memory reporting on `topic`.
pub open spec fn first_switch_memory_match(
    switches: Seq<SwitchMemory>,
    topic: Seq<char>,
    i: int,
) -> bool {
    &&& 0 <= i < switches.len()
    &&& switches[i].topic@ == topic
    &&& forall|j: int| 0 <= j < i ==> (#[trigger] switches[j]).topic@ != topic
}

/// The state a switch should be in, walking its rooms in order: the current
/// room and any present room turn it on; the first absent room decides by
/// the per-switch delay; uninitialized rooms defer to the next one.
pub open spec fn spec_desired_from_rooms(
    rooms: Seq<String>,
    states: Seq<(String, SensorMemoryNaiveState)>,
    current_room: Option<String>,
    room_tracking_enabled: bool,
    switch_delay: u64,
) -> Option<SwitchState>
    decreases rooms.len(),
{
    if rooms.len() == 0 {
        None
    } else if room_tracking_enabled && (current_room matches Some(cur) && cur@ == rooms[0]@) {
        Some(SwitchState::On)
    } else {
        match spec_room_lookup(states, rooms[0]@) {
            SensorMemoryNaiveState::Present => Some(SwitchState::On),
            SensorMemoryNaiveState::AbsentSince(d) => Some(
                if d > switch_delay {
                    SwitchState::Off
                } else {
                    SwitchState::On
                },
            ),
            SensorMemoryNaiveState::Uninitialized => spec_desired_from_rooms(
                rooms.drop_first(),
                states,
                current_room,
                room_tracking_enabled,
                switch_delay,
            ),
        }
    }
}

/// The state a switch should be in, with the scene overlay applied first:
/// disabled wins over enabled, enabled over ignored, and only then the
/// rooms decide. `None` means no command may be emitted.
pub open spec fn spec_desired_state(
    switch: SwitchMemory,
    states: Seq<(String, SensorMemoryNaiveState)>,
    current_room: Option<String>,
    room_tracking_enabled: bool,
    disabled: Seq<String>,
    enabled: Seq<String>,
    ignored: Seq<String>,
) -> Option<SwitchState> {
    if contains_string(disabled, switch.topic@) {
        Some(SwitchState::Off)
    } else if contains_string(enabled, switch.topic@) {
        Some(SwitchState::On)
    } else if contains_string(ignored, switch.topic@) {
        None
    } else {
        spec_desired_from_rooms(
            switch.rooms@,
            states,
            current_room,
            room_tracking_enabled,
            switch.delay,
        )
    }
}

/// The plan: one command per switch whose desired state is defined and
/// either differs from its last known state or is forced, in declaration
/// order.
pub open spec fn spec_planned_commands(
    switches: Seq<SwitchMemory>,
    states: Seq<(String, SensorMemoryNaiveState)>,
    current_room: Option<String>,
    room_tracking_enabled: bool,
    disabled: Seq<String>,
    enabled: Seq<String>,
    ignored: Seq<String>,
    ignore_current_state: bool,
    brightness: u8,
) -> Seq<SwitchCommand>
    decreases switches.len(),
{
    if switches.len() == 0 {
        Seq::empty()
    } else {
        let rest = spec_planned_commands(
            switches.drop_last(),
            states,
            current_room,
            room_tracking_enabled,
            disabled,
            enabled,
            ignored,
            ignore_current_state,
            brightness,
        );
        let switch = switches.last();
        match spec_desired_state(
            switch,
            states,
            current_room,
            room_tracking_enabled,
            disabled,
            enabled,
            ignored,
        ) {
            None => rest,
            Some(desired) => if desired != switch.state || ignore_current_state {
                rest.push(SwitchCommand { topic: switch.topic, state: desired, brightness })
            } else {
                rest
            },
        }
    }
}

/// How often a topic occurs in a plan.
pub open spec fn count_topic(commands: Seq<SwitchCommand>, topic: Seq<char>) -> int
    decreases commands.len(),
{
    if commands.len() == 0 {
        0int
    } else {
        count_topic(commands.drop_last(), topic) + if commands.last().topic@ == topic {
            1int
        } else {
            0int
        }
    }
}

/// Room names in first-occurrence order of the sensor list.
pub open spec fn spec_room_names(sensors: Seq<crate::configuration::Sensor>) -> Seq<String>
    decreases sensors.len(),
{
    if sensors.len() == 0 {
        Seq::empty()
    } else {
        let rest = spec_room_names(sensors.drop_last());
        if contains_string(rest, sensors.last().room@) {
            rest
        } else {
            rest.push(sensors.last().room)
        }
    }
}

/// The initial sensor memories of one room, in configuration order:
/// every sensor of the room, uninitialized, with its delay in milliseconds.
pub open spec fn spec_room_entries(
    sensors: Seq<crate::configuration::Sensor>,
    room: Seq<char>,
) -> Seq<(String, SensorMemory)>
    decreases sensors.len(),
{
    if sensors.len() == 0 {
        Seq::empty()
    } else {
        let rest = spec_room_entries(sensors.drop_last(), room);
        let sensor = sensors.last();
        if sensor.room@ == room {
            rest.push(
                (
                    sensor.topic,
                    SensorMemory {
                        delay: (sensor.delay * 1000) as u64,
                        state: SensorMemoryState::Uninitialized,
                    },
                ),
            )
        } else {
            rest
        }
    }
}

/// A room that never occurs in the sensor list owns no sensor entries.
pub proof fn lemma_room_entries_empty_for_unknown(
    sensors: Seq<crate::configuration::Sensor>,
    room: Seq<char>,
)
    requires
        !contains_string(spec_room_names(sensors), room),
    ensures
        spec_room_entries(sensors, room) == Seq::<(String, SensorMemory)>::empty(),
    decreases sensors.len(),
{
    if sensors.len() > 0 {
        let names = spec_room_names(sensors);
        let rest_names = spec_room_names(sensors.drop_last());
        if contains_string(rest_names, room) {
            let i = choose|i: int| 0 <= i < rest_names.len() && rest_names[i]@ == room;
            if contains_string(rest_names, sensors.last().room@) {
                assert(names[i]@ == room);
            } else {
                assert(names[i] == rest_names[i]);
                assert(names[i]@ == room);
            }
            assert(false);
        }
        lemma_room_entries_empty_for_unknown(sensors.drop_last(), room);
        if sensors.last().room@ == room {
            assert(names[names.len() - 1]@ == room);
            assert(false);
        }
    }
}

/// First-occurrence room names never repeat.
pub proof fn lemma_room_names_distinct(sensors: Seq<crate::configuration::Sensor>)
    ensures
        forall|i: int, j: int|
            0 <= i < j < spec_room_names(sensors).len() ==> #[trigger] spec_room_names(
                sensors,
            )[i]@ != #[trigger] spec_room_names(sensors)[j]@,
    decreases sensors.len(),
{
    if sensors.len() > 0 {
        lemma_room_names_distinct(sensors.drop_last());
        let rest = spec_room_names(sensors.drop_last());
        let names = spec_room_names(sensors);
        if !contains_string(rest, sensors.last().room@) {
            assert forall|i: int, j: int| 0 <= i < j < names.len() implies names[i]@ != names[j]@ by {
                if j == names.len() - 1 {
                    assert(names[i] == rest[i]);
                    assert(!(rest[i]@ == sensors.last().room@));
                }
            }
        }
    }
}

/// The smallest sensor delay is one of the configured delays (or zero
/// without sensors), so it obeys the same bound they do.
pub proof fn lemma_min_delay_is_some_delay(sensors: Seq<crate::configuration::Sensor>)
    ensures
        sensors.len() == 0 ==> spec_min_sensor_delay(sensors) == 0,
        sensors.len() > 0 ==> exists|i: int|
            0 <= i < sensors.len() && spec_min_sensor_delay(sensors) == #[trigger] sensors[i].delay,
    decreases sensors.len(),
{
    if sensors.len() > 0 {
        lemma_min_delay_is_some_delay(sensors.drop_last());
        if sensors.len() > 1 && spec_min_sensor_delay(sensors) != sensors.last().delay {
            let i = choose|i: int|
                0 <= i < sensors.drop_last().len() && spec_min_sensor_delay(sensors.drop_last())
                    == #[trigger] sensors.drop_last()[i].delay;
            assert(sensors[i].delay == spec_min_sensor_delay(sensors));
        } else {
            assert(sensors[sensors.len() - 1].delay == sensors.last().delay);
        }
    }
}

impl Strategy {
    /// Create the engine out of a configuration: sensors grouped by room
    /// and uninitialized, switches in unknown state, the look-ahead set to
    /// the smallest sensor delay and the election threshold to half of it,
    /// and the scene overlay taken from the first scene, if there is one.
    pub fn new(configuration: &Configuration) -> (result: Strategy)
        requires
            forall|i: int|
                0 <= i < configuration.sensors@.len() ==> (#[trigger] configuration.sensors@[i]).delay
                    <= MAX_DELAY_SECS,
            forall|i: int|
                0 <= i < configuration.switches@.len() ==> (#[trigger] configuration.switches@[i]).delay
                    <= MAX_DELAY_SECS,
        ensures
            result.wf(),
            result.room_sensors@.len() == spec_room_names(configuration.sensors@).len(),
            forall|i: int|
                0 <= i < result.room_sensors@.len() ==> (#[trigger] result.room_sensors@[i]).0
                    == spec_room_names(configuration.sensors@)[i],
            forall|i: int|
                0 <= i < result.room_sensors@.len() ==> (#[trigger] result.room_sensors@[i]).1@
                    == spec_room_entries(configuration.sensors@, result.room_sensors@[i].0@),
            result.room_switches@.len() == configuration.switches@.len(),
            forall|i: int|
                0 <= i < result.room_switches@.len() ==> {
                    let switch = #[trigger] result.room_switches@[i];
                    &&& switch.topic == configuration.switches@[i].topic
                    &&& switch.state == SwitchState::Unknown
                    &&& switch.rooms@ == configuration.switches@[i].rooms@
                    &&& switch.delay == configuration.switches@[i].delay * 1000
                },
            result.room_state@ == Seq::<(String, SensorMemoryNaiveState)>::empty(),
            result.current_room is None,
            result.look_ahead == spec_min_sensor_delay(configuration.sensors@) * 1000,
            result.current_room_threshold == (spec_min_sensor_delay(configuration.sensors@) / 2)
                * 1000,
            configuration.scenes@.len() > 0 ==> {
                let scene = configuration.scenes@[0];
                &&& result.brightness == scene.brightness
                &&& result.disabled_switches@ == scene.disabled_switches@
                &&& result.enabled_switches@ == scene.enabled_switches@
                &&& result.ignored_switches@ == scene.ignored_switches@
                &&& result.room_tracking_enabled == scene.room_tracking_enabled
                &&& result.ignored_sensors@ == scene.ignored_sensors@
            },
            configuration.scenes@.len() == 0 ==> {
                &&& result.brightness == 255
                &&& result.disabled_switches@ == Seq::<String>::empty()
                &&& result.enabled_switches@ == Seq::<String>::empty()
                &&& result.ignored_switches@ == Seq::<String>::empty()
                &&& result.room_tracking_enabled == true
                &&& result.ignored_sensors@ == Seq::<String>::empty()
            },
    {
        let ghost all_sensors = configuration.sensors@;
        let mut room_sensors: Vec<(String, Vec<(String, SensorMemory)>)> = Vec::new();
        let mut s: usize = 0;
        while s < configuration.sensors.len()
            invariant
                0 <= s <= all_sensors.len(),
                all_sensors == configuration.sensors@,
                forall|i: int|
                    0 <= i < all_sensors.len() ==> (#[trigger] all_sensors[i]).delay
                        <= MAX_DELAY_SECS,
                room_sensors@.len() == spec_room_names(all_sensors.take(s as int)).len(),
                forall|i: int|
                    0 <= i < room_sensors@.len() ==> (#[trigger] room_sensors@[i]).0
                        == spec_room_names(all_sensors.take(s as int))[i],
                forall|i: int|
                    0 <= i < room_sensors@.len() ==> (#[trigger] room_sensors@[i]).1@
                        == spec_room_entries(all_sensors.take(s as int), room_sensors@[i].0@),
            decreases all_sensors.len() - s,
        {
            let ghost prefix = all_sensors.take(s as int);
            let ghost next_prefix = all_sensors.take(s + 1);
            proof {
                assert(next_prefix.drop_last() =~= prefix);
                assert(next_prefix.last() == all_sensors[s as int]);
            }
            let sensor = &configuration.sensors[s];
            // look for the sensor's room among the groups built so far
            let mut g: usize = 0;
            let mut found: Option<usize> = None;
            while g < room_sensors.len()
                invariant
                    0 <= g <= room_sensors@.len(),
                    match found {
                        Some(idx) => idx < g && room_sensors@[idx as int].0@ == sensor.room@,
                        None => forall|j: int|
                            0 <= j < g ==> (#[trigger] room_sensors@[j]).0@ != sensor.room@,
                    },
                decreases room_sensors@.len() - g,
            {
                if found.is_none() && room_sensors[g].0.eq(&sensor.room) {
                    found = Some(g);
                }
                g = g + 1;
            }
            let entry = (
                sensor.topic.clone(),
                SensorMemory { delay: sensor.delay * 1000, state: SensorMemoryState::Uninitialized },
            );
            match found {
                Some(idx) => {
                    proof {
                        assert(contains_string(spec_room_names(prefix), sensor.room@));
                        lemma_room_names_distinct(prefix);
                    }
                    let group = vstd::std_specs::vec::vec_index_mut(&mut room_sensors, idx);
                    group.1.push(entry);
                    proof {
                        assert forall|i: int|
                            0 <= i < room_sensors@.len() implies (#[trigger] room_sensors@[i]).1@
                            == spec_room_entries(next_prefix, room_sensors@[i].0@) by {
                            if i == idx {
                                assert(room_sensors@[i].0@ == sensor.room@);
                            } else {
                                assert(room_sensors@[i].0@ != sensor.room@);
                            }
                        }
                        assert(spec_room_names(next_prefix) =~= spec_room_names(prefix));
                    }
                },
                None => {
                    proof {
                        assert forall|j: int|
                            0 <= j < spec_room_names(prefix).len() implies (
                        #[trigger] spec_room_names(prefix)[j])@ != sensor.room@ by {
                            assert(room_sensors@[j].0 == spec_room_names(prefix)[j]);
                            assert(room_sensors@[j].0@ != sensor.room@);
                        }
                        assert(!contains_string(spec_room_names(prefix), sensor.room@));
                        lemma_room_entries_empty_for_unknown(prefix, sensor.room@);
                    }
                    let mut inner: Vec<(String, SensorMemory)> = Vec::new();
                    inner.push(entry);
                    room_sensors.push((sensor.room.clone(), inner));
                    proof {
                        assert(spec_room_names(next_prefix) =~= spec_room_names(prefix).push(
                            all_sensors[s as int].room,
                        ));
                        assert forall|i: int|
                            0 <= i < room_sensors@.len() implies (#[trigger] room_sensors@[i]).1@
                            == spec_room_entries(next_prefix, room_sensors@[i].0@) by {
                            if i < room_sensors@.len() - 1 {
                                assert(room_sensors@[i].0@ != sensor.room@);
                            } else {
                                assert(spec_room_entries(prefix, sensor.room@) =~= Seq::empty());
                            }
                        }
                    }
                },
            }
            s = s + 1;
        }
        proof {
            assert(all_sensors.take(all_sensors.len() as int) =~= all_sensors);
        }

        let mut room_switches: Vec<SwitchMemory> = Vec::new();
        let mut w: usize = 0;
        while w < configuration.switches.len()
            invariant
                0 <= w <= configuration.switches@.len(),
                forall|i: int|
                    0 <= i < configuration.switches@.len() ==> (
                    #[trigger] configuration.switches@[i]).delay <= MAX_DELAY_SECS,
                room_switches@.len() == w,
                forall|i: int|
                    0 <= i < w ==> {
                        let switch = #[trigger] room_switches@[i];
                        &&& switch.topic == configuration.switches@[i].topic
                        &&& switch.state == SwitchState::Unknown
                        &&& switch.rooms@ == configuration.switches@[i].rooms@
                        &&& switch.delay == configuration.switches@[i].delay * 1000
                    },
            decreases configuration.switches@.len() - w,
        {
            let switch = &configuration.switches[w];
            room_switches.push(
                SwitchMemory {
                    topic: switch.topic.clone(),
                    state: SwitchState::Unknown,
                    rooms: crate::configuration::clone_string_vec(&switch.rooms),
                    delay: switch.delay * 1000,
                },
            );
            w = w + 1;
        }

        let min_delay = configuration.get_min_sensor_delay();
        proof {
            lemma_min_delay_is_some_delay(configuration.sensors@);
        }
        let look_ahead: u64 = min_delay * 1000;
        let current_room_threshold: u64 = (min_delay / 2) * 1000;

        let mut brightness: u8 = 255;
        let mut disabled_switches: Vec<String> = Vec::new();
        let mut enabled_switches: Vec<String> = Vec::new();
        let mut ignored_switches: Vec<String> = Vec::new();
        let mut room_tracking_enabled: bool = true;
        let mut ignored_sensors: Vec<String> = Vec::new();
        if configuration.scenes.len() > 0 {
            let scene = &configuration.scenes[0];
            brightness = scene.brightness;
            disabled_switches = crate::configuration::clone_string_vec(&scene.disabled_switches);
            enabled_switches = crate::configuration::clone_string_vec(&scene.enabled_switches);
            ignored_switches = crate::configuration::clone_string_vec(&scene.ignored_switches);
            room_tracking_enabled = scene.room_tracking_enabled;
            ignored_sensors = crate::configuration::clone_string_vec(&scene.ignored_sensors);
        }

        let result = Strategy {
            room_sensors,
            room_switches,
            room_state: Vec::new(),
            current_room: None,
            disabled_switches,
            enabled_switches,
            ignored_switches,
            brightness,
            look_ahead,
            current_room_threshold,
            room_tracking_enabled,
            ignored_sensors,
        };
        proof {
            lemma_room_names_distinct(all_sensors);
            assert(result.room_state@ =~= Seq::<(String, SensorMemoryNaiveState)>::empty());
        }
        result
    }

    /// Room names are unique and the current room, when elected, is one of
    /// them.
    pub open spec fn wf(self) -> bool {
        &&& forall|i: int, j: int|
            0 <= i < j < self.room_sensors@.len() ==> (#[trigger] self.room_sensors@[i]).0@ != (
            #[trigger] self.room_sensors@[j]).0@
        &&& self.current_room matches Some(cur) ==> exists|i: int|
            0 <= i < self.room_sensors@.len() && (#[trigger] self.room_sensors@[i]).0@ == cur@
    }

    /// Takeover: every sensor still uninitialized becomes absent as of
    /// `instant`, so that never-seen sensors count as anciently absent.
    pub fn replace_uninitialized_with_absents(&mut self, instant: u64)
        ensures
            final(self).room_sensors@.len() == old(self).room_sensors@.len(),
            forall|i: int|
                0 <= i < old(self).room_sensors@.len() ==> {
                    let old_group = #[trigger] old(self).room_sensors@[i];
                    let new_group = final(self).room_sensors@[i];
                    &&& new_group.0 == old_group.0
                    &&& new_group.1@.len() == old_group.1@.len()
                    &&& forall|j: int|
                        0 <= j < old_group.1@.len() ==> {
                            let old_entry = #[trigger] old_group.1@[j];
                            let new_entry = new_group.1@[j];
                            &&& new_entry.0 == old_entry.0
                            &&& new_entry.1.delay == old_entry.1.delay
                            &&& new_entry.1.state == takeover_state(old_entry.1.state, instant)
                        }
                },
            final(self).room_switches == old(self).room_switches,
            final(self).room_state == old(self).room_state,
            final(self).current_room == old(self).current_room,
            final(self).disabled_switches == old(self).disabled_switches,
            final(self).enabled_switches == old(self).enabled_switches,
            final(self).ignored_switches == old(self).ignored_switches,
            final(self).brightness == old(self).brightness,
            final(self).look_ahead == old(self).look_ahead,
            final(self).current_room_threshold == old(self).current_room_threshold,
            final(self).room_tracking_enabled == old(self).room_tracking_enabled,
            final(self).ignored_sensors == old(self).ignored_sensors,
    {
        let mut new_rooms: Vec<(String, Vec<(String, SensorMemory)>)> = Vec::new();
        let mut i: usize = 0;
        while i < self.room_sensors.len()
            invariant
                0 <= i <= self.room_sensors@.len(),
                new_rooms@.len() == i,
                forall|k: int|
                    0 <= k < i ==> {
                        let old_group = #[trigger] self.room_sensors@[k];
                        let new_group = new_rooms@[k];
                        &&& new_group.0 == old_group.0
                        &&& new_group.1@.len() == old_group.1@.len()
                        &&& forall|j: int|
                            0 <= j < old_group.1@.len() ==> {
                                let old_entry = #[trigger] old_group.1@[j];
                                let new_entry = new_group.1@[j];
                                &&& new_entry.0 == old_entry.0
                                &&& new_entry.1.delay == old_entry.1.delay
                                &&& new_entry.1.state == takeover_state(old_entry.1.state, instant)
                            }
                    },
            decreases self.room_sensors@.len() - i,
        {
            let group = &self.room_sensors[i];
            let mut new_entries: Vec<(String, SensorMemory)> = Vec::new();
            let mut j: usize = 0;
            while j < group.1.len()
                invariant
                    0 <= j <= group.1@.len(),
                    new_entries@.len() == j,
                    forall|k: int|
                        0 <= k < j ==> {
                            let old_entry = #[trigger] group.1@[k];
                            let new_entry = new_entries@[k];
                            &&& new_entry.0 == old_entry.0
                            &&& new_entry.1.delay == old_entry.1.delay
                            &&& new_entry.1.state == takeover_state(old_entry.1.state, instant)
                        },
                decreases group.1@.len() - j,
            {
                let entry = &group.1[j];
                let new_state = match entry.1.state {
                    SensorMemoryState::Uninitialized => SensorMemoryState::AbsentSince(instant),
                    other => other,
                };
                new_entries.push(
                    (entry.0.clone(), SensorMemory { delay: entry.1.delay, state: new_state }),
                );
                j = j + 1;
            }
            new_rooms.push((group.0.clone(), new_entries));
            i = i + 1;
        }
        self.room_sensors = new_rooms;
    }

    /// Apply a sensor report: in every room that holds the topic, the
    /// sensor's remembered state takes one transition; everything else is
    /// untouched.
    pub fn update_sensor(&mut self, instant: u64, sensor_content: SensorChangeContent)
        ensures
            final(self).room_sensors@.len() == old(self).room_sensors@.len(),
            forall|i: int|
                0 <= i < old(self).room_sensors@.len() ==> {
                    let old_group = #[trigger] old(self).room_sensors@[i];
                    let new_group = final(self).room_sensors@[i];
                    &&& new_group.0 == old_group.0
                    &&& new_group.1@.len() == old_group.1@.len()
                    &&& forall|j: int|
                        0 <= j < old_group.1@.len() ==> {
                            let old_entry = #[trigger] old_group.1@[j];
                            let new_entry = new_group.1@[j];
                            &&& new_entry.0 == old_entry.0
                            &&& new_entry.1.delay == old_entry.1.delay
                            &&& new_entry.1.state == if old_entry.0@ == sensor_content.topic@ {
                                sensor_transition(old_entry.1.state, sensor_content.state, instant)
                            } else {
                                old_entry.1.state
                            }
                        }
                },
            final(self).room_switches == old(self).room_switches,
            final(self).room_state == old(self).room_state,
            final(self).current_room == old(self).current_room,
            final(self).disabled_switches == old(self).disabled_switches,
            final(self).enabled_switches == old(self).enabled_switches,
            final(self).ignored_switches == old(self).ignored_switches,
            final(self).brightness == old(self).brightness,
            final(self).look_ahead == old(self).look_ahead,
            final(self).current_room_threshold == old(self).current_room_threshold,
            final(self).room_tracking_enabled == old(self).room_tracking_enabled,
            final(self).ignored_sensors == old(self).ignored_sensors,
    {
        let mut new_rooms: Vec<(String, Vec<(String, SensorMemory)>)> = Vec::new();
        let mut i: usize = 0;
        while i < self.room_sensors.len()
            invariant
                0 <= i <= self.room_sensors@.len(),
                new_rooms@.len() == i,
                forall|k: int|
                    0 <= k < i ==> {
                        let old_group = #[trigger] self.room_sensors@[k];
                        let new_group = new_rooms@[k];
                        &&& new_group.0 == old_group.0
                        &&& new_group.1@.len() == old_group.1@.len()
                        &&& forall|j: int|
                            0 <= j < old_group.1@.len() ==> {
                                let old_entry = #[trigger] old_group.1@[j];
                                let new_entry = new_group.1@[j];
                                &&& new_entry.0 == old_entry.0
                                &&& new_entry.1.delay == old_entry.1.delay
                                &&& new_entry.1.state == if old_entry.0@ == sensor_content.topic@ {
                                    sensor_transition(
                                        old_entry.1.state,
                                        sensor_content.state,
                                        instant,
                                    )
                                } else {
                                    old_entry.1.state
                                }
                            }
                    },
            decreases self.room_sensors@.len() - i,
        {
            let group = &self.room_sensors[i];
            let mut new_entries: Vec<(String, SensorMemory)> = Vec::new();
            let mut j: usize = 0;
            while j < group.1.len()
                invariant
                    0 <= j <= group.1@.len(),
                    new_entries@.len() == j,
                    forall|k: int|
                        0 <= k < j ==> {
                            let old_entry = #[trigger] group.1@[k];
                            let new_entry = new_entries@[k];
                            &&& new_entry.0 == old_entry.0
                            &&& new_entry.1.delay == old_entry.1.delay
                            &&& new_entry.1.state == if old_entry.0@ == sensor_content.topic@ {
                                sensor_transition(old_entry.1.state, sensor_content.state, instant)
                            } else {
                                old_entry.1.state
                            }
                        },
                decreases group.1@.len() - j,
            {
                let entry = &group.1[j];
                let new_state = if entry.0.eq(&sensor_content.topic) {
                    crate::strategy::sensor_states::apply_sensor_transition(
                        entry.1.state,
                        sensor_content.state,
                        instant,
                    )
                } else {
                    entry.1.state
                };
                new_entries.push(
                    (entry.0.clone(), SensorMemory { delay: entry.1.delay, state: new_state }),
                );
                j = j + 1;
            }
            new_rooms.push((group.0.clone(), new_entries));
            i = i + 1;
        }
        self.room_sensors = new_rooms;
    }

    /// Apply a switch echo: the first switch with the reported topic takes
    /// the reported state; an unknown topic changes nothing.
    pub fn update_switch(&mut self, _instant: u64, switch_content: SwitchChangeContent)
        ensures
            final(self).room_switches@.len() == old(self).room_switches@.len(),
            forall|i: int|
                0 <= i < old(self).room_switches@.len() ==> {
                    let old_switch = #[trigger] old(self).room_switches@[i];
                    let new_switch = final(self).room_switches@[i];
                    &&& new_switch.topic == old_switch.topic
                    &&& new_switch.rooms@ == old_switch.rooms@
                    &&& new_switch.delay == old_switch.delay
                    &&& new_switch.state == if first_switch_memory_match(
                        old(self).room_switches@,
                        switch_content.topic@,
                        i,
                    ) {
                        switch_content.state
                    } else {
                        old_switch.state
                    }
                },
            final(self).room_sensors == old(self).room_sensors,
            final(self).room_state == old(self).room_state,
            final(self).current_room == old(self).current_room,
            final(self).disabled_switches == old(self).disabled_switches,
            final(self).enabled_switches == old(self).enabled_switches,
            final(self).ignored_switches == old(self).ignored_switches,
            final(self).brightness == old(self).brightness,
            final(self).look_ahead == old(self).look_ahead,
            final(self).current_room_threshold == old(self).current_room_threshold,
            final(self).room_tracking_enabled == old(self).room_tracking_enabled,
            final(self).ignored_sensors == old(self).ignored_sensors,
    {
        let mut new_switches: Vec<SwitchMemory> = Vec::new();
        let mut done: bool = false;
        let mut i: usize = 0;
        while i < self.room_switches.len()
            invariant
                0 <= i <= self.room_switches@.len(),
                new_switches@.len() == i,
                done == exists|j: int|
                    0 <= j < i && (#[trigger] self.room_switches@[j]).topic@
                        == switch_content.topic@,
                forall|k: int|
                    0 <= k < i ==> {
                        let old_switch = #[trigger] self.room_switches@[k];
                        let new_switch = new_switches@[k];
                        &&& new_switch.topic == old_switch.topic
                        &&& new_switch.rooms@ == old_switch.rooms@
                        &&& new_switch.delay == old_switch.delay
                        &&& new_switch.state == if first_switch_memory_match(
                            self.room_switches@,
                            switch_content.topic@,
                            k,
                        ) {
                            switch_content.state
                        } else {
                            old_switch.state
                        }
                    },
            decreases self.room_switches@.len() - i,
        {
            let switch = &self.room_switches[i];
            let is_first = !done && switch.topic.eq(&switch_content.topic);
            let new_state = if is_first {
                switch_content.state
            } else {
                switch.state
            };
            new_switches.push(
                SwitchMemory {
                    topic: switch.topic.clone(),
                    state: new_state,
                    rooms: crate::configuration::clone_string_vec(&switch.rooms),
                    delay: switch.delay,
                },
            );
            if is_first {
                done = true;
            } else if switch.topic.eq(&switch_content.topic) {
                done = true;
            }
            i = i + 1;
        }
        self.room_switches = new_switches;
    }

    /// The current state of every room, with the given look-ahead applied
    /// and ignored sensors skipped.
    pub fn get_room_state(&self, now: u64, look_ahead: u64) -> (r: Vec<
        (String, SensorMemoryNaiveState),
    >)
        requires
            now + look_ahead <= u64::MAX,
        ensures
            r@ == spec_room_states(self.room_sensors@, self.ignored_sensors@, now, look_ahead),
    {
        let mut rooms: Vec<(String, SensorMemoryNaiveState)> = Vec::new();
        let mut i: usize = 0;
        while i < self.room_sensors.len()
            invariant
                now + look_ahead <= u64::MAX,
                0 <= i <= self.room_sensors@.len(),
                rooms@.len() == i,
                forall|k: int|
                    0 <= k < i ==> #[trigger] rooms@[k] == (
                    self.room_sensors@[k].0,
                    spec_room_naive_state(
                        self.room_sensors@[k].1@,
                        self.ignored_sensors@,
                        now,
                        look_ahead,
                    ),
                ),
            decreases self.room_sensors@.len() - i,
        {
            let entries = &self.room_sensors[i].1;
            let mut state = SensorMemoryNaiveState::Uninitialized;
            let mut j: usize = 0;
            while j < entries.len()
                invariant
                    now + look_ahead <= u64::MAX,
                    0 <= j <= entries@.len(),
                    state == spec_room_naive_state(
                        entries@.take(j as int),
                        self.ignored_sensors@,
                        now,
                        look_ahead,
                    ),
                decreases entries@.len() - j,
            {
                proof {
                    assert(entries@.take(j + 1).drop_last() =~= entries@.take(j as int));
                }
                if !crate::configuration::vec_contains_string(
                    &self.ignored_sensors,
                    &entries[j].0,
                ) {
                    let naive = entries[j].1.get_naive_state(now, look_ahead);
                    state = match (state, naive) {
                        (_, SensorMemoryNaiveState::Present) => SensorMemoryNaiveState::Present,
                        (SensorMemoryNaiveState::Present, _) => SensorMemoryNaiveState::Present,
                        (
                            SensorMemoryNaiveState::AbsentSince(da),
                            SensorMemoryNaiveState::AbsentSince(db),
                        ) => SensorMemoryNaiveState::AbsentSince(
                            if da <= db {
                                da
                            } else {
                                db
                            },
                        ),
                        (
                            SensorMemoryNaiveState::AbsentSince(da),
                            SensorMemoryNaiveState::Uninitialized,
                        ) => SensorMemoryNaiveState::AbsentSince(da),
                        (
                            SensorMemoryNaiveState::Uninitialized,
                            SensorMemoryNaiveState::AbsentSince(db),
                        ) => SensorMemoryNaiveState::AbsentSince(db),
                        (
                            SensorMemoryNaiveState::Uninitialized,
                            SensorMemoryNaiveState::Uninitialized,
                        ) => SensorMemoryNaiveState::Uninitialized,
                    };
                }
                j = j + 1;
            }
            proof {
                assert(entries@.take(entries@.len() as int) =~= entries@);
            }
            rooms.push((self.room_sensors[i].0.clone(), state));
            i = i + 1;
        }
        proof {
            assert(rooms@ =~= spec_room_states(
                self.room_sensors@,
                self.ignored_sensors@,
                now,
                look_ahead,
            ));
        }
        rooms
    }

    /// Plan the switch commands that reconcile every switch with its desired
    /// state. With `ignore_current_state` every defined desired state is
    /// emitted; otherwise only those that differ from the last known one.
    /// The room-state cache is refreshed on the way.
    pub fn trigger_commands(&mut self, now: u64, ignore_current_state: bool) -> (commands: Vec<
        SwitchCommand,
    >)
        ensures
            final(self).room_state@ == spec_room_states(
                old(self).room_sensors@,
                old(self).ignored_sensors@,
                now,
                0,
            ),
            commands@ == spec_planned_commands(
                old(self).room_switches@,
                spec_room_states(old(self).room_sensors@, old(self).ignored_sensors@, now, 0),
                old(self).current_room,
                old(self).room_tracking_enabled,
                old(self).disabled_switches@,
                old(self).enabled_switches@,
                old(self).ignored_switches@,
                ignore_current_state,
                old(self).brightness,
            ),
            final(self).room_sensors == old(self).room_sensors,
            final(self).room_switches == old(self).room_switches,
            final(self).current_room == old(self).current_room,
            final(self).disabled_switches == old(self).disabled_switches,
            final(self).enabled_switches == old(self).enabled_switches,
            final(self).ignored_switches == old(self).ignored_switches,
            final(self).brightness == old(self).brightness,
            final(self).look_ahead == old(self).look_ahead,
            final(self).current_room_threshold == old(self).current_room_threshold,
            final(self).room_tracking_enabled == old(self).room_tracking_enabled,
            final(self).ignored_sensors == old(self).ignored_sensors,
    {
        let new_room_states = self.get_room_state(now, 0);
        self.room_state = new_room_states;

        let ghost states = spec_room_states(self.room_sensors@, self.ignored_sensors@, now, 0);
        let mut commands: Vec<SwitchCommand> = Vec::new();
        let mut i: usize = 0;
        while i < self.room_switches.len()
            invariant
                0 <= i <= self.room_switches@.len(),
                self.room_state@ == states,
                commands@ == spec_planned_commands(
                    self.room_switches@.take(i as int),
                    states,
                    self.current_room,
                    self.room_tracking_enabled,
                    self.disabled_switches@,
                    self.enabled_switches@,
                    self.ignored_switches@,
                    ignore_current_state,
                    self.brightness,
                ),
            decreases self.room_switches@.len() - i,
        {
            proof {
                assert(self.room_switches@.take(i + 1).drop_last() =~= self.room_switches@.take(
                    i as int,
                ));
            }
            let switch = &self.room_switches[i];
            let desired: Option<SwitchState> = if crate::configuration::vec_contains_string(
                &self.disabled_switches,
                &switch.topic,
            ) {
                Some(SwitchState::Off)
            } else if crate::configuration::vec_contains_string(
                &self.enabled_switches,
                &switch.topic,
            ) {
                Some(SwitchState::On)
            } else if crate::configuration::vec_contains_string(
                &self.ignored_switches,
                &switch.topic,
            ) {
                None
            } else {
                desired_state_for_switch(
                    switch,
                    &self.room_state,
                    &self.current_room,
                    self.room_tracking_enabled,
                )
            };
            match desired {
                None => {},
                Some(state) => {
                    if state != switch.state || ignore_current_state {
                        commands.push(
                            SwitchCommand {
                                topic: switch.topic.clone(),
                                state,
                                brightness: self.brightness,
                            },
                        );
                    }
                },
            }
            i = i + 1;
        }
        proof {
            assert(self.room_switches@.take(self.room_switches@.len() as int)
                =~= self.room_switches@);
        }
        commands
    }

    /// Elect the current room, anticipating near-future absences by the
    /// engine's look-ahead. At most one room is elected; with two or more
    /// present rooms the election never changes its choice; the current
    /// room keeps the election against any room whose absence is at least
    /// as long, and against every other room while its own absence is
    /// still within the threshold.
    #[verifier::rlimit(100)]
    pub fn calculate_current_room(&mut self, now: u64)
        requires
            old(self).wf(),
            now + old(self).look_ahead <= u64::MAX,
        ensures
            final(self).wf(),
            *final(self) == (Strategy { current_room: final(self).current_room, ..*old(self) }),
            ({
                let states = spec_room_states(
                    old(self).room_sensors@,
                    old(self).ignored_sensors@,
                    now,
                    old(self).look_ahead,
                );
                &&& states.len() <= 1 ==> final(self).current_room is None
                &&& states.len() >= 2 && spec_two_rooms_present(states) ==> final(self).current_room == old(self).current_room
                &&& states.len() >= 2 && spec_some_room_present(states) && !spec_two_rooms_present(
                    states,
                ) ==> forall|i: int|
                    0 <= i < states.len() && (#[trigger] states[i]).1 is Present ==> final(self).current_room == Some(states[i].0)
                &&& states.len() >= 2 && !spec_some_room_present(states) && !spec_some_room_absent(
                    states,
                ) ==> final(self).current_room is None
                &&& states.len() >= 2 && !spec_some_room_present(states) && spec_some_room_absent(
                    states,
                ) && old(self).current_room is None ==> forall|i: int|
                    is_best_room(states, i) ==> final(self).current_room == Some(states[i].0)
                &&& old(self).current_room matches Some(cur) ==> (states.len() >= 2
                    && !spec_some_room_present(states) && spec_some_room_absent(states)
                    ==> forall|i: int|
                    #![trigger states[i]]
                    is_best_other_room(states, cur@, i) ==> {
                        let other = states[i].1;
                        let cur_state = spec_room_lookup(states, cur@);
                        &&& other is Uninitialized ==> final(self).current_room == old(self).current_room
                        &&& other matches SensorMemoryNaiveState::AbsentSince(other_duration)
                            ==> {
                            &&& cur_state is Uninitialized ==> final(self).current_room == Some(
                                states[i].0,
                            )
                            &&& cur_state is Present ==> final(self).current_room == old(self).current_room
                            &&& cur_state matches SensorMemoryNaiveState::AbsentSince(cur_duration)
                                ==> final(self).current_room == (
                            if other_duration >= cur_duration {
                                old(self).current_room
                            } else if cur_duration > old(self).current_room_threshold {
                                Some(states[i].0)
                            } else {
                                old(self).current_room
                            })
                        }
                    })
            }),
    {
        let states = self.get_room_state(now, self.look_ahead);
        let ghost states_spec = states@;
        proof {
            assert forall|i: int, j: int|
                0 <= i < j < states_spec.len() implies (#[trigger] states_spec[i]).0@ != (
            #[trigger] states_spec[j]).0@ by {
                assert(self.room_sensors@[i].0@ != self.room_sensors@[j].0@);
            }
        }
        if states.len() <= 1 {
            self.current_room = None;
            return;
        }
        // find the first two present rooms, if they exist
        let mut first_present: Option<usize> = None;
        let mut second_present: Option<usize> = None;
        let mut k: usize = 0;
        while k < states.len()
            invariant
                0 <= k <= states_spec.len(),
                states@ == states_spec,
                match (first_present, second_present) {
                    (None, None) => forall|j: int|
                        0 <= j < k ==> !((#[trigger] states_spec[j]).1 is Present),
                    (Some(p), None) => p < k && states_spec[p as int].1 is Present && forall|j: int|
                        0 <= j < k && j != p ==> !((#[trigger] states_spec[j]).1 is Present),
                    (Some(p), Some(q)) => p < q < k && states_spec[p as int].1 is Present
                        && states_spec[q as int].1 is Present,
                    (None, Some(_)) => false,
                },
            decreases states_spec.len() - k,
        {
            if states[k].1 == SensorMemoryNaiveState::Present {
                if first_present.is_none() {
                    first_present = Some(k);
                } else if second_present.is_none() {
                    second_present = Some(k);
                }
            }
            k = k + 1;
        }
        match (first_present, second_present) {
            (Some(_), Some(_)) => {
                // two or more rooms are present: keep the election
                return;
            },
            (Some(p), None) => {
                // exactly one room is present: it is elected
                self.current_room = Some(states[p].0.clone());
                proof {
                    assert(self.room_sensors@[p as int].0 == states_spec[p as int].0);
                }
                return;
            },
            (_, _) => {},
        }
        // no room is present; is any absent?
        let mut any_absent: bool = false;
        let mut a: usize = 0;
        while a < states.len()
            invariant
                0 <= a <= states_spec.len(),
                states@ == states_spec,
                any_absent == exists|j: int|
                    0 <= j < a && (#[trigger] states_spec[j]).1 is AbsentSince,
            decreases states_spec.len() - a,
        {
            match states[a].1 {
                SensorMemoryNaiveState::AbsentSince(_) => {
                    any_absent = true;
                },
                _ => {},
            }
            a = a + 1;
        }
        if !any_absent {
            // every room is uninitialized: nobody can be located
            self.current_room = None;
            return;
        }
        let cur_opt: Option<String> = match &self.current_room {
            Some(cur) => Some(cur.clone()),
            None => None,
        };
        match cur_opt {
            None => {
                // no current room yet: the first-ranked room takes it
                let mut best: usize = 0;
                let mut m: usize = 1;
                proof {
                    lemma_room_pair_lt_asymmetric(states_spec[0], states_spec[0]);
                }
                while m < states.len()
                    invariant
                        0 <= best < m <= states_spec.len(),
                        states_spec.len() > 0,
                        states@ == states_spec,
                        forall|i: int, j: int|
                            0 <= i < j < states_spec.len() ==> (#[trigger] states_spec[i]).0@ != (
                            #[trigger] states_spec[j]).0@,
                        forall|j: int|
                            0 <= j < m && j != best ==> !room_pair_lt(
                                #[trigger] states_spec[j],
                                states_spec[best as int],
                            ),
                    decreases states_spec.len() - m,
                {
                    if room_pair_before(&states[m], &states[best]) {
                        proof {
                            lemma_room_pair_lt_asymmetric(
                                states_spec[m as int],
                                states_spec[best as int],
                            );
                            assert forall|j: int| 0 <= j < m + 1 && j != m implies !room_pair_lt(
                                #[trigger] states_spec[j],
                                states_spec[m as int],
                            ) by {
                                if j != best && room_pair_lt(states_spec[j], states_spec[m as int]) {
                                    lemma_room_pair_lt_trans(
                                        states_spec[j],
                                        states_spec[m as int],
                                        states_spec[best as int],
                                    );
                                }
                            }
                        }
                        best = m;
                    }
                    m = m + 1;
                }
                proof {
                    assert forall|j: int|
                        0 <= j < states_spec.len() && j != best implies room_pair_lt(
                        states_spec[best as int],
                        #[trigger] states_spec[j],
                    ) by {
                        lemma_room_pair_lt_total(states_spec[best as int], states_spec[j]);
                    }
                    assert(is_best_room(states_spec, best as int));
                    assert forall|i: int| is_best_room(states_spec, i) implies i == best by {
                        if i != best {
                            assert(room_pair_lt(states_spec[i], states_spec[best as int]));
                            lemma_room_pair_lt_asymmetric(
                                states_spec[i],
                                states_spec[best as int],
                            );
                        }
                    }
                }
                self.current_room = Some(states[best].0.clone());
                proof {
                    assert(self.room_sensors@[best as int].0 == states_spec[best as int].0);
                }
                return;
            },
            Some(cur) => {
                let cur_state = lookup_room_state(&states, &cur);
                // first-ranked room other than the current one
                let mut best_other: Option<usize> = None;
                let mut m: usize = 0;
                while m < states.len()
                    invariant
                        0 <= m <= states_spec.len(),
                        states@ == states_spec,
                        forall|i: int, j: int|
                            0 <= i < j < states_spec.len() ==> (#[trigger] states_spec[i]).0@ != (
                            #[trigger] states_spec[j]).0@,
                        match best_other {
                            None => forall|j: int|
                                0 <= j < m ==> (#[trigger] states_spec[j]).0@ == cur@,
                            Some(b) => b < m && states_spec[b as int].0@ != cur@ && forall|j: int|
                                0 <= j < m && j != b && (#[trigger] states_spec[j]).0@ != cur@
                                    ==> !room_pair_lt(states_spec[j], states_spec[b as int]),
                        },
                    decreases states_spec.len() - m,
                {
                    if !states[m].0.eq(&cur) {
                        match best_other {
                            None => {
                                best_other = Some(m);
                            },
                            Some(b) => {
                                if room_pair_before(&states[m], &states[b]) {
                                    proof {
                                        lemma_room_pair_lt_asymmetric(
                                            states_spec[m as int],
                                            states_spec[b as int],
                                        );
                                        assert forall|j: int|
                                            0 <= j < m + 1 && j != m && (
                                        #[trigger] states_spec[j]).0@ != cur@ implies !room_pair_lt(
                                            states_spec[j],
                                            states_spec[m as int],
                                        ) by {
                                            if j != b && room_pair_lt(
                                                states_spec[j],
                                                states_spec[m as int],
                                            ) {
                                                lemma_room_pair_lt_trans(
                                                    states_spec[j],
                                                    states_spec[m as int],
                                                    states_spec[b as int],
                                                );
                                            }
                                        }
                                    }
                                    best_other = Some(m);
                                }
                            },
                        }
                    }
                    m = m + 1;
                }
                let b = match best_other {
                    Some(b) => b,
                    None => {
                        proof {
                            assert(states_spec[0].0@ == cur@);
                            assert(states_spec[1].0@ == cur@);
                            assert(false);
                        }
                        return;
                    },
                };
                proof {
                    assert forall|j: int|
                        0 <= j < states_spec.len() && j != b && (#[trigger] states_spec[j]).0@
                            != cur@ implies room_pair_lt(states_spec[b as int], states_spec[j]) by {
                        lemma_room_pair_lt_total(states_spec[b as int], states_spec[j]);
                    }
                    assert(is_best_other_room(states_spec, cur@, b as int));
                    assert forall|i: int|
                        #![trigger states_spec[i]]
                        is_best_other_room(states_spec, cur@, i) implies i == b by {
                        if i != b {
                            assert(room_pair_lt(states_spec[i], states_spec[b as int]));
                            lemma_room_pair_lt_asymmetric(
                                states_spec[i],
                                states_spec[b as int],
                            );
                        }
                    }
                }
                match (states[b].1, cur_state) {
                    (SensorMemoryNaiveState::Uninitialized, _) => {
                        return;
                    },
                    (
                        SensorMemoryNaiveState::AbsentSince(_),
                        SensorMemoryNaiveState::Uninitialized,
                    ) => {
                        self.current_room = Some(states[b].0.clone());
                        proof {
                            assert(self.room_sensors@[b as int].0 == states_spec[b as int].0);
                        }
                        return;
                    },
                    (
                        SensorMemoryNaiveState::AbsentSince(_),
                        SensorMemoryNaiveState::Present,
                    ) => {
                        return;
                    },
                    (
                        SensorMemoryNaiveState::AbsentSince(other_duration),
                        SensorMemoryNaiveState::AbsentSince(cur_duration),
                    ) => {
                        if other_duration >= cur_duration {
                            return;
                        }
                        if cur_duration > self.current_room_threshold {
                            self.current_room = Some(states[b].0.clone());
                            proof {
                                assert(self.room_sensors@[b as int].0 == states_spec[b as int].0);
                            }
                            return;
                        }
                        return;
                    },
                    (SensorMemoryNaiveState::Present, _) => {
                        return;
                    },
                }
            },
        }
    }

    /// Set the brightness every further command carries.
    pub fn set_brightness(&mut self, brightness: u8)
        ensures
            *final(self) == (Strategy { brightness, ..*old(self) }),
    {
        self.brightness = brightness;
    }

    /// Switch room tracking on or off.
    pub fn set_room_tracking_enabled(&mut self, room_tracking_enabled: bool)
        ensures
            *final(self) == (Strategy { room_tracking_enabled, ..*old(self) }),
    {
        self.room_tracking_enabled = room_tracking_enabled;
    }

    /// Replace the set of switch topics forced off.
    pub fn set_disabled_switches(&mut self, disabled_switches: Vec<String>)
        ensures
            *final(self) == (Strategy { disabled_switches, ..*old(self) }),
    {
        self.disabled_switches = disabled_switches;
    }

    /// Replace the set of switch topics forced on.
    pub fn set_enabled_switches(&mut self, enabled_switches: Vec<String>)
        ensures
            *final(self) == (Strategy { enabled_switches, ..*old(self) }),
    {
        self.enabled_switches = enabled_switches;
    }

    /// Replace the set of switch topics never commanded.
    pub fn set_ignored_switches(&mut self, ignored_switches: Vec<String>)
        ensures
            *final(self) == (Strategy { ignored_switches, ..*old(self) }),
    {
        self.ignored_switches = ignored_switches;
    }
}

/// Scene override precedence. A switch topic in the disabled set is only
/// ever commanded off, one in the enabled set (and not in the disabled set)
/// only ever on, independent of occupancy; for a topic in the ignored set
/// alone, no command is ever emitted.
pub proof fn lemma_scene_override_precedence(
    switches: Seq<SwitchMemory>,
    states: Seq<(String, SensorMemoryNaiveState)>,
    current_room: Option<String>,
    room_tracking_enabled: bool,
    disabled: Seq<String>,
    enabled: Seq<String>,
    ignored: Seq<String>,
    ignore_current_state: bool,
    brightness: u8,
    topic: Seq<char>,
)
    ensures
        ({
            let commands = spec_planned_commands(
                switches,
                states,
                current_room,
                room_tracking_enabled,
                disabled,
                enabled,
                ignored,
                ignore_current_state,
                brightness,
            );
            &&& contains_string(disabled, topic) ==> forall|k: int|
                0 <= k < commands.len() && (#[trigger] commands[k]).topic@ == topic ==> commands[k].state is Off
            &&& !contains_string(disabled, topic) && contains_string(enabled, topic)
                ==> forall|k: int|
                0 <= k < commands.len() && (#[trigger] commands[k]).topic@ == topic ==> commands[k].state is On
            &&& !contains_string(disabled, topic) && !contains_string(enabled, topic)
                && contains_string(ignored, topic) ==> forall|k: int|
                0 <= k < commands.len() ==> (#[trigger] commands[k]).topic@ != topic
        }),
    decreases switches.len(),
{
    if switches.len() > 0 {
        lemma_scene_override_precedence(
            switches.drop_last(),
            states,
            current_room,
            room_tracking_enabled,
            disabled,
            enabled,
            ignored,
            ignore_current_state,
            brightness,
            topic,
        );
        let rest = spec_planned_commands(
            switches.drop_last(),
            states,
            current_room,
            room_tracking_enabled,
            disabled,
            enabled,
            ignored,
            ignore_current_state,
            brightness,
        );
        let commands = spec_planned_commands(
            switches,
            states,
            current_room,
            room_tracking_enabled,
            disabled,
            enabled,
            ignored,
            ignore_current_state,
            brightness,
        );
        assert(forall|k: int| 0 <= k < rest.len() ==> commands[k] == rest[k]);
    }
}

/// No-op suppression: when every switch's desired state is undefined or
/// already its last known state, the plan without the force flag is empty.
pub proof fn lemma_noop_suppression(
    switches: Seq<SwitchMemory>,
    states: Seq<(String, SensorMemoryNaiveState)>,
    current_room: Option<String>,
    room_tracking_enabled: bool,
    disabled: Seq<String>,
    enabled: Seq<String>,
    ignored: Seq<String>,
    brightness: u8,
)
    requires
        forall|i: int|
            0 <= i < switches.len() ==> (spec_desired_state(
                #[trigger] switches[i],
                states,
                current_room,
                room_tracking_enabled,
                disabled,
                enabled,
                ignored,
            ) matches Some(desired) ==> desired == switches[i].state),
    ensures
        spec_planned_commands(
            switches,
            states,
            current_room,
            room_tracking_enabled,
            disabled,
            enabled,
            ignored,
            false,
            brightness,
        ) == Seq::<SwitchCommand>::empty(),
    decreases switches.len(),
{
    if switches.len() > 0 {
        assert(switches[switches.len() - 1] == switches.last());
        lemma_noop_suppression(
            switches.drop_last(),
            states,
            current_room,
            room_tracking_enabled,
            disabled,
            enabled,
            ignored,
            brightness,
        );
    }
}

/// A plan holds no command for a topic that no switch in the list reports
/// on.
pub proof fn lemma_plan_skips_foreign_topics(
    switches: Seq<SwitchMemory>,
    states: Seq<(String, SensorMemoryNaiveState)>,
    current_room: Option<String>,
    room_tracking_enabled: bool,
    disabled: Seq<String>,
    enabled: Seq<String>,
    ignored: Seq<String>,
    ignore_current_state: bool,
    brightness: u8,
    topic: Seq<char>,
)
    requires
        forall|i: int| 0 <= i < switches.len() ==> (#[trigger] switches[i]).topic@ != topic,
    ensures
        count_topic(
            spec_planned_commands(
                switches,
                states,
                current_room,
                room_tracking_enabled,
                disabled,
                enabled,
                ignored,
                ignore_current_state,
                brightness,
            ),
            topic,
        ) == 0,
    decreases switches.len(),
{
    if switches.len() > 0 {
        assert(switches[switches.len() - 1] == switches.last());
        lemma_plan_skips_foreign_topics(
            switches.drop_last(),
            states,
            current_room,
            room_tracking_enabled,
            disabled,
            enabled,
            ignored,
            ignore_current_state,
            brightness,
            topic,
        );
        let rest = spec_planned_commands(
            switches.drop_last(),
            states,
            current_room,
            room_tracking_enabled,
            disabled,
            enabled,
            ignored,
            ignore_current_state,
            brightness,
        );
        let commands = spec_planned_commands(
            switches,
            states,
            current_room,
            room_tracking_enabled,
            disabled,
            enabled,
            ignored,
            ignore_current_state,
            brightness,
        );
        if commands.len() == rest.len() + 1 {
            assert(commands.drop_last() =~= rest);
        } else {
            assert(commands =~= rest);
        }
    }
}

/// Scene-change forced re-assert: with the force flag set and distinct
/// switch topics, every switch with a defined desired state appears in the
/// plan exactly once.
pub proof fn lemma_scene_change_reasserts(
    switches: Seq<SwitchMemory>,
    states: Seq<(String, SensorMemoryNaiveState)>,
    current_room: Option<String>,
    room_tracking_enabled: bool,
    disabled: Seq<String>,
    enabled: Seq<String>,
    ignored: Seq<String>,
    brightness: u8,
    i: int,
)
    requires
        forall|a: int, b: int|
            0 <= a < b < switches.len() ==> (#[trigger] switches[a]).topic@ != (
            #[trigger] switches[b]).topic@,
        0 <= i < switches.len(),
        spec_desired_state(
            switches[i],
            states,
            current_room,
            room_tracking_enabled,
            disabled,
            enabled,
            ignored,
        ) is Some,
    ensures
        count_topic(
            spec_planned_commands(
                switches,
                states,
                current_room,
                room_tracking_enabled,
                disabled,
                enabled,
                ignored,
                true,
                brightness,
            ),
            switches[i].topic@,
        ) == 1,
    decreases switches.len(),
{
    if switches.len() > 0 {
        assert(switches[switches.len() - 1] == switches.last());
        let topic = switches[i].topic@;
        if i == switches.len() - 1 {
            lemma_plan_skips_foreign_topics(
                switches.drop_last(),
                states,
                current_room,
                room_tracking_enabled,
                disabled,
                enabled,
                ignored,
                true,
                brightness,
                topic,
            );
        } else {
            lemma_scene_change_reasserts(
                switches.drop_last(),
                states,
                current_room,
                room_tracking_enabled,
                disabled,
                enabled,
                ignored,
                brightness,
                i,
            );
        }
        let rest = spec_planned_commands(
            switches.drop_last(),
            states,
            current_room,
            room_tracking_enabled,
            disabled,
            enabled,
            ignored,
            true,
            brightness,
        );
        let commands = spec_planned_commands(
            switches,
            states,
            current_room,
            room_tracking_enabled,
            disabled,
            enabled,
            ignored,
            true,
            brightness,
        );
        if commands.len() == rest.len() + 1 {
            assert(commands.drop_last() =~= rest);
        } else {
            assert(commands =~= rest);
        }
    }
}

/// Compare two (room, state) pairs in election order.
fn room_pair_before(
    a: &(String, SensorMemoryNaiveState),
    b: &(String, SensorMemoryNaiveState),
) -> (r: bool)
    ensures
        r == room_pair_lt(*a, *b),
{
    let rank_a: u8 = match a.1 {
        SensorMemoryNaiveState::Present => 0,
        SensorMemoryNaiveState::AbsentSince(_) => 1,
        SensorMemoryNaiveState::Uninitialized => 2,
    };
    let rank_b: u8 = match b.1 {
        SensorMemoryNaiveState::Present => 0,
        SensorMemoryNaiveState::AbsentSince(_) => 1,
        SensorMemoryNaiveState::Uninitialized => 2,
    };
    if rank_a < rank_b {
        return true;
    }
    if rank_a > rank_b {
        return false;
    }
    match (a.1, b.1) {
        (
            SensorMemoryNaiveState::AbsentSince(da),
            SensorMemoryNaiveState::AbsentSince(db),
        ) => {
            if da < db {
                return true;
            }
            if da > db {
                return false;
            }
            crate::strategy::room_state::str_lt(a.0.as_str(), b.0.as_str())
        },
        _ => crate::strategy::room_state::str_lt(a.0.as_str(), b.0.as_str()),
    }
}

/// The state recorded for `room` in a computed room-state vector.
fn lookup_room_state(
    states: &Vec<(String, SensorMemoryNaiveState)>,
    room: &String,
) -> (r: SensorMemoryNaiveState)
    ensures
        r == spec_room_lookup(states@, room@),
{
    let mut i: usize = 0;
    proof {
        assert(states@.skip(0) =~= states@);
    }
    while i < states.len()
        invariant
            0 <= i <= states@.len(),
            spec_room_lookup(states@, room@) == spec_room_lookup(states@.skip(i as int), room@),
        decreases states@.len() - i,
    {
        proof {
            assert(states@.skip(i as int)[0] == states@[i as int]);
            assert(states@.skip(i as int).drop_first() =~= states@.skip(i + 1));
        }
        if states[i].0.eq(room) {
            return states[i].1;
        }
        i = i + 1;
    }
    SensorMemoryNaiveState::Uninitialized
}

/// Walk a switch's rooms in order and decide its desired state, if any.
fn desired_state_for_switch(
    switch: &SwitchMemory,
    states: &Vec<(String, SensorMemoryNaiveState)>,
    current_room: &Option<String>,
    room_tracking_enabled: bool,
) -> (r: Option<SwitchState>)
    ensures
        r == spec_desired_from_rooms(
            switch.rooms@,
            states@,
            *current_room,
            room_tracking_enabled,
            switch.delay,
        ),
{
    let ghost rooms = switch.rooms@;
    let mut k: usize = 0;
    proof {
        assert(rooms.skip(0) =~= rooms);
    }
    while k < switch.rooms.len()
        invariant
            0 <= k <= rooms.len(),
            rooms == switch.rooms@,
            spec_desired_from_rooms(
                rooms,
                states@,
                *current_room,
                room_tracking_enabled,
                switch.delay,
            ) == spec_desired_from_rooms(
                rooms.skip(k as int),
                states@,
                *current_room,
                room_tracking_enabled,
                switch.delay,
            ),
        decreases rooms.len() - k,
    {
        proof {
            assert(rooms.skip(k as int)[0] == rooms[k as int]);
            assert(rooms.skip(k as int).drop_first() =~= rooms.skip(k + 1));
        }
        let room = &switch.rooms[k];
        if room_tracking_enabled {
            match current_room {
                Some(current) => {
                    if current.eq(room) {
                        return Some(SwitchState::On);
                    }
                },
                None => {},
            }
        }
        match lookup_room_state(states, room) {
            SensorMemoryNaiveState::Present => {
                return Some(SwitchState::On);
            },
            SensorMemoryNaiveState::AbsentSince(duration) => {
                return Some(
                    if duration > switch.delay {
                        SwitchState::Off
                    } else {
                        SwitchState::On
                    },
                );
            },
            SensorMemoryNaiveState::Uninitialized => {},
        }
        k = k + 1;
    }
    None
}

} // verus!
