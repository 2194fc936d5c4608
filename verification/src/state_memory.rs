//! A plain occupancy engine without hysteresis: rooms are present while
//! any of their sensors is, and switches follow their rooms directly.

use vstd::prelude::*;
use crate::configuration::{Configuration, SensorState, SwitchState};
use crate::strategy::spec_room_names;
use crate::{SensorChangeContent, SwitchChangeContent};

verus! {

/// Remembered state of a sensor. Instants are monotonic milliseconds.
#[derive(Clone, Copy, Debug, PartialEq, Eq, Structural)]
pub enum SensorMemoryState {
    /// absent since program start
    Absent,
    /// presence reported
    Present,
    /// was present once, absent since the remembered instant
    AbsentSince(u64),
}

/// Memory kept for one sensor.
pub struct SensorMemory {
    pub state: SensorMemoryState,
}

/// Memory kept for one switch.
pub struct SwitchMemory {
    pub topic: String,
    pub state: SwitchState,
    pub rooms: Vec<String>,
}

/// A planned command: set the switch behind `topic` to `state`.
pub struct SwitchCommand {
    pub topic: String,
    pub state: SwitchState,
}

/// The engine state: sensors grouped by room, and the switches.
pub struct StateMemory {
    pub room_sensors: Vec<(String, Vec<(String, SensorMemory)>)>,
    pub room_switches: Vec<SwitchMemory>,
}

/// The remembered state after one report: an absence instant is set only on
/// the transition away from Present; repeated absence reports never refresh
/// it.
pub open spec fn memory_transition(
    prior: SensorMemoryState,
    raw: SensorState,
    instant: u64,
) -> SensorMemoryState {
    match (prior, raw) {
        (SensorMemoryState::Absent, SensorState::Absent) => SensorMemoryState::Absent,
        (SensorMemoryState::AbsentSince(since), SensorState::Absent) => SensorMemoryState::AbsentSince(
            since,
        ),
        (SensorMemoryState::Absent, SensorState::Present) => SensorMemoryState::Present,
        (SensorMemoryState::AbsentSince(_), SensorState::Present) => SensorMemoryState::Present,
        (SensorMemoryState::Present, SensorState::Absent) => SensorMemoryState::AbsentSince(instant),
        (SensorMemoryState::Present, SensorState::Present) => SensorMemoryState::Present,
    }
}

/// Fold of two remembered states into one room state: any presence wins,
/// then the youngest absence instant, then any absence instant over plain
/// absence.
pub open spec fn combine_memory_states(
    a: SensorMemoryState,
    b: SensorMemoryState,
) -> SensorMemoryState {
    match (a, b) {
        (_, SensorMemoryState::Present) => SensorMemoryState::Present,
        (SensorMemoryState::Present, _) => SensorMemoryState::Present,
        (SensorMemoryState::AbsentSince(ta), SensorMemoryState::AbsentSince(tb)) => SensorMemoryState::AbsentSince(
            if ta >= tb {
                ta
            } else {
                tb
            },
        ),
        (SensorMemoryState::AbsentSince(ta), SensorMemoryState::Absent) => SensorMemoryState::AbsentSince(
            ta,
        ),
        (SensorMemoryState::Absent, SensorMemoryState::AbsentSince(tb)) => SensorMemoryState::AbsentSince(
            tb,
        ),
        (SensorMemoryState::Absent, SensorMemoryState::Absent) => SensorMemoryState::Absent,
    }
}

/// The aggregate state of a room: the fold of its sensors' states,
/// starting from plain absence.
pub open spec fn spec_memory_room_state(entries: Seq<(String, SensorMemory)>) -> SensorMemoryState
    decreases entries.len(),
{
    if entries.len() == 0 {
        SensorMemoryState::Absent
    } else {
        combine_memory_states(
            spec_memory_room_state(entries.drop_last()),
            entries.last().1.state,
        )
    }
}

/// The aggregate states of all rooms, in configuration order.
pub open spec fn spec_memory_room_states(
    room_sensors: Seq<(String, Vec<(String, SensorMemory)>)>,
) -> Seq<(String, SensorMemoryState)> {
    Seq::new(
        room_sensors.len(),
        |i: int| (room_sensors[i].0, spec_memory_room_state(room_sensors[i].1@)),
    )
}

/// The state recorded for `room`, first occurrence; a missing room reads as
/// plain absence.
pub open spec fn spec_memory_lookup(
    states: Seq<(String, SensorMemoryState)>,
    room: Seq<char>,
) -> SensorMemoryState
    decreases states.len(),
{
    if states.len() == 0 {
        SensorMemoryState::Absent
    } else if states[0].0@ == room {
        states[0].1
    } else {
        spec_memory_lookup(states.drop_first(), room)
    }
}

/// A switch should be on exactly when one of its rooms is present.
pub open spec fn spec_memory_should_be_on(
    rooms: Seq<String>,
    room_states: Seq<(String, SensorMemoryState)>,
) -> bool {
    exists|i: int|
        0 <= i < rooms.len() && spec_memory_lookup(room_states, (#[trigger] rooms[i])@) is Present
}

/// The plan: one command per switch whose expected state differs from its
/// last known one, in declaration order.
pub open spec fn spec_memory_commands(
    switches: Seq<SwitchMemory>,
    room_states: Seq<(String, SensorMemoryState)>,
) -> Seq<SwitchCommand>
    decreases switches.len(),
{
    if switches.len() == 0 {
        Seq::empty()
    } else {
        let rest = spec_memory_commands(switches.drop_last(), room_states);
        let switch = switches.last();
        let should = if spec_memory_should_be_on(switch.rooms@, room_states) {
            SwitchState::On
        } else {
            SwitchState::Off
        };
        if should != switch.state {
            rest.push(SwitchCommand { topic: switch.topic, state: should })
        } else {
            rest
        }
    }
}

/// The initial sensor memories of one room: every sensor of the room,
/// absent, in configuration order.
pub open spec fn spec_initial_entries(
    sensors: Seq<crate::configuration::Sensor>,
    room: Seq<char>,
) -> Seq<(String, SensorMemory)>
    decreases sensors.len(),
{
    if sensors.len() == 0 {
        Seq::empty()
    } else {
        let rest = spec_initial_entries(sensors.drop_last(), room);
        let sensor = sensors.last();
        if sensor.room@ == room {
            rest.push((sensor.topic, SensorMemory { state: SensorMemoryState::Absent }))
        } else {
            rest
        }
    }
}

/// A room that never occurs in the sensor list owns no initial entries.
proof fn lemma_initial_entries_empty_for_unknown(
    sensors: Seq<crate::configuration::Sensor>,
    room: Seq<char>,
)
    requires
        !crate::configuration::contains_string(spec_room_names(sensors), room),
    ensures
        spec_initial_entries(sensors, room) == Seq::<(String, SensorMemory)>::empty(),
    decreases sensors.len(),
{
    if sensors.len() > 0 {
        let names = spec_room_names(sensors);
        let rest_names = spec_room_names(sensors.drop_last());
        if crate::configuration::contains_string(rest_names, room) {
            let i = choose|i: int| 0 <= i < rest_names.len() && rest_names[i]@ == room;
            if crate::configuration::contains_string(rest_names, sensors.last().room@) {
                assert(names[i]@ == room);
            } else {
                assert(names[i] == rest_names[i]);
                assert(names[i]@ == room);
            }
            assert(false);
        }
        lemma_initial_entries_empty_for_unknown(sensors.drop_last(), room);
        if sensors.last().room@ == room {
            assert(names[names.len() - 1]@ == room);
            assert(false);
        }
    }
}

impl StateMemory {
    /// Build the engine out of a configuration: sensors grouped by room,
    /// every sensor absent, every switch off.
    pub fn new(configuration: &Configuration) -> (result: StateMemory)
        ensures
            result.room_sensors@.len() == spec_room_names(configuration.sensors@).len(),
            forall|i: int|
                0 <= i < result.room_sensors@.len() ==> (#[trigger] result.room_sensors@[i]).0
                    == spec_room_names(configuration.sensors@)[i],
            forall|i: int|
                0 <= i < result.room_sensors@.len() ==> (#[trigger] result.room_sensors@[i]).1@
                    == spec_initial_entries(configuration.sensors@, result.room_sensors@[i].0@),
            result.room_switches@.len() == configuration.switches@.len(),
            forall|i: int|
                0 <= i < result.room_switches@.len() ==> {
                    let switch = #[trigger] result.room_switches@[i];
                    &&& switch.topic == configuration.switches@[i].topic
                    &&& switch.state == SwitchState::Off
                    &&& switch.rooms@ == configuration.switches@[i].rooms@
                },
    {
        let ghost all_sensors = configuration.sensors@;
        let mut room_sensors: Vec<(String, Vec<(String, SensorMemory)>)> = Vec::new();
        let mut s: usize = 0;
        while s < configuration.sensors.len()
            invariant
                0 <= s <= all_sensors.len(),
                all_sensors == configuration.sensors@,
                room_sensors@.len() == spec_room_names(all_sensors.take(s as int)).len(),
                forall|i: int|
                    0 <= i < room_sensors@.len() ==> (#[trigger] room_sensors@[i]).0
                        == spec_room_names(all_sensors.take(s as int))[i],
                forall|i: int|
                    0 <= i < room_sensors@.len() ==> (#[trigger] room_sensors@[i]).1@
                        == spec_initial_entries(all_sensors.take(s as int), room_sensors@[i].0@),
            decreases all_sensors.len() - s,
        {
            let ghost prefix = all_sensors.take(s as int);
            let ghost next_prefix = all_sensors.take(s + 1);
            proof {
                assert(next_prefix.drop_last() =~= prefix);
                assert(next_prefix.last() == all_sensors[s as int]);
            }
            let sensor = &configuration.sensors[s];
            let mut g: usize = 0;
            let mut found: Option<usize> = None;
            while g < room_sensors.len()
                invariant
                    0 <= g <= room_sensors@.len(),
                    match found {
                        Some(idx) => idx < g && room_sensors@[idx as int].0@ == sensor.room@,
                        None => forall|j: int|
                            0 <= j < g ==> (#[trigger] room_sensors@[j]).0@ != sensor.room@,
                    },
                decreases room_sensors@.len() - g,
            {
                if found.is_none() && room_sensors[g].0.eq(&sensor.room) {
                    found = Some(g);
                }
                g = g + 1;
            }
            let entry = (sensor.topic.clone(), SensorMemory { state: SensorMemoryState::Absent });
            match found {
                Some(idx) => {
                    proof {
                        assert(crate::configuration::contains_string(
                            spec_room_names(prefix),
                            sensor.room@,
                        ));
                        crate::strategy::lemma_room_names_distinct(prefix);
                    }
                    let group = vstd::std_specs::vec::vec_index_mut(&mut room_sensors, idx);
                    group.1.push(entry);
                    proof {
                        assert forall|i: int|
                            0 <= i < room_sensors@.len() implies (#[trigger] room_sensors@[i]).1@
                            == spec_initial_entries(next_prefix, room_sensors@[i].0@) by {
                            if i == idx {
                                assert(room_sensors@[i].0@ == sensor.room@);
                            } else {
                                assert(room_sensors@[i].0@ != sensor.room@);
                            }
                        }
                        assert(spec_room_names(next_prefix) =~= spec_room_names(prefix));
                    }
                },
                None => {
                    proof {
                        assert forall|j: int|
                            0 <= j < spec_room_names(prefix).len() implies (
                        #[trigger] spec_room_names(prefix)[j])@ != sensor.room@ by {
                            assert(room_sensors@[j].0 == spec_room_names(prefix)[j]);
                            assert(room_sensors@[j].0@ != sensor.room@);
                        }
                        assert(!crate::configuration::contains_string(
                            spec_room_names(prefix),
                            sensor.room@,
                        ));
                        lemma_initial_entries_empty_for_unknown(prefix, sensor.room@);
                    }
                    let mut inner: Vec<(String, SensorMemory)> = Vec::new();
                    inner.push(entry);
                    room_sensors.push((sensor.room.clone(), inner));
                    proof {
                        assert(spec_room_names(next_prefix) =~= spec_room_names(prefix).push(
                            all_sensors[s as int].room,
                        ));
                        assert forall|i: int|
                            0 <= i < room_sensors@.len() implies (#[trigger] room_sensors@[i]).1@
                            == spec_initial_entries(next_prefix, room_sensors@[i].0@) by {
                            if i < room_sensors@.len() - 1 {
                                assert(room_sensors@[i].0@ != sensor.room@);
                            } else {
                                assert(spec_initial_entries(prefix, sensor.room@) =~= Seq::empty());
                            }
                        }
                    }
                },
            }
            s = s + 1;
        }
        proof {
            assert(all_sensors.take(all_sensors.len() as int) =~= all_sensors);
        }

        let mut room_switches: Vec<SwitchMemory> = Vec::new();
        let mut w: usize = 0;
        while w < configuration.switches.len()
            invariant
                0 <= w <= configuration.switches@.len(),
                room_switches@.len() == w,
                forall|i: int|
                    0 <= i < w ==> {
                        let switch = #[trigger] room_switches@[i];
                        &&& switch.topic == configuration.switches@[i].topic
                        &&& switch.state == SwitchState::Off
                        &&& switch.rooms@ == configuration.switches@[i].rooms@
                    },
            decreases configuration.switches@.len() - w,
        {
            let switch = &configuration.switches[w];
            room_switches.push(
                SwitchMemory {
                    topic: switch.topic.clone(),
                    state: SwitchState::Off,
                    rooms: crate::configuration::clone_string_vec(&switch.rooms),
                },
            );
            w = w + 1;
        }
        StateMemory { room_sensors, room_switches }
    }

    /// Apply a sensor report: in every room that holds the topic, the
    /// sensor's remembered state takes one transition.
    pub fn update_sensor(&mut self, instant: u64, sensor_content: SensorChangeContent)
        ensures
            final(self).room_sensors@.len() == old(self).room_sensors@.len(),
            forall|i: int|
                0 <= i < old(self).room_sensors@.len() ==> {
                    let old_group = #[trigger] old(self).room_sensors@[i];
                    let new_group = final(self).room_sensors@[i];
                    &&& new_group.0 == old_group.0
                    &&& new_group.1@.len() == old_group.1@.len()
                    &&& forall|j: int|
                        0 <= j < old_group.1@.len() ==> {
                            let old_entry = #[trigger] old_group.1@[j];
                            let new_entry = new_group.1@[j];
                            &&& new_entry.0 == old_entry.0
                            &&& new_entry.1.state == if old_entry.0@ == sensor_content.topic@ {
                                memory_transition(old_entry.1.state, sensor_content.state, instant)
                            } else {
                                old_entry.1.state
                            }
                        }
                },
            final(self).room_switches == old(self).room_switches,
    {
        let mut new_rooms: Vec<(String, Vec<(String, SensorMemory)>)> = Vec::new();
        let mut i: usize = 0;
        while i < self.room_sensors.len()
            invariant
                0 <= i <= self.room_sensors@.len(),
                new_rooms@.len() == i,
                forall|k: int|
                    0 <= k < i ==> {
                        let old_group = #[trigger] self.room_sensors@[k];
                        let new_group = new_rooms@[k];
                        &&& new_group.0 == old_group.0
                        &&& new_group.1@.len() == old_group.1@.len()
                        &&& forall|j: int|
                            0 <= j < old_group.1@.len() ==> {
                                let old_entry = #[trigger] old_group.1@[j];
                                let new_entry = new_group.1@[j];
                                &&& new_entry.0 == old_entry.0
                                &&& new_entry.1.state == if old_entry.0@ == sensor_content.topic@ {
                                    memory_transition(
                                        old_entry.1.state,
                                        sensor_content.state,
                                        instant,
                                    )
                                } else {
                                    old_entry.1.state
                                }
                            }
                    },
            decreases self.room_sensors@.len() - i,
        {
            let group = &self.room_sensors[i];
            let mut new_entries: Vec<(String, SensorMemory)> = Vec::new();
            let mut j: usize = 0;
            while j < group.1.len()
                invariant
                    0 <= j <= group.1@.len(),
                    new_entries@.len() == j,
                    forall|k: int|
                        0 <= k < j ==> {
                            let old_entry = #[trigger] group.1@[k];
                            let new_entry = new_entries@[k];
                            &&& new_entry.0 == old_entry.0
                            &&& new_entry.1.state == if old_entry.0@ == sensor_content.topic@ {
                                memory_transition(old_entry.1.state, sensor_content.state, instant)
                            } else {
                                old_entry.1.state
                            }
                        },
                decreases group.1@.len() - j,
            {
                let entry = &group.1[j];
                let new_state = if entry.0.eq(&sensor_content.topic) {
                    match (entry.1.state, sensor_content.state) {
                        (SensorMemoryState::Absent, SensorState::Absent) => SensorMemoryState::Absent,
                        (SensorMemoryState::AbsentSince(since), SensorState::Absent) => SensorMemoryState::AbsentSince(
                            since,
                        ),
                        (SensorMemoryState::Absent, SensorState::Present) => SensorMemoryState::Present,
                        (
                            SensorMemoryState::AbsentSince(_),
                            SensorState::Present,
                        ) => SensorMemoryState::Present,
                        (SensorMemoryState::Present, SensorState::Absent) => SensorMemoryState::AbsentSince(
                            instant,
                        ),
                        (SensorMemoryState::Present, SensorState::Present) => SensorMemoryState::Present,
                    }
                } else {
                    entry.1.state
                };
                new_entries.push((entry.0.clone(), SensorMemory { state: new_state }));
                j = j + 1;
            }
            new_rooms.push((group.0.clone(), new_entries));
            i = i + 1;
        }
        self.room_sensors = new_rooms;
    }

    /// Apply a switch echo: the first switch with the reported topic takes
    /// the reported state; an unknown topic changes nothing.
    pub fn update_switch(&mut self, _instant: u64, switch_content: SwitchChangeContent)
        ensures
            final(self).room_switches@.len() == old(self).room_switches@.len(),
            forall|i: int|
                0 <= i < old(self).room_switches@.len() ==> {
                    let old_switch = #[trigger] old(self).room_switches@[i];
                    let new_switch = final(self).room_switches@[i];
                    &&& new_switch.topic == old_switch.topic
                    &&& new_switch.rooms@ == old_switch.rooms@
                    &&& new_switch.state == if first_memory_match(
                        old(self).room_switches@,
                        switch_content.topic@,
                        i,
                    ) {
                        switch_content.state
                    } else {
                        old_switch.state
                    }
                },
            final(self).room_sensors == old(self).room_sensors,
    {
        let mut new_switches: Vec<SwitchMemory> = Vec::new();
        let mut done: bool = false;
        let mut i: usize = 0;
        while i < self.room_switches.len()
            invariant
                0 <= i <= self.room_switches@.len(),
                new_switches@.len() == i,
                done == exists|j: int|
                    0 <= j < i && (#[trigger] self.room_switches@[j]).topic@
                        == switch_content.topic@,
                forall|k: int|
                    0 <= k < i ==> {
                        let old_switch = #[trigger] self.room_switches@[k];
                        let new_switch = new_switches@[k];
                        &&& new_switch.topic == old_switch.topic
                        &&& new_switch.rooms@ == old_switch.rooms@
                        &&& new_switch.state == if first_memory_match(
                            self.room_switches@,
                            switch_content.topic@,
                            k,
                        ) {
                            switch_content.state
                        } else {
                            old_switch.state
                        }
                    },
            decreases self.room_switches@.len() - i,
        {
            let switch = &self.room_switches[i];
            let matches_topic = switch.topic.eq(&switch_content.topic);
            let is_first = !done && matches_topic;
            let new_state = if is_first {
                switch_content.state
            } else {
                switch.state
            };
            new_switches.push(
                SwitchMemory {
                    topic: switch.topic.clone(),
                    state: new_state,
                    rooms: crate::configuration::clone_string_vec(&switch.rooms),
                },
            );
            if matches_topic {
                done = true;
            }
            i = i + 1;
        }
        self.room_switches = new_switches;
    }

    /// Plan the switch commands that reconcile every switch with its rooms:
    /// on when some room is present, off otherwise, and only when that
    /// differs from the last known state.
    pub fn trigger_commands(&self) -> (commands: Vec<SwitchCommand>)
        ensures
            commands@ == spec_memory_commands(
                self.room_switches@,
                spec_memory_room_states(self.room_sensors@),
            ),
    {
        let ghost states_spec = spec_memory_room_states(self.room_sensors@);
        let mut rooms: Vec<(String, SensorMemoryState)> = Vec::new();
        let mut i: usize = 0;
        while i < self.room_sensors.len()
            invariant
                0 <= i <= self.room_sensors@.len(),
                rooms@.len() == i,
                forall|k: int|
                    0 <= k < i ==> #[trigger] rooms@[k] == (
                    self.room_sensors@[k].0,
                    spec_memory_room_state(self.room_sensors@[k].1@),
                ),
            decreases self.room_sensors@.len() - i,
        {
            let entries = &self.room_sensors[i].1;
            let mut state = SensorMemoryState::Absent;
            let mut j: usize = 0;
            while j < entries.len()
                invariant
                    0 <= j <= entries@.len(),
                    state == spec_memory_room_state(entries@.take(j as int)),
                decreases entries@.len() - j,
            {
                proof {
                    assert(entries@.take(j + 1).drop_last() =~= entries@.take(j as int));
                }
                state = match (state, entries[j].1.state) {
                    (_, SensorMemoryState::Present) => SensorMemoryState::Present,
                    (SensorMemoryState::Present, _) => SensorMemoryState::Present,
                    (
                        SensorMemoryState::AbsentSince(ta),
                        SensorMemoryState::AbsentSince(tb),
                    ) => SensorMemoryState::AbsentSince(
                        if ta >= tb {
                            ta
                        } else {
                            tb
                        },
                    ),
                    (SensorMemoryState::AbsentSince(ta), SensorMemoryState::Absent) => SensorMemoryState::AbsentSince(
                        ta,
                    ),
                    (SensorMemoryState::Absent, SensorMemoryState::AbsentSince(tb)) => SensorMemoryState::AbsentSince(
                        tb,
                    ),
                    (SensorMemoryState::Absent, SensorMemoryState::Absent) => SensorMemoryState::Absent,
                };
                j = j + 1;
            }
            proof {
                assert(entries@.take(entries@.len() as int) =~= entries@);
            }
            rooms.push((self.room_sensors[i].0.clone(), state));
            i = i + 1;
        }
        proof {
            assert(rooms@ =~= states_spec);
        }

        let mut commands: Vec<SwitchCommand> = Vec::new();
        let mut w: usize = 0;
        while w < self.room_switches.len()
            invariant
                0 <= w <= self.room_switches@.len(),
                rooms@ == states_spec,
                commands@ == spec_memory_commands(
                    self.room_switches@.take(w as int),
                    states_spec,
                ),
            decreases self.room_switches@.len() - w,
        {
            proof {
                assert(self.room_switches@.take(w + 1).drop_last() =~= self.room_switches@.take(
                    w as int,
                ));
            }
            let switch = &self.room_switches[w];
            let mut found: bool = false;
            let mut k: usize = 0;
            while k < switch.rooms.len()
                invariant
                    0 <= k <= switch.rooms@.len(),
                    rooms@ == states_spec,
                    found == exists|j: int|
                        0 <= j < k && spec_memory_lookup(
                            states_spec,
                            (#[trigger] switch.rooms@[j])@,
                        ) is Present,
                decreases switch.rooms@.len() - k,
            {
                match lookup_memory_state(&rooms, &switch.rooms[k]) {
                    SensorMemoryState::Present => {
                        found = true;
                    },
                    _ => {},
                }
                k = k + 1;
            }
            let should = if found {
                SwitchState::On
            } else {
                SwitchState::Off
            };
            proof {
                assert(found == spec_memory_should_be_on(switch.rooms@, states_spec));
            }
            if should != switch.state {
                commands.push(SwitchCommand { topic: switch.topic.clone(), state: should });
            }
            w = w + 1;
        }
        proof {
            assert(self.room_switches@.take(self.room_switches@.len() as int)
                =~= self.room_switches@);
        }
        commands
    }
}

/// `i` is the position of the first switch memory reporting on `topic`.
pub open spec fn first_memory_match(switches: Seq<SwitchMemory>, topic: Seq<char>, i: int) -> bool {
    &&& 0 <= i < switches.len()
    &&& switches[i].topic@ == topic
    &&& forall|j: int| 0 <= j < i ==> (#[trigger] switches[j]).topic@ != topic
}

/// The state recorded for `room` in a computed room-state vector.
fn lookup_memory_state(
    states: &Vec<(String, SensorMemoryState)>,
    room: &String,
) -> (r: SensorMemoryState)
    ensures
        r == spec_memory_lookup(states@, room@),
{
    let mut i: usize = 0;
    proof {
        assert(states@.skip(0) =~= states@);
    }
    while i < states.len()
        invariant
            0 <= i <= states@.len(),
            spec_memory_lookup(states@, room@) == spec_memory_lookup(states@.skip(i as int), room@),
        decreases states@.len() - i,
    {
        proof {
            assert(states@.skip(i as int)[0] == states@[i as int]);
            assert(states@.skip(i as int).drop_first() =~= states@.skip(i + 1));
        }
        if states[i].0.eq(room) {
            return states[i].1;
        }
        i = i + 1;
    }
    SensorMemoryState::Absent
}

} // verus!
