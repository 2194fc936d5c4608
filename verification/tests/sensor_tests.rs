//! Tests of the sensor state spaces: the hysteresis-aware projection, the
//! election order of naive states and of rooms.

use light_control::strategy::room_state::{sort_room_states, RoomState};
use light_control::strategy::sensor_memory::SensorMemory;
use light_control::strategy::sensor_states::{SensorMemoryNaiveState, SensorMemoryState};

#[test]
fn test_get_naive_state_1() {
    // absent since 30 seconds, with a delay of 60 seconds
    let sensor_memory = SensorMemory {
        delay: 60_000,
        state: SensorMemoryState::AbsentSince(0),
    };
    assert_eq!(
        sensor_memory.get_naive_state(30_000, 0),
        SensorMemoryNaiveState::Present
    );
}

#[test]
fn test_get_naive_state_2() {
    // absent since 62 and a half seconds, with a delay of 60 seconds
    let sensor_memory = SensorMemory {
        delay: 60_000,
        state: SensorMemoryState::AbsentSince(0),
    };
    let naive_state = sensor_memory.get_naive_state(62_500, 0);
    assert_ne!(naive_state, SensorMemoryNaiveState::Present,);
    assert_ne!(naive_state, SensorMemoryNaiveState::Uninitialized,);
    match naive_state {
        SensorMemoryNaiveState::AbsentSince(duration) => {
            assert!(duration < 3_000);
            assert!(duration > 2_000);
        }
        _ => panic!("never gonna happen"),
    }
}

#[test]
fn test_order() {
    assert!(SensorMemoryNaiveState::Present < SensorMemoryNaiveState::Uninitialized);
    assert!(SensorMemoryNaiveState::Present < SensorMemoryNaiveState::AbsentSince(0));
    assert!(SensorMemoryNaiveState::Present < SensorMemoryNaiveState::AbsentSince(10_000));
    assert!(
        SensorMemoryNaiveState::AbsentSince(10_000) < SensorMemoryNaiveState::AbsentSince(20_000)
    );
}

#[test]
fn test_room_absent_order() {
    let rooms = vec![
        RoomState {
            room: "test1".to_string(),
            state: SensorMemoryNaiveState::AbsentSince(20_000),
        },
        RoomState {
            room: "test2".to_string(),
            state: SensorMemoryNaiveState::Present,
        },
        RoomState {
            room: "test3".to_string(),
            state: SensorMemoryNaiveState::AbsentSince(100_000),
        },
        RoomState {
            room: "test4".to_string(),
            state: SensorMemoryNaiveState::Present,
        },
        RoomState {
            room: "test5".to_string(),
            state: SensorMemoryNaiveState::Uninitialized,
        },
        RoomState {
            room: "test6".to_string(),
            state: SensorMemoryNaiveState::AbsentSince(2_000),
        },
    ];
    let vec = sort_room_states(rooms);
    assert_eq!(vec.get(0).unwrap().state, SensorMemoryNaiveState::Present);
    assert_eq!(vec.get(1).unwrap().state, SensorMemoryNaiveState::Present);
    assert_eq!(
        vec.get(2).unwrap().state,
        SensorMemoryNaiveState::AbsentSince(2_000)
    );
    assert_eq!(
        vec.get(3).unwrap().state,
        SensorMemoryNaiveState::AbsentSince(20_000)
    );
    assert_eq!(
        vec.get(4).unwrap().state,
        SensorMemoryNaiveState::AbsentSince(100_000)
    );
    assert_eq!(
        vec.get(5).unwrap().state,
        SensorMemoryNaiveState::Uninitialized
    );
}
