//! Ordering of rooms for the current-room election: by naive state first,
//! with the room name as tie-breaker.

use vstd::prelude::*;
use vstd::string::StrSliceExecFns;
use crate::strategy::sensor_states::{naive_state_lt, SensorMemoryNaiveState};

verus! {

/// A room name paired with its naive state, the unit the election sorts.
#[derive(Debug)]
pub struct RoomState {
    pub room: String,
    pub state: SensorMemoryNaiveState,
}

/// Strict lexicographic order on character sequences.
pub open spec fn seq_char_lt(a: Seq<char>, b: Seq<char>) -> bool
    decreases a.len(),
{
    if b.len() == 0 {
        false
    } else if a.len() == 0 {
        true
    } else if a[0] != b[0] {
        (a[0] as int) < (b[0] as int)
    } else {
        seq_char_lt(a.drop_first(), b.drop_first())
    }
}

/// The lexicographic order is strict and total.
pub proof fn lemma_seq_char_lt_total(a: Seq<char>, b: Seq<char>)
    ensures
        a == b <==> !seq_char_lt(a, b) && !seq_char_lt(b, a),
        !(seq_char_lt(a, b) && seq_char_lt(b, a)),
    decreases a.len(),
{
    if a.len() != 0 && b.len() != 0 && a[0] == b[0] {
        lemma_seq_char_lt_total(a.drop_first(), b.drop_first());
        if a.drop_first() == b.drop_first() {
            assert forall|i: int| 0 <= i < a.len() implies a[i] == b[i] by {
                if i > 0 {
                    assert(a[i] == a.drop_first()[i - 1]);
                    assert(b[i] == b.drop_first()[i - 1]);
                }
            }
            assert(a =~= b);
        }
        if a == b {
            assert(a.drop_first() =~= b.drop_first());
        }
    } else {
        if a.len() == 0 && b.len() == 0 {
            assert(a =~= b);
        }
        if a == b && a.len() != 0 {
            assert(a[0] == b[0]);
        }
    }
}

/// The lexicographic order is transitive.
pub proof fn lemma_seq_char_lt_trans(a: Seq<char>, b: Seq<char>, c: Seq<char>)
    requires
        seq_char_lt(a, b),
        seq_char_lt(b, c),
    ensures
        seq_char_lt(a, c),
    decreases a.len(),
{
    if a.len() != 0 && b.len() != 0 && c.len() != 0 {
        if a[0] == b[0] && b[0] == c[0] {
            lemma_seq_char_lt_trans(a.drop_first(), b.drop_first(), c.drop_first());
        }
    }
}

/// Strict order on (state, room name) pairs: the better state wins, names
/// break ties.
pub open spec fn room_state_lt(a: RoomState, b: RoomState) -> bool {
    ||| naive_state_lt(a.state, b.state)
    ||| (a.state == b.state && seq_char_lt(a.room@, b.room@))
}

/// The room order never holds in both directions.
pub proof fn lemma_room_state_lt_asymmetric(a: RoomState, b: RoomState)
    ensures
        !(room_state_lt(a, b) && room_state_lt(b, a)),
        !room_state_lt(a, a),
{
    crate::strategy::sensor_states::lemma_naive_state_lt_total(a.state, b.state);
    lemma_seq_char_lt_total(a.room@, b.room@);
    lemma_seq_char_lt_total(a.room@, a.room@);
}

/// The room order is transitive.
pub proof fn lemma_room_state_lt_trans(a: RoomState, b: RoomState, c: RoomState)
    requires
        room_state_lt(a, b),
        room_state_lt(b, c),
    ensures
        room_state_lt(a, c),
{
    if a.state == b.state && b.state == c.state {
        lemma_seq_char_lt_trans(a.room@, b.room@, c.room@);
    }
}

/// Rooms with distinct names always compare in exactly one direction.
pub proof fn lemma_room_state_lt_total(a: RoomState, b: RoomState)
    requires
        a.room@ != b.room@,
    ensures
        room_state_lt(a, b) <==> !room_state_lt(b, a),
{
    crate::strategy::sensor_states::lemma_naive_state_lt_total(a.state, b.state);
    lemma_seq_char_lt_total(a.room@, b.room@);
}

/// Lexicographic comparison of two strings, character by character.
pub fn str_lt(a: &str, b: &str) -> (r: bool)
    ensures
        r == seq_char_lt(a@, b@),
{
    let a_len = a.unicode_len();
    let b_len = b.unicode_len();
    let mut i: usize = 0;
    proof {
        assert(a@.skip(0) =~= a@);
        assert(b@.skip(0) =~= b@);
    }
    loop
        invariant
            0 <= i <= a_len,
            0 <= i <= b_len,
            a_len == a@.len(),
            b_len == b@.len(),
            seq_char_lt(a@, b@) == seq_char_lt(a@.skip(i as int), b@.skip(i as int)),
        decreases a_len - i,
    {
        if i == b_len {
            return false;
        }
        if i == a_len {
            return true;
        }
        let ca = a.get_char(i);
        let cb = b.get_char(i);
        proof {
            assert(a@.skip(i as int)[0] == a@[i as int]);
            assert(b@.skip(i as int)[0] == b@[i as int]);
        }
        if ca != cb {
            return (ca as u32) < (cb as u32);
        }
        proof {
            assert(a@.skip(i as int).drop_first() =~= a@.skip(i + 1));
            assert(b@.skip(i as int).drop_first() =~= b@.skip(i + 1));
        }
        i = i + 1;
    }
}

/// Compare two rooms in election order: better state first, names break
/// ties.
pub fn room_state_before(a: &RoomState, b: &RoomState) -> (r: bool)
    ensures
        r == room_state_lt(*a, *b),
{
    let rank_a: u8 = match a.state {
        SensorMemoryNaiveState::Present => 0,
        SensorMemoryNaiveState::AbsentSince(_) => 1,
        SensorMemoryNaiveState::Uninitialized => 2,
    };
    let rank_b: u8 = match b.state {
        SensorMemoryNaiveState::Present => 0,
        SensorMemoryNaiveState::AbsentSince(_) => 1,
        SensorMemoryNaiveState::Uninitialized => 2,
    };
    if rank_a < rank_b {
        return true;
    }
    if rank_a > rank_b {
        return false;
    }
    match (a.state, b.state) {
        (
            SensorMemoryNaiveState::AbsentSince(da),
            SensorMemoryNaiveState::AbsentSince(db),
        ) => {
            if da < db {
                return true;
            }
            if da > db {
                return false;
            }
            str_lt(a.room.as_str(), b.room.as_str())
        },
        _ => str_lt(a.room.as_str(), b.room.as_str()),
    }
}

/// `s` is ascending in election order.
pub open spec fn room_states_sorted(s: Seq<RoomState>) -> bool {
    forall|i: int, j: int| 0 <= i < j < s.len() ==> !room_state_lt(#[trigger] s[j], #[trigger] s[i])
}

/// Sort rooms into election order by repeatedly extracting a minimum,
/// keeping the multiset of entries.
pub fn sort_room_states(rooms: Vec<RoomState>) -> (r: Vec<RoomState>)
    ensures
        room_states_sorted(r@),
        r@.to_multiset() == rooms@.to_multiset(),
{
    broadcast use vstd::seq_lib::group_to_multiset_ensures;
    broadcast use vstd::multiset::group_multiset_axioms;

    let mut sorted: Vec<RoomState> = Vec::new();
    let mut rest = rooms;
    proof {
        assert(sorted@.to_multiset().add(rest@.to_multiset()) =~= rest@.to_multiset());
    }
    while rest.len() > 0
        invariant
            room_states_sorted(sorted@),
            sorted@.to_multiset().add(rest@.to_multiset()) == rooms@.to_multiset(),
            forall|i: int, j: int|
                0 <= i < sorted@.len() && 0 <= j < rest@.len() ==> !room_state_lt(
                    #[trigger] rest@[j],
                    #[trigger] sorted@[i],
                ),
        decreases rest@.len(),
    {
        // pick a minimum of the remainder
        let mut best: usize = 0;
        let mut k: usize = 1;
        while k < rest.len()
            invariant
                0 <= best < k <= rest@.len(),
                rest@.len() > 0,
                forall|j: int|
                    0 <= j < k && j != best ==> room_state_lt(
                        rest@[best as int],
                        #[trigger] rest@[j],
                    ) || !room_state_lt(#[trigger] rest@[j], rest@[best as int]),
                forall|j: int|
                    0 <= j < k ==> !room_state_lt(#[trigger] rest@[j], rest@[best as int]) || j
                        == best,
            decreases rest@.len() - k,
        {
            if room_state_before(&rest[k], &rest[best]) {
                proof {
                    let old_best = best as int;
                    lemma_room_state_lt_asymmetric(rest@[k as int], rest@[old_best]);
                    assert forall|j: int| 0 <= j < k + 1 && j != k implies !room_state_lt(
                        #[trigger] rest@[j],
                        rest@[k as int],
                    ) by {
                        if j != old_best && room_state_lt(rest@[j], rest@[k as int]) {
                            lemma_room_state_lt_trans(
                                rest@[j],
                                rest@[k as int],
                                rest@[old_best],
                            );
                        }
                    }
                }
                best = k;
            }
            k = k + 1;
        }
        let ghost old_sorted = sorted@;
        let ghost old_rest = rest@;
        let picked = rest.remove(best);
        sorted.push(picked);
        proof {
            old_rest.remove_ensures(best as int);
            old_rest.to_multiset_ensures();
            old_sorted.to_multiset_ensures();
            assert(sorted@ == old_sorted.push(picked));
            assert(old_rest[best as int] == picked);
            assert(old_rest.contains(picked));
            assert(old_rest.to_multiset().count(picked) > 0);
            assert(rest@ == old_rest.remove(best as int));
            assert(rest@.to_multiset() =~= old_rest.to_multiset().remove(picked));
            assert(sorted@.to_multiset() =~= old_sorted.to_multiset().insert(picked));
            assert(sorted@.to_multiset().add(rest@.to_multiset()) =~= rooms@.to_multiset());
            assert forall|i: int, j: int|
                0 <= i < sorted@.len() && 0 <= j < rest@.len() implies !room_state_lt(
                #[trigger] rest@[j],
                #[trigger] sorted@[i],
            ) by {
                let source: int = if j < best {
                    j
                } else {
                    j + 1
                };
                assert(rest@[j] == old_rest[source]);
                if i < old_sorted.len() {
                    assert(!room_state_lt(old_rest[source], old_sorted[i]));
                } else {
                    assert(sorted@[i] == picked);
                    assert(!room_state_lt(old_rest[source], old_rest[best as int]));
                }
            }
            assert(room_states_sorted(sorted@)) by {
                assert forall|i: int, j: int| 0 <= i < j < sorted@.len() implies !room_state_lt(
                    #[trigger] sorted@[j],
                    #[trigger] sorted@[i],
                ) by {
                    if j == sorted@.len() - 1 {
                        assert(sorted@[j] == picked);
                        assert(old_rest[best as int] == picked);
                        assert(!room_state_lt(old_rest[best as int], old_sorted[i]));
                    }
                }
            }
        }
    }
    sorted
}

} // verus!
