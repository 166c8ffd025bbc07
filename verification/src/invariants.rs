use vstd::prelude::*;
use crate::models::{RoomView, SessionView, default_room};
use crate::registry::{
    StateView, attach, detach, housed, registered, room_at, room_names, rooms_alive,
    rooms_distinct, session_at, session_ids,
};

verus! {

/// Taking a value out of a list without repetitions removes exactly that
/// value.
pub proof fn lemma_remove_value(s: Seq<Seq<char>>, v: Seq<char>)
    requires
        s.no_duplicates(),
    ensures
        s.remove_value(v).no_duplicates(),
        forall|x: Seq<char>| #[trigger] s.remove_value(v).contains(x) <==> s.contains(x) && x != v,
{
    s.index_of_first_ensures(v);
    let rest = s.remove_value(v);
    match s.index_of_first(v) {
        Some(k) => {
            assert forall|x: Seq<char>| #[trigger] rest.contains(x) <==> s.contains(x) && x != v by {
                if rest.contains(x) {
                    let j = choose|j: int| 0 <= j < rest.len() && rest[j] == x;
                    if j < k {
                        assert(s[j] == x);
                    } else {
                        assert(s[j + 1] == x);
                    }
                }
                if s.contains(x) && x != v {
                    let j = choose|j: int| 0 <= j < s.len() && s[j] == x;
                    if j < k {
                        assert(rest[j] == x);
                    } else {
                        assert(rest[j - 1] == x);
                    }
                }
            }
        },
        None => {},
    }
}

/// After `attach` the index lists what it listed before, and `id` in `room`.
pub proof fn lemma_attach_housed(rs: Seq<RoomView>, room: Seq<char>, id: Seq<char>)
    ensures
        forall|room2: Seq<char>, id2: Seq<char>| #[trigger]
            housed(attach(rs, room, id), room2, id2) <==> housed(rs, room2, id2) || (room2 == room
                && id2 == id),
{
    let after = attach(rs, room, id);
    room_names(rs).index_of_first_ensures(room);
    assert forall|room2: Seq<char>, id2: Seq<char>| #[trigger]
        housed(after, room2, id2) <==> housed(rs, room2, id2) || (room2 == room && id2 == id) by {
        match room_at(rs, room) {
            Some(r) => {
                assert(room_names(rs)[r] == rs[r].name);
                if rs[r].members.contains(id) {
                } else {
                    let grown = rs[r].members.push(id);
                    assert(grown[grown.len() - 1] == id);
                    if housed(after, room2, id2) {
                        let k = choose|k: int|
                            0 <= k < after.len() && (#[trigger] after[k]).name == room2
                                && after[k].members.contains(id2);
                        if k != r {
                            assert(rs[k].name == room2 && rs[k].members.contains(id2));
                        } else {
                            let j = choose|j: int| 0 <= j < grown.len() && grown[j] == id2;
                            if j < grown.len() - 1 {
                                assert(rs[r].members[j] == id2);
                            }
                        }
                    }
                    if housed(rs, room2, id2) {
                        let k = choose|k: int|
                            0 <= k < rs.len() && (#[trigger] rs[k]).name == room2
                                && rs[k].members.contains(id2);
                        if k == r {
                            let j = choose|j: int|
                                0 <= j < rs[r].members.len() && rs[r].members[j] == id2;
                            assert(grown[j] == id2);
                        }
                        assert(after[k].name == room2 && after[k].members.contains(id2));
                    }
                    if room2 == room && id2 == id {
                        assert(after[r].name == room2 && after[r].members.contains(id2));
                    }
                }
            },
            None => {
                let last = rs.len() as int;
                assert(after[last].members[0] == id);
                if housed(after, room2, id2) {
                    let k = choose|k: int|
                        0 <= k < after.len() && (#[trigger] after[k]).name == room2
                            && after[k].members.contains(id2);
                    if k < last {
                        assert(rs[k].name == room2 && rs[k].members.contains(id2));
                    }
                }
                if housed(rs, room2, id2) {
                    let k = choose|k: int|
                        0 <= k < rs.len() && (#[trigger] rs[k]).name == room2
                            && rs[k].members.contains(id2);
                    assert(after[k].name == room2 && after[k].members.contains(id2));
                }
                if room2 == room && id2 == id {
                    assert(after[last].name == room2 && after[last].members.contains(id2));
                }
            },
        }
    }
}

/// `attach` keeps names and members free of repetitions, the default room
/// present and the other rooms inhabited.
pub proof fn lemma_attach_keeps(rs: Seq<RoomView>, room: Seq<char>, id: Seq<char>)
    ensures
        rooms_distinct(rs) ==> rooms_distinct(attach(rs, room, id)),
        rooms_alive(rs) ==> rooms_alive(attach(rs, room, id)),
{
    let after = attach(rs, room, id);
    room_names(rs).index_of_first_ensures(room);
    match room_at(rs, room) {
        Some(r) => {
            assert(room_names(after) =~= room_names(rs));
            if rooms_distinct(rs) {
                assert forall|k: int| 0 <= k < after.len() implies (#[trigger] after[k]).members.no_duplicates() by {
                    assert(rs[k].members.no_duplicates());
                }
            }
            if rooms_alive(rs) {
                assert forall|k: int| 0 <= k < after.len() && (#[trigger] after[k]).name != default_room() implies after[k].members.len() > 0 by {
                    assert(rs[k].name == after[k].name);
                }
            }
        },
        None => {
            assert(room_names(after) =~= room_names(rs).push(room));
            if rooms_distinct(rs) {
                assert forall|k: int| 0 <= k < after.len() implies (#[trigger] after[k]).members.no_duplicates() by {
                    if k < rs.len() {
                        assert(rs[k].members.no_duplicates());
                    }
                }
            }
            if rooms_alive(rs) {
                let d = choose|d: int| 0 <= d < room_names(rs).len() && room_names(rs)[d] == default_room();
                assert(room_names(after)[d] == default_room());
                assert forall|k: int| 0 <= k < after.len() && (#[trigger] after[k]).name != default_room() implies after[k].members.len() > 0 by {
                    if k < rs.len() {
                        assert(rs[k].name == after[k].name);
                    }
                }
            }
        },
    }
}

/// After `detach` the index lists what it listed before but for `id` in
/// `room`.
pub proof fn lemma_detach_housed(rs: Seq<RoomView>, room: Seq<char>, id: Seq<char>)
    requires
        rooms_distinct(rs),
    ensures
        forall|room2: Seq<char>, id2: Seq<char>| #[trigger]
            housed(detach(rs, room, id), room2, id2) <==> housed(rs, room2, id2) && !(room2 == room
                && id2 == id),
{
    let after = detach(rs, room, id);
    room_names(rs).index_of_first_ensures(room);
    assert forall|room2: Seq<char>, id2: Seq<char>| #[trigger]
        housed(after, room2, id2) <==> housed(rs, room2, id2) && !(room2 == room && id2 == id) by {
        match room_at(rs, room) {
            Some(r) => {
                assert(room_names(rs)[r] == rs[r].name);
                assert(rs[r].members.no_duplicates());
                lemma_remove_value(rs[r].members, id);
                let rest = rs[r].members.remove_value(id);
                if housed(after, room2, id2) {
                    let k = choose|k: int|
                        0 <= k < after.len() && (#[trigger] after[k]).name == room2
                            && after[k].members.contains(id2);
                    if rest.len() == 0 && room != default_room() {
                        let k0 = if k < r { k } else { k + 1 };
                        assert(rs[k0] == after[k]);
                        assert(room_names(rs)[k0] == rs[k0].name);
                        assert(rs[k0].name == room2 && rs[k0].members.contains(id2));
                    } else {
                        if k == r {
                            assert(rest.contains(id2));
                        } else {
                            assert(room_names(rs)[k] == rs[k].name);
                        }
                        assert(rs[k].name == room2 && rs[k].members.contains(id2));
                    }
                }
                if housed(rs, room2, id2) && !(room2 == room && id2 == id) {
                    let k = choose|k: int|
                        0 <= k < rs.len() && (#[trigger] rs[k]).name == room2
                            && rs[k].members.contains(id2);
                    assert(room_names(rs)[k] == rs[k].name);
                    if k == r {
                        assert(rest.contains(id2));
                    }
                    if rest.len() == 0 && room != default_room() {
                        let k1 = if k < r { k } else { k - 1 };
                        assert(after[k1] == rs[k]);
                        assert(after[k1].name == room2 && after[k1].members.contains(id2));
                    } else {
                        assert(after[k].name == room2 && after[k].members.contains(id2));
                    }
                }
            },
            None => {
                if housed(rs, room2, id2) {
                    let k = choose|k: int|
                        0 <= k < rs.len() && (#[trigger] rs[k]).name == room2
                            && rs[k].members.contains(id2);
                    assert(room_names(rs)[k] == rs[k].name);
                }
            },
        }
    }
}

/// `detach` keeps names and members free of repetitions, the default room
/// present and the other rooms inhabited.
pub proof fn lemma_detach_keeps(rs: Seq<RoomView>, room: Seq<char>, id: Seq<char>)
    requires
        rooms_distinct(rs),
    ensures
        rooms_distinct(detach(rs, room, id)),
        rooms_alive(rs) ==> rooms_alive(detach(rs, room, id)),
{
    let after = detach(rs, room, id);
    room_names(rs).index_of_first_ensures(room);
    match room_at(rs, room) {
        Some(r) => {
            assert(room_names(rs)[r] == rs[r].name);
            assert(rs[r].members.no_duplicates());
            lemma_remove_value(rs[r].members, id);
            let rest = rs[r].members.remove_value(id);
            if rest.len() == 0 && room != default_room() {
                assert(room_names(after) =~= room_names(rs).remove(r));
                assert forall|k: int| 0 <= k < after.len() implies (#[trigger] after[k]).members.no_duplicates() by {
                    let k0 = if k < r { k } else { k + 1 };
                    assert(rs[k0].members.no_duplicates());
                }
                if rooms_alive(rs) {
                    let d = choose|d: int| 0 <= d < room_names(rs).len() && room_names(rs)[d] == default_room();
                    let d1 = if d < r { d } else { d - 1 };
                    assert(room_names(after)[d1] == default_room());
                    assert forall|k: int| 0 <= k < after.len() && (#[trigger] after[k]).name != default_room() implies after[k].members.len() > 0 by {
                        let k0 = if k < r { k } else { k + 1 };
                        assert(rs[k0].name == after[k].name);
                    }
                }
            } else {
                assert(room_names(after) =~= room_names(rs));
                assert forall|k: int| 0 <= k < after.len() implies (#[trigger] after[k]).members.no_duplicates() by {
                    assert(rs[k].members.no_duplicates());
                }
                if rooms_alive(rs) {
                    assert forall|k: int| 0 <= k < after.len() && (#[trigger] after[k]).name != default_room() implies after[k].members.len() > 0 by {
                        assert(rs[k].name == after[k].name);
                    }
                }
            }
        },
        None => {},
    }
}

/// The initial state is consistent.
pub proof fn lemma_initial_wf()
    ensures
        StateView::initial().wf(),
{
    let s = StateView::initial();
    assert(room_names(s.rooms)[0] == default_room());
    assert(s.rooms[0].members.len() == 0);
    assert forall|room: Seq<char>, id: Seq<char>| #[trigger] housed(s.rooms, room, id) implies registered(s.sessions, id, room) by {
        let k = choose|k: int|
            0 <= k < s.rooms.len() && (#[trigger] s.rooms[k]).name == room && s.rooms[k].members.contains(id);
        assert(k == 0);
    }
}

/// Registering a session keeps registry and room index consistent.
pub proof fn lemma_register_wf(s: StateView, x: SessionView)
    requires
        s.wf(),
    ensures
        s.register(x).wf(),
{
    let t = s.register(x);
    session_ids(s.sessions).index_of_first_ensures(x.id);
    if session_at(s.sessions, x.id) is None {
        lemma_attach_housed(s.rooms, x.room, x.id);
        lemma_attach_keeps(s.rooms, x.room, x.id);
        assert(session_ids(t.sessions) =~= session_ids(s.sessions).push(x.id));
        assert forall|i: int| 0 <= i < t.sessions.len() implies housed(t.rooms, (#[trigger] t.sessions[i]).room, t.sessions[i].id) by {
            if i < s.sessions.len() {
                assert(housed(s.rooms, s.sessions[i].room, s.sessions[i].id));
            }
        }
        assert forall|room: Seq<char>, id: Seq<char>| #[trigger] housed(t.rooms, room, id) implies registered(t.sessions, id, room) by {
            if housed(s.rooms, room, id) {
                let i = choose|i: int| 0 <= i < s.sessions.len() && (#[trigger] s.sessions[i]).id == id && s.sessions[i].room == room;
                assert(t.sessions[i].id == id && t.sessions[i].room == room);
            } else {
                let i = s.sessions.len() as int;
                assert(t.sessions[i].id == id && t.sessions[i].room == room);
            }
        }
    }
}

/// Removing a session keeps registry and room index consistent.
pub proof fn lemma_remove_wf(s: StateView, id: Seq<char>)
    requires
        s.wf(),
    ensures
        s.remove(id).wf(),
{
    let t = s.remove(id);
    session_ids(s.sessions).index_of_first_ensures(id);
    match session_at(s.sessions, id) {
        Some(p) => {
            let room = s.sessions[p].room;
            assert(session_ids(s.sessions)[p] == s.sessions[p].id);
            lemma_detach_housed(s.rooms, room, id);
            lemma_detach_keeps(s.rooms, room, id);
            assert(session_ids(t.sessions) =~= session_ids(s.sessions).remove(p));
            assert forall|i: int| 0 <= i < t.sessions.len() implies housed(t.rooms, (#[trigger] t.sessions[i]).room, t.sessions[i].id) by {
                let i0 = if i < p { i } else { i + 1 };
                assert(t.sessions[i] == s.sessions[i0]);
                assert(session_ids(s.sessions)[i0] == s.sessions[i0].id);
                assert(housed(s.rooms, s.sessions[i0].room, s.sessions[i0].id));
            }
            assert forall|room2: Seq<char>, id2: Seq<char>| #[trigger] housed(t.rooms, room2, id2) implies registered(t.sessions, id2, room2) by {
                assert(housed(s.rooms, room2, id2));
                let i = choose|i: int| 0 <= i < s.sessions.len() && (#[trigger] s.sessions[i]).id == id2 && s.sessions[i].room == room2;
                assert(i != p);
                let i1 = if i < p { i } else { i - 1 };
                assert(t.sessions[i1] == s.sessions[i]);
            }
        },
        None => {},
    }
}

/// Moving a session to another room keeps registry and room index
/// consistent.
pub proof fn lemma_move_wf(s: StateView, id: Seq<char>, room: Seq<char>)
    requires
        s.wf(),
    ensures
        s.move_room(id, room).wf(),
{
    let t = s.move_room(id, room);
    session_ids(s.sessions).index_of_first_ensures(id);
    match session_at(s.sessions, id) {
        Some(p) => {
            let from = s.sessions[p].room;
            assert(session_ids(s.sessions)[p] == s.sessions[p].id);
            if from != room {
                let mid = detach(s.rooms, from, id);
                lemma_detach_housed(s.rooms, from, id);
                lemma_detach_keeps(s.rooms, from, id);
                lemma_attach_housed(mid, room, id);
                lemma_attach_keeps(mid, room, id);
                assert(session_ids(t.sessions) =~= session_ids(s.sessions));
                assert forall|i: int| 0 <= i < t.sessions.len() implies housed(t.rooms, (#[trigger] t.sessions[i]).room, t.sessions[i].id) by {
                    if i != p {
                        assert(session_ids(s.sessions)[i] == s.sessions[i].id);
                        assert(housed(s.rooms, s.sessions[i].room, s.sessions[i].id));
                        assert(housed(mid, s.sessions[i].room, s.sessions[i].id));
                    }
                }
                assert forall|room2: Seq<char>, id2: Seq<char>| #[trigger] housed(t.rooms, room2, id2) implies registered(t.sessions, id2, room2) by {
                    if housed(mid, room2, id2) {
                        assert(housed(s.rooms, room2, id2));
                        let i = choose|i: int| 0 <= i < s.sessions.len() && (#[trigger] s.sessions[i]).id == id2 && s.sessions[i].room == room2;
                        assert(session_ids(s.sessions)[i] == s.sessions[i].id);
                        assert(i != p);
                        assert(t.sessions[i].id == id2 && t.sessions[i].room == room2);
                    } else {
                        assert(t.sessions[p].id == id2 && t.sessions[p].room == room2);
                    }
                }
            }
        },
        None => {},
    }
}

/// Renaming a session keeps registry and room index consistent.
pub proof fn lemma_rename_wf(s: StateView, id: Seq<char>, name: Seq<char>)
    requires
        s.wf(),
    ensures
        s.rename(id, name).wf(),
{
    let t = s.rename(id, name);
    session_ids(s.sessions).index_of_first_ensures(id);
    if session_at(s.sessions, id) is Some {
        lemma_same_places(s, t);
    }
}

/// Refreshing a heartbeat keeps registry and room index consistent.
pub proof fn lemma_touch_wf(s: StateView, id: Seq<char>, now: u64)
    requires
        s.wf(),
    ensures
        s.touch(id, now).wf(),
{
    let t = s.touch(id, now);
    session_ids(s.sessions).index_of_first_ensures(id);
    if session_at(s.sessions, id) is Some {
        lemma_same_places(s, t);
    }
}

/// A state that differs from a consistent one in neither the rooms nor the
/// id and room of any session is consistent.
pub proof fn lemma_same_places(s: StateView, t: StateView)
    requires
        s.wf(),
        t.rooms == s.rooms,
        t.sessions.len() == s.sessions.len(),
        forall|i: int| 0 <= i < s.sessions.len() ==> (#[trigger] t.sessions[i]).id == s.sessions[i].id
            && t.sessions[i].room == s.sessions[i].room,
    ensures
        t.wf(),
{
    assert(session_ids(t.sessions) =~= session_ids(s.sessions));
    assert forall|i: int| 0 <= i < t.sessions.len() implies housed(t.rooms, (#[trigger] t.sessions[i]).room, t.sessions[i].id) by {
        assert(housed(s.rooms, s.sessions[i].room, s.sessions[i].id));
    }
    assert forall|room: Seq<char>, id: Seq<char>| #[trigger] housed(t.rooms, room, id) implies registered(t.sessions, id, room) by {
        let i = choose|i: int| 0 <= i < s.sessions.len() && (#[trigger] s.sessions[i]).id == id && s.sessions[i].room == room;
        assert(t.sessions[i].id == id && t.sessions[i].room == room);
    }
}

/// In a consistent state every registered id is a member of the room that
/// its session names and of no other room, and every member of a room is a
/// registered id.
pub proof fn lemma_exactly_one_room(s: StateView, id: Seq<char>, room: Seq<char>)
    requires
        s.wf(),
    ensures
        s.session(id) is Some ==> (housed(s.rooms, room, id) <==> room == s.session(id).unwrap().room),
        s.session(id) is None ==> !housed(s.rooms, room, id),
{
    session_ids(s.sessions).index_of_first_ensures(id);
    match session_at(s.sessions, id) {
        Some(p) => {
            assert(session_ids(s.sessions)[p] == s.sessions[p].id);
            assert(housed(s.rooms, s.sessions[p].room, s.sessions[p].id));
            if housed(s.rooms, room, id) {
                let i = choose|i: int| 0 <= i < s.sessions.len() && (#[trigger] s.sessions[i]).id == id && s.sessions[i].room == room;
                assert(session_ids(s.sessions)[i] == s.sessions[i].id);
                assert(i == p);
            }
        },
        None => {
            if housed(s.rooms, room, id) {
                let i = choose|i: int| 0 <= i < s.sessions.len() && (#[trigger] s.sessions[i]).id == id && s.sessions[i].room == room;
                assert(session_ids(s.sessions)[i] == id);
            }
        },
    }
}

/// `members` lists exactly what the room index lists, provided that no two
/// rooms share a name.
pub proof fn lemma_members_housed(s: StateView, room: Seq<char>, id: Seq<char>)
    requires
        rooms_distinct(s.rooms),
    ensures
        s.members(room).contains(id) <==> housed(s.rooms, room, id),
{
    room_names(s.rooms).index_of_first_ensures(room);
    match room_at(s.rooms, room) {
        Some(r) => {
            assert(room_names(s.rooms)[r] == s.rooms[r].name);
            if housed(s.rooms, room, id) {
                let k = choose|k: int| 0 <= k < s.rooms.len() && (#[trigger] s.rooms[k]).name == room && s.rooms[k].members.contains(id);
                assert(room_names(s.rooms)[k] == s.rooms[k].name);
                assert(k == r);
            }
        },
        None => {
            if housed(s.rooms, room, id) {
                let k = choose|k: int| 0 <= k < s.rooms.len() && (#[trigger] s.rooms[k]).name == room && s.rooms[k].members.contains(id);
                assert(room_names(s.rooms)[k] == room);
            }
        },
    }
}

/// In a consistent state the default room exists, and a room other than
/// the default room exists exactly when it has a member.
pub proof fn lemma_rooms_alive(s: StateView, room: Seq<char>)
    requires
        s.wf(),
    ensures
        room_at(s.rooms, default_room()) is Some,
        room != default_room() ==> (room_at(s.rooms, room) is Some <==> s.members(room).len() > 0),
{
    room_names(s.rooms).index_of_first_ensures(default_room());
    room_names(s.rooms).index_of_first_ensures(room);
    match room_at(s.rooms, room) {
        Some(r) => {
            assert(room_names(s.rooms)[r] == s.rooms[r].name);
        },
        None => {},
    }
}

/// Removing a session a second time changes nothing.
pub proof fn lemma_remove_twice(s: StateView, id: Seq<char>)
    requires
        s.wf(),
    ensures
        s.remove(id).session(id) is None,
        s.remove(id).remove(id) == s.remove(id),
{
    let t = s.remove(id);
    session_ids(s.sessions).index_of_first_ensures(id);
    session_ids(t.sessions).index_of_first_ensures(id);
    match session_at(s.sessions, id) {
        Some(p) => {
            assert(session_ids(t.sessions) =~= session_ids(s.sessions).remove(p));
            if session_ids(t.sessions).contains(id) {
                let j = choose|j: int| 0 <= j < t.sessions.len() && session_ids(t.sessions)[j] == id;
                let j0 = if j < p { j } else { j + 1 };
                assert(session_ids(s.sessions)[j0] == id);
                assert(session_ids(s.sessions)[p] == id);
            }
        },
        None => {},
    }
}

} // verus!
