use vstd::prelude::*;
use crate::delivery::Planned;
use crate::handlers::{
    FrameView, disconnect_plan, dispatch, envelope_step, naming_plan, naming_state, takes_name,
    typed_step,
};
use crate::invariants::{
    lemma_exactly_one_room, lemma_members_housed, lemma_move_wf, lemma_register_wf,
    lemma_remove_twice, lemma_rename_wf, lemma_touch_wf,
};
use crate::liveness::{cleared, connect_state, lemma_evict_all_wf, newcomer, stale_ids};
use crate::models::{MessageView, unnamed};
use crate::registry::{StateView, session_ids};
use crate::stamp::Moment;

verus! {

/// In a consistent state the members of a room are exactly the registered
/// ids whose session names this room: every registered id is a member of
/// one room, the one its session names, and no room has a member that is
/// not registered.
pub proof fn lemma_membership(s: StateView, room: Seq<char>, id: Seq<char>)
    requires
        s.wf(),
    ensures
        s.members(room).contains(id) <==> s.session(id) is Some && s.session(id).unwrap().room
            == room,
{
    lemma_members_housed(s, room, id);
    lemma_exactly_one_room(s, id, room);
}

/// Tearing a session down a second time changes nothing and delivers
/// nothing.
pub proof fn lemma_disconnect_idempotent(s: StateView, id: Seq<char>, now: u64)
    requires
        s.wf(),
    ensures
        s.remove(id).remove(id) == s.remove(id),
        disconnect_plan(s.remove(id), id, now) == Seq::<Planned>::empty(),
{
    lemma_remove_twice(s, id);
}

/// Every step of the dispatcher keeps registry and room index consistent.
pub proof fn lemma_dispatch_wf(s: StateView, frame: FrameView, id: Seq<char>, now: Moment)
    requires
        s.wf(),
    ensures
        dispatch(s, frame, id, now).state.wf(),
{
    lemma_touch_wf(s, id, now.seconds);
    match frame {
        FrameView::Envelope(m) => {
            let touched = s.touch(id, now.seconds);
            lemma_rename_wf(touched, id, m.username);
            let named = naming_state(touched, id, m);
            lemma_move_wf(named, id, m.room);
        },
        _ => {},
    }
}

/// Accepting a connection keeps registry and room index consistent.
pub proof fn lemma_connect_wf(s: StateView, id: Seq<char>, addr: Seq<char>, now: u64, threshold: u64)
    requires
        s.wf(),
    ensures
        connect_state(s, id, addr, now, threshold).wf(),
{
    lemma_evict_all_wf(s, stale_ids(s.sessions, addr, now, threshold));
    lemma_register_wf(cleared(s, addr, now, threshold), newcomer(id, addr, now));
}

/// The sessions are the same ones in the same order, and no heartbeat has
/// moved backwards.
pub open spec fn heartbeats_advance(s: StateView, t: StateView) -> bool {
    &&& t.sessions.len() == s.sessions.len()
    &&& forall|i: int| 0 <= i < s.sessions.len() ==> (#[trigger] t.sessions[i]).id == s.sessions[i].id
        && t.sessions[i].last_heartbeat >= s.sessions[i].last_heartbeat
}

/// No step of the dispatcher moves a heartbeat backwards, and every frame
/// leaves the sender's heartbeat at `now` or later.
pub proof fn lemma_heartbeat_monotone(s: StateView, frame: FrameView, id: Seq<char>, now: Moment)
    ensures
        heartbeats_advance(s, dispatch(s, frame, id, now).state),
        s.session(id) is Some ==> {
            let t = dispatch(s, frame, id, now).state;
            t.session(id) is Some && t.session(id).unwrap().last_heartbeat >= now.seconds
        },
{
    let touched = s.touch(id, now.seconds);
    session_ids(s.sessions).index_of_first_ensures(id);
    assert(session_ids(touched.sessions) =~= session_ids(s.sessions));
    match frame {
        FrameView::Envelope(m) => {
            let named = naming_state(touched, id, m);
            assert(session_ids(named.sessions) =~= session_ids(s.sessions));
            let t = typed_step(named, id, m, now).0;
            assert(session_ids(t.sessions) =~= session_ids(s.sessions));
            assert(t == envelope_step(s, m, id, now).state);
        },
        _ => {},
    }
}

/// A session takes a name at most once: the step that names it leaves it
/// with a name, and a session that has a name is never named again.
pub proof fn lemma_named_once(s: StateView, id: Seq<char>, m: MessageView, n: MessageView, now: u64)
    requires
        s.session(id) is Some,
    ensures
        takes_name(s.session(id).unwrap(), m) ==> {
            let t = naming_state(s, id, m);
            &&& t.session(id) is Some
            &&& t.session(id).unwrap().username == m.username
            &&& naming_state(t, id, n) == t
            &&& naming_plan(t, id, n, now) == Seq::<Planned>::empty()
        },
        s.session(id).unwrap().username != unnamed() ==> {
            &&& naming_state(s, id, m) == s
            &&& naming_plan(s, id, m, now) == Seq::<Planned>::empty()
        },
{
    session_ids(s.sessions).index_of_first_ensures(id);
    let t = s.rename(id, m.username);
    assert(session_ids(t.sessions) =~= session_ids(s.sessions));
}

} // verus!
