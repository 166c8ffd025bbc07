use vstd::prelude::*;
use vstd::string::StringExecFns;
use crate::delivery::{
    Outbound, Planned, lemma_realizes_concat, outbound_views, push_all, realizes,
    send_message_to_user, server_message, snapshot, unicast,
};
use crate::handlers::{disconnect_plan, handle_disconnect_at, notify, send_user_list_at};
use crate::invariants::lemma_remove_wf;
use crate::models::{
    ChatMessage, DEFAULT_ROOM, MessageView, SessionView, UNNAMED, UserSession, default_room, texts, unnamed,
};
use crate::registry::{AppState, StateView, session_views};
use crate::stamp::{fresh_id, read_clock};

verus! {

/// The liveness rules, in seconds.
#[derive(Clone, Copy, Debug)]
pub struct LivenessPolicy {
    /// Time between two liveness checks of a connection.
    pub interval: u64,
    /// Silence after which a connection counts as dead.
    pub timeout: u64,
    /// Silence after which a session gives way to a new connection from
    /// its address.
    pub stale_after: u64,
}

impl LivenessPolicy {
    /// A check every 30 seconds, death after 90 seconds of silence, and
    /// eviction by a newcomer after 60.
    pub fn standard() -> (policy: LivenessPolicy)
        ensures
            policy.interval == 30,
            policy.timeout == 90,
            policy.stale_after == 60,
    {
        LivenessPolicy { interval: 30, timeout: 90, stale_after: 60 }
    }
}

/// How long a session has been silent at the time `now`.
pub open spec fn silence(x: SessionView, now: u64) -> int {
    if now >= x.last_heartbeat {
        now - x.last_heartbeat
    } else {
        0
    }
}

/// A session gives way to a new connection from `addr`: it has this
/// address and has been silent for longer than the threshold.
pub open spec fn is_stale(x: SessionView, addr: Seq<char>, now: u64, threshold: u64) -> bool {
    x.addr == addr && silence(x, now) > threshold
}

/// The ids of the stale sessions, in registry order.
pub open spec fn stale_ids(ss: Seq<SessionView>, addr: Seq<char>, now: u64, threshold: u64) -> Seq<Seq<char>>
    decreases ss.len(),
{
    if ss.len() == 0 {
        Seq::empty()
    } else {
        let rest = stale_ids(ss.drop_last(), addr, now, threshold);
        if is_stale(ss.last(), addr, now, threshold) {
            rest.push(ss.last().id)
        } else {
            rest
        }
    }
}

/// The state after the listed sessions have been removed, one after the
/// other.
pub open spec fn evict_all(s: StateView, ids: Seq<Seq<char>>) -> StateView
    decreases ids.len(),
{
    if ids.len() == 0 {
        s
    } else {
        evict_all(s, ids.drop_last()).remove(ids.last())
    }
}

/// The session of a connection that has just been accepted: no name yet,
/// in the default room.
pub open spec fn newcomer(id: Seq<char>, addr: Seq<char>, now: u64) -> SessionView {
    SessionView {
        id: id,
        username: unnamed(),
        room: default_room(),
        addr: addr,
        last_heartbeat: now,
        join_time: now,
    }
}

/// The state before the newcomer is registered: the stale sessions from
/// its address are gone.
pub open spec fn cleared(s: StateView, addr: Seq<char>, now: u64, threshold: u64) -> StateView {
    evict_all(s, stale_ids(s.sessions, addr, now, threshold))
}

/// The state after a connection from `addr` has been accepted as `id`.
pub open spec fn connect_state(s: StateView, id: Seq<char>, addr: Seq<char>, now: u64, threshold: u64) -> StateView {
    cleared(s, addr, now, threshold).register(newcomer(id, addr, now))
}

/// The first message to a new connection: where it has reached the relay,
/// and from where.
pub open spec fn welcome_text(host: Seq<char>, addr: Seq<char>) -> Seq<char> {
    "连接成功！服务器信息: 本地地址 "@ + host + "，您的IP地址: "@ + addr
}

/// The second message to a new connection: the name it carries for now.
pub open spec fn naming_message(now: u64) -> MessageView {
    MessageView {
        msg_type: "chat"@,
        username: unnamed(),
        room: default_room(),
        text: ""@,
        timestamp: now,
        id: Seq::empty(),
        target: None,
    }
}

/// What is delivered when the listed sessions are torn down one after the
/// other at the time `now`.
pub open spec fn evict_plan(s: StateView, ids: Seq<Seq<char>>, now: u64) -> Seq<Planned>
    decreases ids.len(),
{
    if ids.len() == 0 {
        Seq::empty()
    } else {
        evict_plan(s, ids.drop_last(), now) + disconnect_plan(
            evict_all(s, ids.drop_last()),
            ids.last(),
            now,
        )
    }
}

/// What the new connection itself is sent: the welcome, its name for now,
/// and with the whole default room a presence snapshot. Nothing if its id
/// is taken.
pub open spec fn greeting(s: StateView, id: Seq<char>, addr: Seq<char>, host: Seq<char>, now: u64) -> Seq<Planned> {
    if s.session(id) is Some {
        Seq::empty()
    } else {
        let t = s.register(newcomer(id, addr, now));
        unicast(t, id, server_message("system"@, default_room(), welcome_text(host, addr), now), true)
            + unicast(t, id, naming_message(now), true) + snapshot(t, default_room(), now)
    }
}

/// What is delivered when a connection from `addr` asks to be `id`: the
/// departures of the stale sessions that give way to it, then its
/// greeting.
pub open spec fn connect_plan(
    s: StateView,
    id: Seq<char>,
    addr: Seq<char>,
    host: Seq<char>,
    now: u64,
    threshold: u64,
) -> Seq<Planned> {
    evict_plan(s, stale_ids(s.sessions, addr, now, threshold), now) + greeting(
        cleared(s, addr, now, threshold),
        id,
        addr,
        host,
        now,
    )
}

/// Removing sessions one after the other keeps registry and room index
/// consistent.
pub proof fn lemma_evict_all_wf(s: StateView, ids: Seq<Seq<char>>)
    requires
        s.wf(),
    ensures
        evict_all(s, ids).wf(),
    decreases ids.len(),
{
    if ids.len() > 0 {
        lemma_evict_all_wf(s, ids.drop_last());
        lemma_remove_wf(evict_all(s, ids.drop_last()), ids.last());
    }
}

/// The ids of the sessions that give way to a new connection from `addr`.
pub fn stale_sessions(app_state: &AppState, addr: &str, now: u64, threshold: u64) -> (ids: Vec<String>)
    ensures
        texts(ids@) == stale_ids(app_state@.sessions, addr@, now, threshold),
{
    let from = String::from_str(addr);
    let sessions = app_state.sessions();
    let ghost all = app_state@.sessions;
    let mut ids: Vec<String> = Vec::new();
    let mut i: usize = 0;
    proof {
        assert(texts(ids@) =~= Seq::empty());
    }
    while i < sessions.len()
        invariant
            i <= sessions.len(),
            from@ == addr@,
            all == app_state@.sessions,
            session_views(sessions@) == all,
            texts(ids@) == stale_ids(all.take(i as int), addr@, now, threshold),
        decreases sessions.len() - i,
    {
        let ghost before = texts(ids@);
        proof {
            assert(all.take(i + 1).drop_last() =~= all.take(i as int));
            assert(all.take(i + 1).last() == sessions@[i as int]@);
        }
        let session = &sessions[i];
        if session.addr == from && now >= session.last_heartbeat && now - session.last_heartbeat
            > threshold {
            ids.push(session.id.clone());
            proof {
                assert(texts(ids@) =~= before.push(session.id@));
            }
        }
        i += 1;
    }
    proof {
        assert(all.take(sessions.len() as int) =~= all);
    }
    ids
}

/// Whether a new connection was registered, under which id, and what it
/// is sent.
#[derive(Debug)]
pub struct Admission {
    pub id: String,
    pub accepted: bool,
    pub deliveries: Vec<Outbound>,
}

/// The admission is the one that the rules prescribe for a connection
/// from `addr` that asks to be `id` at the time `now`.
pub open spec fn admitted(
    before: StateView,
    after: StateView,
    id: Seq<char>,
    addr: Seq<char>,
    host: Seq<char>,
    now: u64,
    threshold: u64,
    admission: Admission,
) -> bool {
    &&& admission.id@ == id
    &&& after == connect_state(before, id, addr, now, threshold)
    &&& admission.accepted == (cleared(before, addr, now, threshold).session(id) is None)
    &&& realizes(
        outbound_views(admission.deliveries@),
        connect_plan(before, id, addr, host, now, threshold),
    )
    &&& before.wf() ==> after.wf()
}

/// Tears down, at the time `now`, the sessions that give way to a new
/// connection from `addr`.
pub fn evict_stale_at(addr: &str, app_state: &mut AppState, now: u64, threshold: u64) -> (out: Vec<Outbound>)
    ensures
        final(app_state)@ == cleared(old(app_state)@, addr@, now, threshold),
        realizes(
            outbound_views(out@),
            evict_plan(old(app_state)@, stale_ids(old(app_state)@.sessions, addr@, now, threshold), now),
        ),
        old(app_state)@.wf() ==> final(app_state)@.wf(),
{
    let stale = stale_sessions(app_state, addr, now, threshold);
    let ghost gone = texts(stale@);
    let mut out: Vec<Outbound> = Vec::new();
    let mut i: usize = 0;
    while i < stale.len()
        invariant
            i <= stale.len(),
            gone == texts(stale@),
            app_state@ == evict_all(old(app_state)@, gone.take(i as int)),
            realizes(outbound_views(out@), evict_plan(old(app_state)@, gone.take(i as int), now)),
        decreases stale.len() - i,
    {
        proof {
            assert(gone.take(i + 1).drop_last() =~= gone.take(i as int));
            assert(gone.take(i + 1).last() == stale@[i as int]@);
        }
        let ghost before = outbound_views(out@);
        let ghost state = app_state@;
        let more = handle_disconnect_at(stale[i].as_str(), app_state, now);
        push_all(&mut out, more);
        proof {
            lemma_realizes_concat(
                before,
                evict_plan(old(app_state)@, gone.take(i as int), now),
                outbound_views(more@),
                disconnect_plan(state, stale@[i as int]@, now),
            );
        }
        i += 1;
    }
    proof {
        assert(gone.take(stale.len() as int) =~= gone);
        if old(app_state)@.wf() {
            lemma_evict_all_wf(old(app_state)@, gone);
        }
    }
    out
}

/// Accepts a connection from `addr` as `id` at the time `now`: the stale
/// sessions from its address are torn down, then it is registered without
/// a name in the default room. An id that is still registered is refused.
pub fn connect_at(id: &str, addr: &str, host: &str, app_state: &mut AppState, now: u64, policy: &LivenessPolicy) -> (admission: Admission)
    ensures
        admitted(
            old(app_state)@,
            final(app_state)@,
            id@,
            addr@,
            host@,
            now,
            policy.stale_after,
            admission,
        ),
{
    let mut out = evict_stale_at(addr, app_state, now, policy.stale_after);
    let ghost s = old(app_state)@;
    let ghost c = app_state@;
    let ghost plan_zero = evict_plan(s, stale_ids(s.sessions, addr@, now, policy.stale_after), now);
    let ghost sent_zero = outbound_views(out@);
    let session = UserSession {
        id: String::from_str(id),
        username: String::from_str(UNNAMED),
        room: String::from_str(DEFAULT_ROOM),
        addr: String::from_str(addr),
        last_heartbeat: now,
        join_time: now,
    };
    if !app_state.register(session) {
        proof {
            assert(plan_zero + Seq::<Planned>::empty() =~= plan_zero);
        }
        return Admission { id: String::from_str(id), accepted: false, deliveries: out };
    }
    let ghost t = app_state@;
    let mut text = String::from_str("连接成功！服务器信息: 本地地址 ");
    text.append(host);
    text.append("，您的IP地址: ");
    text.append(addr);
    let ghost plan_one = unicast(t, id@, server_message("system"@, default_room(), welcome_text(host@, addr@), now), true);
    let mut greeting = notify(id, "system", DEFAULT_ROOM, text, now, app_state);
    let ghost sent_one = outbound_views(greeting@);

    let naming = ChatMessage {
        msg_type: String::from_str("chat"),
        username: String::from_str(UNNAMED),
        room: String::from_str(DEFAULT_ROOM),
        text: String::from_str(""),
        timestamp: now,
        id: fresh_id(),
        target: None,
    };
    let more = send_message_to_user(&naming, id, app_state);
    let ghost plan_two = unicast(t, id@, naming_message(now), true);
    push_all(&mut greeting, more);
    let ghost sent_two = outbound_views(greeting@);
    proof {
        lemma_realizes_concat(sent_one, plan_one, outbound_views(more@), plan_two);
    }

    let more = send_user_list_at(app_state, DEFAULT_ROOM, now);
    push_all(&mut greeting, more);
    proof {
        lemma_realizes_concat(sent_two, plan_one + plan_two, outbound_views(more@), snapshot(t, default_room(), now));
        lemma_realizes_concat(sent_zero, plan_zero, outbound_views(greeting@), plan_one + plan_two + snapshot(t, default_room(), now));
    }
    push_all(&mut out, greeting);
    Admission { id: String::from_str(id), accepted: true, deliveries: out }
}

/// Accepts a connection from `addr` at the current time, under an id drawn
/// anew.
pub fn connect(addr: &str, host: &str, app_state: &mut AppState, policy: &LivenessPolicy) -> (admission: Admission)
    ensures
        exists|now: u64| #[trigger]
            admitted(
                old(app_state)@,
                final(app_state)@,
                admission.id@,
                addr@,
                host@,
                now,
                policy.stale_after,
                admission,
            ),
{
    let id = fresh_id();
    let now = read_clock();
    connect_at(id.as_str(), addr, host, app_state, now.seconds, policy)
}

/// What a liveness check finds.
#[derive(Debug)]
pub enum Verdict {
    /// The session is not registered any more: the connection ends.
    Gone,
    /// The session has been silent for too long: the connection ends.
    TimedOut,
    /// The session lives: it is sent this probe, and the connection ends
    /// if the probe cannot be sent.
    Probe(Outbound),
}

/// The probe of a liveness check.
pub open spec fn liveness_probe(now: u64) -> MessageView {
    server_message("ping"@, ""@, ""@, now)
}

/// The verdict is the one that the liveness rules prescribe for the
/// session `id` at the time `now`.
pub open spec fn judged(s: StateView, id: Seq<char>, now: u64, timeout: u64, verdict: Verdict) -> bool {
    match s.session(id) {
        None => verdict is Gone,
        Some(x) => if silence(x, now) > timeout {
            verdict is TimedOut
        } else {
            match verdict {
                Verdict::Probe(o) => realizes(seq![o@], unicast(s, id, liveness_probe(now), true)),
                _ => false,
            }
        },
    }
}

/// Checks the session `user_id` for liveness at the time `now`.
pub fn liveness_tick_at(user_id: &str, app_state: &AppState, now: u64, policy: &LivenessPolicy) -> (verdict: Verdict)
    ensures
        judged(app_state@, user_id@, now, policy.timeout, verdict),
{
    match app_state.lookup(user_id) {
        None => Verdict::Gone,
        Some(session) => {
            if now >= session.last_heartbeat && now - session.last_heartbeat > policy.timeout {
                Verdict::TimedOut
            } else {
                let mut out = notify(user_id, "ping", "", String::from_str(""), now, app_state);
                proof {
                    assert(outbound_views(out@) =~= seq![out@[0]@]);
                }
                match out.pop() {
                    Some(probe) => Verdict::Probe(probe),
                    None => Verdict::Gone,
                }
            }
        },
    }
}

/// Checks the session `user_id` for liveness at the current time.
pub fn liveness_tick(user_id: &str, app_state: &AppState, policy: &LivenessPolicy) -> (verdict: Verdict)
    ensures
        exists|now: u64| #[trigger] judged(app_state@, user_id@, now, policy.timeout, verdict),
{
    let now = read_clock();
    liveness_tick_at(user_id, app_state, now.seconds, policy)
}

} // verus!
