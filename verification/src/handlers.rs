use vstd::prelude::*;
use vstd::string::StringExecFns;
pub use crate::commands::{handle_command, handle_command_at};
use crate::commands::{command_plan, command_reply};
pub use crate::delivery::{broadcast_message_to_room, send_message_to_user};
use crate::delivery::{
    Outbound, Planned, broadcast, id_of_name, lemma_realizes_concat, outbound_views, push_all,
    realizes, roster, server_envelope, server_message, snapshot, unicast,
};
use crate::models::{ChatMessage, MessageView, SessionView, UNNAMED, texts, unnamed};
use crate::registry::{
    AppState, StateView, lemma_first_position, lemma_no_position, session_views, usernames,
};
use crate::stamp::{Moment, read_clock};
use crate::text::join;

verus! {

/// Addresses a message of the relay's own to every member of a room.
pub fn announce(kind: &str, room: &str, text: String, now: u64, app_state: &AppState) -> (out: Vec<Outbound>)
    ensures
        realizes(
            outbound_views(out@),
            broadcast(app_state@, room@, server_message(kind@, room@, text@, now), true),
        ),
{
    let message = server_envelope(kind, room, text, now);
    broadcast_message_to_room(&message, room, app_state)
}

/// Addresses a message of the relay's own to one connection.
pub fn notify(user_id: &str, kind: &str, room: &str, text: String, now: u64, app_state: &AppState) -> (out: Vec<Outbound>)
    ensures
        realizes(
            outbound_views(out@),
            unicast(app_state@, user_id@, server_message(kind@, room@, text@, now), true),
        ),
{
    let message = server_envelope(kind, room, text, now);
    send_message_to_user(&message, user_id, app_state)
}

/// One line per listed id that is registered: the session's name, `left`,
/// its address, `right`.
pub fn roster_lines(app_state: &AppState, ids: &Vec<String>, left: &str, right: &str) -> (lines: Vec<String>)
    ensures
        texts(lines@) == roster(app_state@, texts(ids@), left@, right@),
{
    let ghost all = texts(ids@);
    let mut lines: Vec<String> = Vec::new();
    let mut i: usize = 0;
    proof {
        assert(texts(lines@) =~= Seq::empty());
    }
    while i < ids.len()
        invariant
            i <= ids.len(),
            all == texts(ids@),
            texts(lines@) == roster(app_state@, all.take(i as int), left@, right@),
        decreases ids.len() - i,
    {
        let ghost before = texts(lines@);
        proof {
            assert(all.take(i + 1).drop_last() =~= all.take(i as int));
            assert(all.take(i + 1).last() == ids@[i as int]@);
        }
        match app_state.lookup(ids[i].as_str()) {
            Some(session) => {
                let mut line = session.username.clone();
                line.append(left);
                line.append(session.addr.as_str());
                line.append(right);
                lines.push(line);
                proof {
                    assert(texts(lines@) =~= before.push(line@));
                }
            },
            None => {},
        }
        i += 1;
    }
    proof {
        assert(all.take(ids.len() as int) =~= all);
    }
    lines
}

/// Addresses a room's presence snapshot, stamped `now`, to its members.
pub fn send_user_list_at(app_state: &AppState, room: &str, now: u64) -> (out: Vec<Outbound>)
    ensures
        realizes(outbound_views(out@), snapshot(app_state@, room@, now)),
{
    let members = app_state.room_members(room);
    let lines = roster_lines(app_state, &members, ":", "");
    let text = join(&lines, ",");
    announce("userlist", room, text, now, app_state)
}

/// Addresses a room's presence snapshot, stamped with the current time, to
/// its members.
pub fn send_user_list(app_state: &AppState, room: &str) -> (out: Vec<Outbound>)
    ensures
        exists|now: u64| realizes(outbound_views(out@), #[trigger] snapshot(app_state@, room@, now)),
{
    let now = read_clock();
    send_user_list_at(app_state, room, now.seconds)
}

/// The id of the first session, in registry order, that carries this name.
pub fn find_user_by_name(username: &str, app_state: &AppState) -> (found: Option<String>)
    ensures
        match found {
            Some(id) => id_of_name(app_state@, username@) == Some(id@),
            None => id_of_name(app_state@, username@) is None,
        },
{
    let name = String::from_str(username);
    let sessions = app_state.sessions();
    let mut i: usize = 0;
    while i < sessions.len()
        invariant
            i <= sessions.len(),
            name@ == username@,
            session_views(sessions@) == app_state@.sessions,
            forall|j: int| 0 <= j < i ==> usernames(app_state@.sessions)[j] != name@,
        decreases sessions.len() - i,
    {
        if sessions[i].username == name {
            proof {
                assert(app_state@.sessions[i as int] == sessions@[i as int]@);
                lemma_first_position(usernames(app_state@.sessions), name@, i as int);
            }
            return Some(sessions[i].id.clone());
        }
        proof {
            assert(app_state@.sessions[i as int] == sessions@[i as int]@);
        }
        i += 1;
    }
    proof {
        assert(app_state@.sessions.len() == sessions@.len());
        lemma_no_position(usernames(app_state@.sessions), name@);
    }
    None
}

/// What the room-switch protocol delivers when the session `id` asks for
/// `room` at time `now`: a notice to the asker who is in that room already;
/// else the departure to those who stay behind, the arrival to the new
/// room, and a presence snapshot to each of the two rooms. Nothing for an
/// id that is not registered.
pub open spec fn join_plan(s: StateView, id: Seq<char>, room: Seq<char>, now: u64) -> Seq<Planned> {
    match s.session(id) {
        None => Seq::empty(),
        Some(x) => if x.room == room {
            unicast(s, id, server_message("system"@, x.room, "您已经在房间 "@ + room + " 中"@, now), true)
        } else {
            let t = s.move_room(id, room);
            broadcast(t, x.room, server_message("system"@, x.room, x.username + " 离开了房间"@, now), true)
                + broadcast(t, room, server_message("system"@, room, x.username + " 加入了房间"@, now), true)
                + snapshot(t, x.room, now) + snapshot(t, room, now)
        },
    }
}

/// Runs the room-switch protocol for the session `user_id` at time `now`.
pub fn join_room_at(user_id: &str, new_room: &str, app_state: &mut AppState, now: u64) -> (out: Vec<Outbound>)
    ensures
        final(app_state)@ == old(app_state)@.move_room(user_id@, new_room@),
        realizes(outbound_views(out@), join_plan(old(app_state)@, user_id@, new_room@, now)),
        old(app_state)@.wf() ==> final(app_state)@.wf(),
{
    let (username, old_room) = match app_state.lookup(user_id) {
        Some(session) => (session.username.clone(), session.room.clone()),
        None => {
            return Vec::new();
        },
    };
    if !app_state.move_room(user_id, new_room) {
        let mut text = String::from_str("您已经在房间 ");
        text.append(new_room);
        text.append(" 中");
        return notify(user_id, "system", old_room.as_str(), text, now, app_state);
    }
    let ghost s = old(app_state)@;
    let ghost t = app_state@;
    let ghost name = username@;
    let ghost from = old_room@;
    let ghost plan_one = broadcast(t, from, server_message("system"@, from, name + " 离开了房间"@, now), true);
    let ghost plan_two = broadcast(t, new_room@, server_message("system"@, new_room@, name + " 加入了房间"@, now), true);
    let ghost plan_three = snapshot(t, from, now);
    let ghost plan_four = snapshot(t, new_room@, now);

    let mut left = username.clone();
    left.append(" 离开了房间");
    let mut out = announce("system", old_room.as_str(), left, now, app_state);
    let ghost sent_one = outbound_views(out@);

    let mut arrived = username;
    arrived.append(" 加入了房间");
    let more = announce("system", new_room, arrived, now, app_state);
    push_all(&mut out, more);
    let ghost sent_two = outbound_views(out@);
    proof {
        lemma_realizes_concat(sent_one, plan_one, outbound_views(more@), plan_two);
    }

    let more = send_user_list_at(app_state, old_room.as_str(), now);
    push_all(&mut out, more);
    let ghost sent_three = outbound_views(out@);
    proof {
        lemma_realizes_concat(sent_two, plan_one + plan_two, outbound_views(more@), plan_three);
    }

    let more = send_user_list_at(app_state, new_room, now);
    push_all(&mut out, more);
    proof {
        lemma_realizes_concat(sent_three, plan_one + plan_two + plan_three, outbound_views(more@), plan_four);
    }
    out
}

/// Runs the room-switch protocol for the session `user_id` at the current
/// time.
pub fn join_room(user_id: &str, new_room: &str, app_state: &mut AppState) -> (out: Vec<Outbound>)
    ensures
        final(app_state)@ == old(app_state)@.move_room(user_id@, new_room@),
        exists|now: u64|
            realizes(outbound_views(out@), #[trigger] join_plan(old(app_state)@, user_id@, new_room@, now)),
        old(app_state)@.wf() ==> final(app_state)@.wf(),
{
    let now = read_clock();
    join_room_at(user_id, new_room, app_state, now.seconds)
}

/// What is delivered when the session `id` is torn down at time `now`: if
/// it had taken a name, the departure and a presence snapshot to the room
/// it leaves. Nothing for an id that is not registered.
pub open spec fn disconnect_plan(s: StateView, id: Seq<char>, now: u64) -> Seq<Planned> {
    match s.session(id) {
        None => Seq::empty(),
        Some(x) => if x.username == unnamed() {
            Seq::empty()
        } else {
            let t = s.remove(id);
            broadcast(t, x.room, server_message("system"@, x.room, x.username + " 离开了聊天室"@, now), true)
                + snapshot(t, x.room, now)
        },
    }
}

/// Tears down the session `user_id` at time `now`.
pub fn handle_disconnect_at(user_id: &str, app_state: &mut AppState, now: u64) -> (out: Vec<Outbound>)
    ensures
        final(app_state)@ == old(app_state)@.remove(user_id@),
        realizes(outbound_views(out@), disconnect_plan(old(app_state)@, user_id@, now)),
        old(app_state)@.wf() ==> final(app_state)@.wf(),
{
    let session = match app_state.remove(user_id) {
        Some(session) => session,
        None => {
            return Vec::new();
        },
    };
    if session.username == String::from_str(UNNAMED) {
        return Vec::new();
    }
    let ghost t = app_state@;
    let ghost plan_one = broadcast(
        t,
        session.room@,
        server_message("system"@, session.room@, session.username@ + " 离开了聊天室"@, now),
        true,
    );
    let mut text = session.username.clone();
    text.append(" 离开了聊天室");
    let mut out = announce("system", session.room.as_str(), text, now, app_state);
    let ghost sent_one = outbound_views(out@);
    let more = send_user_list_at(app_state, session.room.as_str(), now);
    push_all(&mut out, more);
    proof {
        lemma_realizes_concat(sent_one, plan_one, outbound_views(more@), snapshot(t, session.room@, now));
    }
    out
}

/// Tears down the session `user_id` at the current time.
pub fn handle_disconnect(user_id: &str, app_state: &mut AppState) -> (out: Vec<Outbound>)
    ensures
        final(app_state)@ == old(app_state)@.remove(user_id@),
        exists|now: u64|
            realizes(outbound_views(out@), #[trigger] disconnect_plan(old(app_state)@, user_id@, now)),
        old(app_state)@.wf() ==> final(app_state)@.wf(),
{
    let now = read_clock();
    handle_disconnect_at(user_id, app_state, now.seconds)
}

/// One frame from a connection, as the dispatcher reads it. A text frame
/// arrives decoded: as an envelope, or as malformed.
#[derive(Debug)]
pub enum Frame {
    Envelope(ChatMessage),
    Malformed,
    Ping,
    Pong,
    Binary,
    Continuation,
    Nop,
    Close,
}

/// The mathematical value of a [`Frame`].
pub enum FrameView {
    Envelope(MessageView),
    Malformed,
    Ping,
    Pong,
    Binary,
    Continuation,
    Nop,
    Close,
}

impl View for Frame {
    type V = FrameView;

    open spec fn view(&self) -> FrameView {
        match self {
            Frame::Envelope(m) => FrameView::Envelope(m@),
            Frame::Malformed => FrameView::Malformed,
            Frame::Ping => FrameView::Ping,
            Frame::Pong => FrameView::Pong,
            Frame::Binary => FrameView::Binary,
            Frame::Continuation => FrameView::Continuation,
            Frame::Nop => FrameView::Nop,
            Frame::Close => FrameView::Close,
        }
    }
}

/// What the dispatcher asks of the transport after one frame.
#[derive(Debug)]
pub struct Reaction {
    /// Whether the connection stays open.
    pub keep_open: bool,
    /// Whether the frame's keepalive is to be answered.
    pub pong: bool,
    pub deliveries: Vec<Outbound>,
}

/// The dispatcher's step as the protocol prescribes it.
pub struct Step {
    pub state: StateView,
    pub plan: Seq<Planned>,
    pub keep_open: bool,
    pub pong: bool,
}

/// The session takes the envelope's name: it has none yet, and the
/// envelope carries one.
pub open spec fn takes_name(x: SessionView, m: MessageView) -> bool {
    x.username == unnamed() && m.username != unnamed()
}

/// The state after the session `id` has taken the envelope's name, if it
/// does.
pub open spec fn naming_state(s: StateView, id: Seq<char>, m: MessageView) -> StateView {
    match s.session(id) {
        Some(x) => if takes_name(x, m) {
            s.rename(id, m.username)
        } else {
            s
        },
        None => s,
    }
}

/// What is delivered when the session `id` takes the envelope's name: the
/// arrival and a presence snapshot to its room.
pub open spec fn naming_plan(s: StateView, id: Seq<char>, m: MessageView, now: u64) -> Seq<Planned> {
    match s.session(id) {
        Some(x) => if takes_name(x, m) {
            let t = s.rename(id, m.username);
            broadcast(t, x.room, server_message("system"@, x.room, m.username + " 加入了聊天室"@, now), true)
                + snapshot(t, x.room, now)
        } else {
            Seq::empty()
        },
        None => Seq::empty(),
    }
}

/// The envelope as the relay passes it on: name and time are the relay's,
/// never the client's.
pub open spec fn relayed(m: MessageView, x: SessionView, now: u64) -> MessageView {
    MessageView { username: x.username, timestamp: now, ..m }
}

/// What a command envelope delivers: what the command sends on its own,
/// then its answer, if it has one, to the caller.
pub open spec fn command_step(s: StateView, id: Seq<char>, x: SessionView, text: Seq<char>, now: Moment) -> Seq<Planned> {
    command_plan(s, id, text, now) + if command_reply(s, id, text).len() > 0 {
        unicast(s, id, server_message("system"@, x.room, command_reply(s, id, text), now.seconds), true)
    } else {
        Seq::empty()
    }
}

/// What a private envelope delivers: the envelope to its target and to its
/// sender, or a notice to the sender when nobody carries the target's name.
pub open spec fn private_step(s: StateView, id: Seq<char>, x: SessionView, m: MessageView, now: u64) -> Seq<Planned> {
    match m.target {
        Some(t) => match id_of_name(s, t) {
            Some(target_id) => unicast(s, target_id, relayed(m, x, now), false) + unicast(
                s,
                id,
                relayed(m, x, now),
                false,
            ),
            None => unicast(
                s,
                id,
                server_message("system"@, x.room, "用户 "@ + t + " 不在线或不存在"@, now),
                true,
            ),
        },
        None => Seq::empty(),
    }
}

/// The kinds of envelope that the dispatcher knows, and one for every
/// other type tag.
#[derive(Clone, Copy, Debug, PartialEq, Eq, Structural)]
pub enum MessageKind {
    Chat,
    Private,
    Ping,
    Pong,
    Join,
    Command,
    Unrecognized,
}

/// The kind that a type tag stands for.
pub open spec fn kind_of(tag: Seq<char>) -> MessageKind {
    if tag == "chat"@ {
        MessageKind::Chat
    } else if tag == "private"@ {
        MessageKind::Private
    } else if tag == "ping"@ {
        MessageKind::Ping
    } else if tag == "pong"@ {
        MessageKind::Pong
    } else if tag == "join"@ {
        MessageKind::Join
    } else if tag == "command"@ {
        MessageKind::Command
    } else {
        MessageKind::Unrecognized
    }
}

/// Classifies an envelope by its type tag.
pub fn classify(tag: &str) -> (kind: MessageKind)
    ensures
        kind == kind_of(tag@),
{
    let tag = String::from_str(tag);
    if tag == String::from_str("chat") {
        MessageKind::Chat
    } else if tag == String::from_str("private") {
        MessageKind::Private
    } else if tag == String::from_str("ping") {
        MessageKind::Ping
    } else if tag == String::from_str("pong") {
        MessageKind::Pong
    } else if tag == String::from_str("join") {
        MessageKind::Join
    } else if tag == String::from_str("command") {
        MessageKind::Command
    } else {
        MessageKind::Unrecognized
    }
}

/// The protocol step that an envelope's type selects, for the session
/// `id`: the next state and the deliveries. An unknown type does nothing.
pub open spec fn typed_step(s: StateView, id: Seq<char>, m: MessageView, now: Moment) -> (StateView, Seq<Planned>) {
    match s.session(id) {
        None => (s, Seq::empty()),
        Some(x) => match kind_of(m.msg_type) {
            MessageKind::Chat => (
                s,
                broadcast(s, x.room, MessageView { room: x.room, ..relayed(m, x, now.seconds) }, false),
            ),
            MessageKind::Private => (s, private_step(s, id, x, m, now.seconds)),
            MessageKind::Ping => (
                s,
                unicast(s, id, server_message("pong"@, ""@, m.text, now.seconds), true),
            ),
            MessageKind::Pong => (s, Seq::empty()),
            MessageKind::Join => if m.room.len() > 0 {
                (s.move_room(id, m.room), join_plan(s, id, m.room, now.seconds))
            } else {
                (s, Seq::empty())
            },
            MessageKind::Command => (s, command_step(s, id, x, m.text, now)),
            MessageKind::Unrecognized => (s, Seq::empty()),
        },
    }
}

/// The dispatcher's step for an envelope: a sender that is not registered
/// has its connection closed; else the heartbeat is refreshed, the name is
/// taken if this is the first envelope that carries one, and the
/// envelope's type selects the rest.
pub open spec fn envelope_step(s: StateView, m: MessageView, id: Seq<char>, now: Moment) -> Step {
    if s.session(id) is None {
        Step { state: s, plan: Seq::empty(), keep_open: false, pong: false }
    } else {
        let touched = s.touch(id, now.seconds);
        let named = naming_state(touched, id, m);
        Step {
            state: typed_step(named, id, m, now).0,
            plan: naming_plan(touched, id, m, now.seconds) + typed_step(named, id, m, now).1,
            keep_open: true,
            pong: false,
        }
    }
}

/// The dispatcher's step for one frame from the connection `id` at the
/// time `now`. Every frame refreshes the heartbeat; a close ends the
/// connection.
pub open spec fn dispatch(s: StateView, frame: FrameView, id: Seq<char>, now: Moment) -> Step {
    match frame {
        FrameView::Close => Step {
            state: s.touch(id, now.seconds),
            plan: Seq::empty(),
            keep_open: false,
            pong: false,
        },
        FrameView::Ping => Step {
            state: s.touch(id, now.seconds),
            plan: Seq::empty(),
            keep_open: true,
            pong: s.session(id) is Some,
        },
        FrameView::Malformed => Step {
            state: s.touch(id, now.seconds),
            plan: unicast(
                s.touch(id, now.seconds),
                id,
                server_message("system"@, ""@, "消息格式错误，请检查客户端代码"@, now.seconds),
                true,
            ),
            keep_open: true,
            pong: false,
        },
        FrameView::Envelope(m) => envelope_step(s, m, id, now),
        _ => Step { state: s.touch(id, now.seconds), plan: Seq::empty(), keep_open: true, pong: false },
    }
}

/// The outcome is the step that the protocol prescribes.
pub open spec fn follows(before: StateView, after: StateView, reaction: Reaction, step: Step) -> bool {
    &&& after == step.state
    &&& realizes(outbound_views(reaction.deliveries@), step.plan)
    &&& reaction.keep_open == step.keep_open
    &&& reaction.pong == step.pong
    &&& before.wf() ==> after.wf()
}

/// Runs the protocol step that the envelope's type selects.
pub fn handle_typed(m: ChatMessage, user_id: &str, app_state: &mut AppState, now: Moment) -> (out: Vec<Outbound>)
    ensures
        final(app_state)@ == typed_step(old(app_state)@, user_id@, m@, now).0,
        realizes(outbound_views(out@), typed_step(old(app_state)@, user_id@, m@, now).1),
        old(app_state)@.wf() ==> final(app_state)@.wf(),
{
    let (name, room) = match app_state.lookup(user_id) {
        Some(session) => (session.username.clone(), session.room.clone()),
        None => {
            return Vec::new();
        },
    };
    let ghost s = app_state@;
    let ghost x = s.session(user_id@).unwrap();
    match classify(m.msg_type.as_str()) {
        MessageKind::Chat => {
            let relayed = ChatMessage {
                msg_type: m.msg_type,
                username: name,
                room: room.clone(),
                text: m.text,
                timestamp: now.seconds,
                id: m.id,
                target: m.target,
            };
            broadcast_message_to_room(&relayed, room.as_str(), app_state)
        },
        MessageKind::Private => {
            let target = match &m.target {
                Some(t) => t.clone(),
                None => {
                    return Vec::new();
                },
            };
            let relayed = ChatMessage {
                msg_type: m.msg_type,
                username: name,
                room: m.room,
                text: m.text,
                timestamp: now.seconds,
                id: m.id,
                target: m.target,
            };
            match find_user_by_name(target.as_str(), app_state) {
                Some(target_id) => {
                    let mut out = send_message_to_user(&relayed, target_id.as_str(), app_state);
                    let ghost sent_one = outbound_views(out@);
                    let more = send_message_to_user(&relayed, user_id, app_state);
                    push_all(&mut out, more);
                    proof {
                        lemma_realizes_concat(
                            sent_one,
                            unicast(s, target_id@, relayed@, false),
                            outbound_views(more@),
                            unicast(s, user_id@, relayed@, false),
                        );
                    }
                    out
                },
                None => {
                    let mut text = String::from_str("用户 ");
                    text.append(target.as_str());
                    text.append(" 不在线或不存在");
                    notify(user_id, "system", room.as_str(), text, now.seconds, app_state)
                },
            }
        },
        MessageKind::Ping => notify(user_id, "pong", "", m.text, now.seconds, app_state),
        MessageKind::Pong => Vec::new(),
        MessageKind::Join => {
            if !m.room.as_str().is_empty() {
                join_room_at(user_id, m.room.as_str(), app_state, now.seconds)
            } else {
                Vec::new()
            }
        },
        MessageKind::Command => {
            let outcome = handle_command_at(m.text, user_id, app_state, now);
            let mut out = outcome.deliveries;
            if !outcome.reply.as_str().is_empty() {
                let ghost sent_one = outbound_views(out@);
                let more = notify(user_id, "system", room.as_str(), outcome.reply, now.seconds, app_state);
                push_all(&mut out, more);
                proof {
                    lemma_realizes_concat(
                        sent_one,
                        command_plan(s, user_id@, m.text@, now),
                        outbound_views(more@),
                        unicast(
                            s,
                            user_id@,
                            server_message("system"@, x.room, command_reply(s, user_id@, m.text@), now.seconds),
                            true,
                        ),
                    );
                }
            } else {
                proof {
                    assert(command_plan(s, user_id@, m.text@, now) + Seq::<Planned>::empty()
                        =~= command_plan(s, user_id@, m.text@, now));
                }
            }
            out
        },
        MessageKind::Unrecognized => Vec::new(),
    }
}

/// Handles one envelope from the connection `user_id` at the time `now`.
pub fn handle_envelope(m: ChatMessage, user_id: &str, app_state: &mut AppState, now: Moment) -> (reaction: Reaction)
    ensures
        follows(
            old(app_state)@,
            final(app_state)@,
            reaction,
            envelope_step(old(app_state)@, m@, user_id@, now),
        ),
{
    if app_state.lookup(user_id).is_none() {
        return Reaction { keep_open: false, pong: false, deliveries: Vec::new() };
    }
    app_state.touch(user_id, now.seconds);
    let ghost touched = app_state@;
    let mut out: Vec<Outbound> = Vec::new();
    let sentinel = String::from_str(UNNAMED);
    let naming = match app_state.lookup(user_id) {
        Some(session) => if session.username == sentinel && !(m.username == sentinel) {
            Some(session.room.clone())
        } else {
            None
        },
        None => None,
    };
    match naming {
        Some(room) => {
            app_state.set_username(user_id, m.username.as_str());
            let ghost t = app_state@;
            let mut text = m.username.clone();
            text.append(" 加入了聊天室");
            out = announce("system", room.as_str(), text, now.seconds, app_state);
            let ghost sent_one = outbound_views(out@);
            let more = send_user_list_at(app_state, room.as_str(), now.seconds);
            push_all(&mut out, more);
            proof {
                lemma_realizes_concat(
                    sent_one,
                    broadcast(
                        t,
                        room@,
                        server_message("system"@, room@, m.username@ + " 加入了聊天室"@, now.seconds),
                        true,
                    ),
                    outbound_views(more@),
                    snapshot(t, room@, now.seconds),
                );
            }
        },
        None => {},
    }
    let ghost named = app_state@;
    let ghost sent_one = outbound_views(out@);
    let ghost envelope = m@;
    let more = handle_typed(m, user_id, app_state, now);
    push_all(&mut out, more);
    proof {
        lemma_realizes_concat(
            sent_one,
            naming_plan(touched, user_id@, envelope, now.seconds),
            outbound_views(more@),
            typed_step(named, user_id@, envelope, now).1,
        );
    }
    Reaction { keep_open: true, pong: false, deliveries: out }
}

/// Handles one frame from the connection `user_id` at the time `now`.
pub fn handle_message_at(msg: Frame, user_id: &str, app_state: &mut AppState, now: Moment) -> (reaction: Reaction)
    ensures
        follows(
            old(app_state)@,
            final(app_state)@,
            reaction,
            dispatch(old(app_state)@, msg@, user_id@, now),
        ),
{
    match msg {
        Frame::Close => {
            app_state.touch(user_id, now.seconds);
            Reaction { keep_open: false, pong: false, deliveries: Vec::new() }
        },
        Frame::Ping => {
            let known = app_state.lookup(user_id).is_some();
            app_state.touch(user_id, now.seconds);
            Reaction { keep_open: true, pong: known, deliveries: Vec::new() }
        },
        Frame::Malformed => {
            app_state.touch(user_id, now.seconds);
            let text = String::from_str("消息格式错误，请检查客户端代码");
            let deliveries = notify(user_id, "system", "", text, now.seconds, app_state);
            Reaction { keep_open: true, pong: false, deliveries }
        },
        Frame::Envelope(m) => handle_envelope(m, user_id, app_state, now),
        _ => {
            app_state.touch(user_id, now.seconds);
            Reaction { keep_open: true, pong: false, deliveries: Vec::new() }
        },
    }
}

/// Handles one frame from the connection `user_id` at the current time.
pub fn handle_message(msg: Frame, user_id: &str, app_state: &mut AppState) -> (reaction: Reaction)
    ensures
        exists|now: Moment|
            follows(
                old(app_state)@,
                final(app_state)@,
                reaction,
                #[trigger] dispatch(old(app_state)@, msg@, user_id@, now),
            ),
{
    let now = read_clock();
    handle_message_at(msg, user_id, app_state, now)
}

} // verus!
