use vstd::prelude::*;
use vstd::string::StringExecFns;
use crate::models::{ChatMessage, MessageView, SERVER_NAME, server_name, texts};
use crate::registry::{AppState, StateView, usernames};
use crate::stamp::fresh_id;
use crate::text::joined;

verus! {

/// One message and the connections that are to receive it, in order.
#[derive(Debug)]
pub struct Outbound {
    pub recipients: Vec<String>,
    pub message: ChatMessage,
}

/// The mathematical value of an [`Outbound`].
pub struct OutboundView {
    pub recipients: Seq<Seq<char>>,
    pub message: MessageView,
}

impl View for Outbound {
    type V = OutboundView;

    open spec fn view(&self) -> OutboundView {
        OutboundView { recipients: texts(self.recipients@), message: self.message@ }
    }
}

/// The values of a list of deliveries.
pub open spec fn outbound_views(v: Seq<Outbound>) -> Seq<OutboundView> {
    v.map_values(|o: Outbound| o@)
}

/// A delivery as the protocol prescribes it. Where `fresh_id` is set the
/// relay writes the message itself and draws its id anew, so the
/// prescription leaves the id open.
pub struct Planned {
    pub recipients: Seq<Seq<char>>,
    pub message: MessageView,
    pub fresh_id: bool,
}

/// The delivery is the prescribed one: same recipients, same message, but
/// for an id that the prescription leaves open.
pub open spec fn realizes_one(actual: OutboundView, planned: Planned) -> bool {
    &&& actual.recipients == planned.recipients
    &&& if planned.fresh_id {
        actual.message == (MessageView { id: actual.message.id, ..planned.message })
    } else {
        actual.message == planned.message
    }
}

/// The deliveries are the prescribed ones, one for one and in order.
pub open spec fn realizes(actual: Seq<OutboundView>, plan: Seq<Planned>) -> bool {
    &&& actual.len() == plan.len()
    &&& forall|i: int| 0 <= i < plan.len() ==> realizes_one(#[trigger] actual[i], plan[i])
}

/// A message that the relay itself writes, with its id left open.
pub open spec fn server_message(kind: Seq<char>, room: Seq<char>, text: Seq<char>, now: u64) -> MessageView {
    MessageView {
        msg_type: kind,
        username: server_name(),
        room: room,
        text: text,
        timestamp: now,
        id: Seq::empty(),
        target: None,
    }
}

/// Delivery of a message to every member of a room: none for a room that
/// does not exist or has no member.
pub open spec fn broadcast(s: StateView, room: Seq<char>, m: MessageView, fresh_id: bool) -> Seq<Planned> {
    if s.members(room).len() == 0 {
        Seq::empty()
    } else {
        seq![Planned { recipients: s.members(room), message: m, fresh_id: fresh_id }]
    }
}

/// Delivery of a message to one connection: none for an id that is not
/// registered.
pub open spec fn unicast(s: StateView, id: Seq<char>, m: MessageView, fresh_id: bool) -> Seq<Planned> {
    if s.session(id) is Some {
        seq![Planned { recipients: seq![id], message: m, fresh_id: fresh_id }]
    } else {
        Seq::empty()
    }
}

/// One line per listed id that is registered: the session's name, `left`,
/// its address, `right`.
pub open spec fn roster(s: StateView, ids: Seq<Seq<char>>, left: Seq<char>, right: Seq<char>) -> Seq<Seq<char>>
    decreases ids.len(),
{
    if ids.len() == 0 {
        Seq::empty()
    } else {
        let rest = roster(s, ids.drop_last(), left, right);
        match s.session(ids.last()) {
            Some(x) => rest.push(x.username + left + x.addr + right),
            None => rest,
        }
    }
}

/// The text of a room's presence snapshot: `name:address` for each member,
/// separated by commas.
pub open spec fn snapshot_text(s: StateView, room: Seq<char>) -> Seq<char> {
    joined(roster(s, s.members(room), ":"@, ""@), ","@)
}

/// Delivery of a room's presence snapshot to its members.
pub open spec fn snapshot(s: StateView, room: Seq<char>, now: u64) -> Seq<Planned> {
    broadcast(s, room, server_message("userlist"@, room, snapshot_text(s, room), now), true)
}

/// The id of the first session, in registry order, that carries this name.
pub open spec fn id_of_name(s: StateView, name: Seq<char>) -> Option<Seq<char>> {
    match usernames(s.sessions).index_of_first(name) {
        Some(i) => Some(s.sessions[i].id),
        None => None,
    }
}

/// Deliveries that realize two plans realize the plans one after the other.
pub proof fn lemma_realizes_concat(a: Seq<OutboundView>, pa: Seq<Planned>, b: Seq<OutboundView>, pb: Seq<Planned>)
    requires
        realizes(a, pa),
        realizes(b, pb),
    ensures
        realizes(a + b, pa + pb),
{
    assert forall|i: int| 0 <= i < (pa + pb).len() implies realizes_one(#[trigger] (a + b)[i], (pa + pb)[i]) by {
        if i < pa.len() {
            assert((a + b)[i] == a[i]);
        } else {
            assert((a + b)[i] == b[i - pa.len()]);
            assert((pa + pb)[i] == pb[i - pa.len()]);
        }
    }
}

/// Appends `more` to `out`.
pub fn push_all(out: &mut Vec<Outbound>, more: Vec<Outbound>)
    ensures
        outbound_views(final(out)@) == outbound_views(old(out)@) + outbound_views(more@),
{
    let ghost added = more@;
    let mut more = more;
    out.append(&mut more);
    proof {
        assert(outbound_views(out@) =~= outbound_views(old(out)@) + outbound_views(added));
    }
}

/// A message of the relay's own with the given id.
pub fn stamped(kind: &str, room: &str, text: String, now: u64, id: String) -> (m: ChatMessage)
    ensures
        m@ == (MessageView { id: id@, ..server_message(kind@, room@, text@, now) }),
{
    ChatMessage {
        msg_type: String::from_str(kind),
        username: String::from_str(SERVER_NAME),
        room: String::from_str(room),
        text,
        timestamp: now,
        id,
        target: None,
    }
}

/// A message of the relay's own with an id drawn anew.
pub fn server_envelope(kind: &str, room: &str, text: String, now: u64) -> (m: ChatMessage)
    ensures
        m@ == (MessageView { id: m@.id, ..server_message(kind@, room@, text@, now) }),
{
    stamped(kind, room, text, now, fresh_id())
}

/// Addresses a message to every member of a room.
pub fn broadcast_message_to_room(message: &ChatMessage, room: &str, app_state: &AppState) -> (out: Vec<Outbound>)
    ensures
        realizes(outbound_views(out@), broadcast(app_state@, room@, message@, false)),
{
    let recipients = app_state.room_members(room);
    let mut out: Vec<Outbound> = Vec::new();
    if recipients.len() > 0 {
        out.push(Outbound { recipients, message: message.clone() });
    }
    out
}

/// Addresses a message to one connection.
pub fn send_message_to_user(message: &ChatMessage, user_id: &str, app_state: &AppState) -> (out: Vec<Outbound>)
    ensures
        realizes(outbound_views(out@), unicast(app_state@, user_id@, message@, false)),
{
    let mut out: Vec<Outbound> = Vec::new();
    if app_state.lookup(user_id).is_some() {
        let mut recipients: Vec<String> = Vec::new();
        recipients.push(String::from_str(user_id));
        proof {
            assert(texts(recipients@) =~= seq![user_id@]);
        }
        out.push(Outbound { recipients, message: message.clone() });
    }
    out
}

} // verus!
