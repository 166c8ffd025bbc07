use vstd::prelude::*;
pub use crate::registry::AppState;

verus! {

/// One protocol message exchanged between a client and the relay.
#[derive(Debug)]
pub struct ChatMessage {
    pub msg_type: String,
    pub username: String,
    pub room: String,
    pub text: String,
    pub timestamp: u64,
    pub id: String,
    pub target: Option<String>,
}

/// The mathematical value of a [`ChatMessage`].
pub struct MessageView {
    pub msg_type: Seq<char>,
    pub username: Seq<char>,
    pub room: Seq<char>,
    pub text: Seq<char>,
    pub timestamp: u64,
    pub id: Seq<char>,
    pub target: Option<Seq<char>>,
}

/// The value of an optional string.
pub open spec fn opt_view(s: Option<String>) -> Option<Seq<char>> {
    match s {
        Some(t) => Some(t@),
        None => None,
    }
}

impl View for ChatMessage {
    type V = MessageView;

    open spec fn view(&self) -> MessageView {
        MessageView {
            msg_type: self.msg_type@,
            username: self.username@,
            room: self.room@,
            text: self.text@,
            timestamp: self.timestamp,
            id: self.id@,
            target: opt_view(self.target),
        }
    }
}

impl Clone for ChatMessage {
    fn clone(&self) -> (copy: Self)
        ensures
            copy@ == self@,
    {
        let target = match &self.target {
            Some(t) => Some(t.clone()),
            None => None,
        };
        ChatMessage {
            msg_type: self.msg_type.clone(),
            username: self.username.clone(),
            room: self.room.clone(),
            text: self.text.clone(),
            timestamp: self.timestamp,
            id: self.id.clone(),
            target,
        }
    }
}

/// The relay's record of one live connection.
///
/// Times are whole seconds of the clock that the caller feeds the relay.
#[derive(Debug)]
pub struct UserSession {
    pub id: String,
    pub username: String,
    pub room: String,
    pub addr: String,
    pub last_heartbeat: u64,
    pub join_time: u64,
}

/// The mathematical value of a [`UserSession`].
pub struct SessionView {
    pub id: Seq<char>,
    pub username: Seq<char>,
    pub room: Seq<char>,
    pub addr: Seq<char>,
    pub last_heartbeat: u64,
    pub join_time: u64,
}

impl View for UserSession {
    type V = SessionView;

    open spec fn view(&self) -> SessionView {
        SessionView {
            id: self.id@,
            username: self.username@,
            room: self.room@,
            addr: self.addr@,
            last_heartbeat: self.last_heartbeat,
            join_time: self.join_time,
        }
    }
}

impl Clone for UserSession {
    fn clone(&self) -> (copy: Self)
        ensures
            copy@ == self@,
    {
        UserSession {
            id: self.id.clone(),
            username: self.username.clone(),
            room: self.room.clone(),
            addr: self.addr.clone(),
            last_heartbeat: self.last_heartbeat,
            join_time: self.join_time,
        }
    }
}

/// A named group of connections that share broadcasts.
#[derive(Debug)]
pub struct Room {
    pub name: String,
    pub members: Vec<String>,
}

/// The mathematical value of a [`Room`]: its name and its members in the
/// order in which they joined.
pub struct RoomView {
    pub name: Seq<char>,
    pub members: Seq<Seq<char>>,
}

/// The values of a list of strings.
pub open spec fn texts(v: Seq<String>) -> Seq<Seq<char>> {
    v.map_values(|s: String| s@)
}

impl View for Room {
    type V = RoomView;

    open spec fn view(&self) -> RoomView {
        RoomView { name: self.name@, members: texts(self.members@) }
    }
}

/// The name of the room that always exists.
pub const DEFAULT_ROOM: &'static str = "大厅";

/// The name a session carries until its client supplies one.
pub const UNNAMED: &'static str = "未命名用户";

/// The sender name of every message that the relay itself writes.
pub const SERVER_NAME: &'static str = "服务器";

/// The name of the room that always exists.
pub open spec fn default_room() -> Seq<char> {
    DEFAULT_ROOM@
}

/// The name a session carries until its client supplies one.
pub open spec fn unnamed() -> Seq<char> {
    UNNAMED@
}

/// The sender name of every message that the relay itself writes.
pub open spec fn server_name() -> Seq<char> {
    SERVER_NAME@
}

/// Copies a list of strings.
pub fn clone_texts(v: &Vec<String>) -> (copy: Vec<String>)
    ensures
        texts(copy@) == texts(v@),
{
    let mut copy: Vec<String> = Vec::new();
    let mut i: usize = 0;
    while i < v.len()
        invariant
            i <= v.len(),
            copy.len() == i,
            forall|j: int| 0 <= j < i ==> copy[j]@ == v[j]@,
        decreases v.len() - i,
    {
        copy.push(v[i].clone());
        i += 1;
    }
    proof {
        assert(texts(copy@) =~= texts(v@));
    }
    copy
}

} // verus!
