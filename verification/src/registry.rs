use vstd::prelude::*;
use vstd::string::StringExecFns;
use crate::invariants::{
    lemma_initial_wf, lemma_move_wf, lemma_register_wf, lemma_remove_wf, lemma_rename_wf,
    lemma_touch_wf,
};
use crate::models::{
    DEFAULT_ROOM, Room, RoomView, SessionView, UserSession, clone_texts, default_room, texts,
};

verus! {

/// The mathematical value of the relay's state: the registry of sessions in
/// the order in which they connected, and the room index in the order in
/// which the rooms were created.
pub struct StateView {
    pub sessions: Seq<SessionView>,
    pub rooms: Seq<RoomView>,
}

/// The ids of the sessions, in registry order.
pub open spec fn session_ids(ss: Seq<SessionView>) -> Seq<Seq<char>> {
    ss.map_values(|s: SessionView| s.id)
}

/// The names that the sessions carry, in registry order.
pub open spec fn usernames(ss: Seq<SessionView>) -> Seq<Seq<char>> {
    ss.map_values(|s: SessionView| s.username)
}

/// The names of the rooms, in index order.
pub open spec fn room_names(rs: Seq<RoomView>) -> Seq<Seq<char>> {
    rs.map_values(|r: RoomView| r.name)
}

/// Position of the session with this id, if there is one.
pub open spec fn session_at(ss: Seq<SessionView>, id: Seq<char>) -> Option<int> {
    session_ids(ss).index_of_first(id)
}

/// Position of the room with this name, if there is one.
pub open spec fn room_at(rs: Seq<RoomView>, name: Seq<char>) -> Option<int> {
    room_names(rs).index_of_first(name)
}

/// The room index lists `id` as a member of `room`.
pub open spec fn housed(rs: Seq<RoomView>, room: Seq<char>, id: Seq<char>) -> bool {
    exists|r: int| 0 <= r < rs.len() && (#[trigger] rs[r]).name == room && rs[r].members.contains(id)
}

/// The registry holds a session `id` whose current room is `room`.
pub open spec fn registered(ss: Seq<SessionView>, id: Seq<char>, room: Seq<char>) -> bool {
    exists|i: int| 0 <= i < ss.len() && (#[trigger] ss[i]).id == id && ss[i].room == room
}

/// The room index after `id` has been added to `room`, which is created
/// when it does not exist yet.
pub open spec fn attach(rs: Seq<RoomView>, room: Seq<char>, id: Seq<char>) -> Seq<RoomView> {
    match room_at(rs, room) {
        Some(r) => if rs[r].members.contains(id) {
            rs
        } else {
            rs.update(r, RoomView { name: rs[r].name, members: rs[r].members.push(id) })
        },
        None => rs.push(RoomView { name: room, members: seq![id] }),
    }
}

/// The room index after `id` has been taken out of `room`; the room goes
/// with its last member unless it is the default room.
pub open spec fn detach(rs: Seq<RoomView>, room: Seq<char>, id: Seq<char>) -> Seq<RoomView> {
    match room_at(rs, room) {
        Some(r) => {
            let rest = rs[r].members.remove_value(id);
            if rest.len() == 0 && room != default_room() {
                rs.remove(r)
            } else {
                rs.update(r, RoomView { name: rs[r].name, members: rest })
            }
        },
        None => rs,
    }
}

/// No two rooms share a name and no room lists a member twice.
pub open spec fn rooms_distinct(rs: Seq<RoomView>) -> bool {
    &&& room_names(rs).no_duplicates()
    &&& forall|r: int| 0 <= r < rs.len() ==> (#[trigger] rs[r]).members.no_duplicates()
}

/// The default room exists, and every other room has a member.
pub open spec fn rooms_alive(rs: Seq<RoomView>) -> bool {
    &&& room_names(rs).contains(default_room())
    &&& forall|r: int| 0 <= r < rs.len() && (#[trigger] rs[r]).name != default_room() ==> rs[r].members.len() > 0
}

impl StateView {
    /// The session with this id, if the registry holds one.
    pub open spec fn session(self, id: Seq<char>) -> Option<SessionView> {
        match session_at(self.sessions, id) {
            Some(i) => Some(self.sessions[i]),
            None => None,
        }
    }

    /// The members of a room in joining order; empty for a room that does
    /// not exist.
    pub open spec fn members(self, room: Seq<char>) -> Seq<Seq<char>> {
        match room_at(self.rooms, room) {
            Some(r) => self.rooms[r].members,
            None => Seq::empty(),
        }
    }

    /// The state in which only the empty default room exists.
    pub open spec fn initial() -> StateView {
        StateView {
            sessions: Seq::empty(),
            rooms: seq![RoomView { name: default_room(), members: Seq::empty() }],
        }
    }

    /// The state after a new session has been registered in its room. An id
    /// that is already registered changes nothing.
    pub open spec fn register(self, s: SessionView) -> StateView {
        if session_at(self.sessions, s.id) is Some {
            self
        } else {
            StateView { sessions: self.sessions.push(s), rooms: attach(self.rooms, s.room, s.id) }
        }
    }

    /// The state after the session `id` and its membership have been
    /// removed. An unknown id changes nothing.
    pub open spec fn remove(self, id: Seq<char>) -> StateView {
        match session_at(self.sessions, id) {
            Some(i) => StateView {
                sessions: self.sessions.remove(i),
                rooms: detach(self.rooms, self.sessions[i].room, id),
            },
            None => self,
        }
    }

    /// The state after the session `id` has moved to `room`. An unknown id,
    /// or a move to the room it is in, changes nothing.
    pub open spec fn move_room(self, id: Seq<char>, room: Seq<char>) -> StateView {
        match session_at(self.sessions, id) {
            Some(i) => if self.sessions[i].room == room {
                self
            } else {
                StateView {
                    sessions: self.sessions.update(i, SessionView { room: room, ..self.sessions[i] }),
                    rooms: attach(detach(self.rooms, self.sessions[i].room, id), room, id),
                }
            },
            None => self,
        }
    }

    /// The state after the session `id` has taken the name `name`.
    pub open spec fn rename(self, id: Seq<char>, name: Seq<char>) -> StateView {
        match session_at(self.sessions, id) {
            Some(i) => StateView {
                sessions: self.sessions.update(i, SessionView { username: name, ..self.sessions[i] }),
                rooms: self.rooms,
            },
            None => self,
        }
    }

    /// The state after traffic from the session `id` was seen at time `now`:
    /// its last heartbeat never moves backwards.
    pub open spec fn touch(self, id: Seq<char>, now: u64) -> StateView {
        match session_at(self.sessions, id) {
            Some(i) => StateView {
                sessions: self.sessions.update(
                    i,
                    SessionView {
                        last_heartbeat: if now > self.sessions[i].last_heartbeat {
                            now
                        } else {
                            self.sessions[i].last_heartbeat
                        },
                        ..self.sessions[i]
                    },
                ),
                rooms: self.rooms,
            },
            None => self,
        }
    }

    /// Registry and room index agree: ids are unique, every session is a
    /// member of the room it names, every member of a room is a session
    /// that names this room, the default room exists and no other room is
    /// empty.
    pub open spec fn wf(self) -> bool {
        &&& session_ids(self.sessions).no_duplicates()
        &&& rooms_distinct(self.rooms)
        &&& rooms_alive(self.rooms)
        &&& forall|i: int| 0 <= i < self.sessions.len() ==> housed(self.rooms, (#[trigger] self.sessions[i]).room, self.sessions[i].id)
        &&& forall|room: Seq<char>, id: Seq<char>| #[trigger] housed(self.rooms, room, id) ==> registered(self.sessions, id, room)
    }
}

/// The first position of a key is the only position before which the key
/// does not occur.
pub proof fn lemma_first_position(keys: Seq<Seq<char>>, key: Seq<char>, i: int)
    requires
        0 <= i < keys.len(),
        keys[i] == key,
        forall|j: int| 0 <= j < i ==> keys[j] != key,
    ensures
        keys.index_of_first(key) == Some(i),
{
    keys.index_of_first_ensures(key);
    assert(keys.contains(key));
}

/// A key that occurs nowhere has no first position.
pub proof fn lemma_no_position(keys: Seq<Seq<char>>, key: Seq<char>)
    requires
        forall|j: int| 0 <= j < keys.len() ==> keys[j] != key,
    ensures
        keys.index_of_first(key) is None,
{
    keys.index_of_first_ensures(key);
}

/// The values of a list of sessions.
pub open spec fn session_views(v: Seq<UserSession>) -> Seq<SessionView> {
    v.map_values(|s: UserSession| s@)
}

/// The values of a list of rooms.
pub open spec fn room_views(v: Seq<Room>) -> Seq<RoomView> {
    v.map_values(|r: Room| r@)
}

/// Position of the first string of `v` that equals `key`.
pub fn position_of(v: &Vec<String>, key: &String) -> (found: Option<usize>)
    ensures
        match found {
            Some(i) => texts(v@).index_of_first(key@) == Some(i as int) && i < v.len(),
            None => texts(v@).index_of_first(key@) is None,
        },
{
    let mut i: usize = 0;
    while i < v.len()
        invariant
            i <= v.len(),
            forall|j: int| 0 <= j < i ==> texts(v@)[j] != key@,
        decreases v.len() - i,
    {
        if v[i] == *key {
            proof {
                lemma_first_position(texts(v@), key@, i as int);
            }
            return Some(i);
        }
        i += 1;
    }
    proof {
        lemma_no_position(texts(v@), key@);
    }
    None
}

/// The relay's shared state: the registry of live sessions and the room
/// index over them.
#[derive(Debug)]
pub struct AppState {
    sessions: Vec<UserSession>,
    rooms: Vec<Room>,
}

impl View for AppState {
    type V = StateView;

    closed spec fn view(&self) -> StateView {
        StateView { sessions: session_views(self.sessions@), rooms: room_views(self.rooms@) }
    }
}

impl AppState {
    /// The state at startup: no session, and the default room.
    pub fn new() -> (state: AppState)
        ensures
            state@ == StateView::initial(),
            state@.wf(),
    {
        let mut rooms: Vec<Room> = Vec::new();
        rooms.push(Room { name: String::from_str(DEFAULT_ROOM), members: Vec::new() });
        let state = AppState { sessions: Vec::new(), rooms };
        proof {
            assert(state@.sessions =~= StateView::initial().sessions);
            assert(state.rooms@[0]@.members =~= Seq::empty());
            assert(state@.rooms =~= StateView::initial().rooms);
            lemma_initial_wf();
        }
        state
    }

    /// The sessions, in the order in which they connected.
    pub fn sessions(&self) -> (list: &Vec<UserSession>)
        ensures
            session_views(list@) == self@.sessions,
    {
        &self.sessions
    }

    /// The rooms, in the order in which they were created.
    pub fn rooms(&self) -> (list: &Vec<Room>)
        ensures
            room_views(list@) == self@.rooms,
    {
        &self.rooms
    }

    /// Position of the session with this id.
    fn find_session(&self, id: &String) -> (found: Option<usize>)
        ensures
            match found {
                Some(i) => session_at(self@.sessions, id@) == Some(i as int) && i < self.sessions.len(),
                None => session_at(self@.sessions, id@) is None,
            },
    {
        let mut i: usize = 0;
        while i < self.sessions.len()
            invariant
                i <= self.sessions.len(),
                forall|j: int| 0 <= j < i ==> session_ids(self@.sessions)[j] != id@,
            decreases self.sessions.len() - i,
        {
            if self.sessions[i].id == *id {
                proof {
                    lemma_first_position(session_ids(self@.sessions), id@, i as int);
                }
                return Some(i);
            }
            i += 1;
        }
        proof {
            lemma_no_position(session_ids(self@.sessions), id@);
        }
        None
    }

    /// Position of the room with this name.
    fn find_room(&self, name: &String) -> (found: Option<usize>)
        ensures
            match found {
                Some(r) => room_at(self@.rooms, name@) == Some(r as int) && r < self.rooms.len(),
                None => room_at(self@.rooms, name@) is None,
            },
    {
        let mut r: usize = 0;
        while r < self.rooms.len()
            invariant
                r <= self.rooms.len(),
                forall|j: int| 0 <= j < r ==> room_names(self@.rooms)[j] != name@,
            decreases self.rooms.len() - r,
        {
            if self.rooms[r].name == *name {
                proof {
                    lemma_first_position(room_names(self@.rooms), name@, r as int);
                }
                return Some(r);
            }
            r += 1;
        }
        proof {
            lemma_no_position(room_names(self@.rooms), name@);
        }
        None
    }

    /// Adds `id` to `room`, which is created when it does not exist yet.
    fn attach_member(&mut self, room: &String, id: &String)
        ensures
            final(self)@.sessions == old(self)@.sessions,
            final(self)@.rooms == attach(old(self)@.rooms, room@, id@),
    {
        match self.find_room(room) {
            Some(r) => {
                let known = position_of(&self.rooms[r].members, id);
                proof {
                    texts(self.rooms[r as int].members@).index_of_first_ensures(id@);
                }
                if known.is_none() {
                    let mut entry = self.rooms.remove(r);
                    entry.members.push(id.clone());
                    self.rooms.insert(r, entry);
                    proof {
                        let before = old(self)@.rooms;
                        assert(entry@.members =~= before[r as int].members.push(id@));
                        assert(self@.rooms =~= attach(before, room@, id@));
                    }
                }
            },
            None => {
                let mut members: Vec<String> = Vec::new();
                members.push(id.clone());
                let entry = Room { name: room.clone(), members };
                proof {
                    assert(entry@.members =~= seq![id@]);
                }
                self.rooms.push(entry);
                proof {
                    assert(self@.rooms =~= attach(old(self)@.rooms, room@, id@));
                }
            },
        }
    }

    /// Takes `id` out of `room`; the room goes with its last member unless
    /// it is the default room.
    fn detach_member(&mut self, room: &String, id: &String)
        ensures
            final(self)@.sessions == old(self)@.sessions,
            final(self)@.rooms == detach(old(self)@.rooms, room@, id@),
    {
        match self.find_room(room) {
            Some(r) => {
                let mut entry = self.rooms.remove(r);
                let ghost before = entry@.members;
                match position_of(&entry.members, id) {
                    Some(m) => {
                        entry.members.remove(m);
                        proof {
                            assert(entry@.members =~= before.remove(m as int));
                        }
                    },
                    None => {},
                }
                proof {
                    assert(entry@.members == before.remove_value(id@));
                }
                let lobby = String::from_str(DEFAULT_ROOM);
                if entry.members.len() == 0 && !(*room == lobby) {
                    proof {
                        assert(self@.rooms =~= detach(old(self)@.rooms, room@, id@));
                    }
                } else {
                    self.rooms.insert(r, entry);
                    proof {
                        assert(self@.rooms =~= detach(old(self)@.rooms, room@, id@));
                    }
                }
            },
            None => {},
        }
    }

    /// Number of live sessions.
    pub fn session_count(&self) -> (n: usize)
        ensures
            n == self@.sessions.len(),
    {
        self.sessions.len()
    }

    /// Number of rooms.
    pub fn room_count(&self) -> (n: usize)
        ensures
            n == self@.rooms.len(),
    {
        self.rooms.len()
    }

    /// The session with this id, if the registry holds one.
    pub fn lookup(&self, id: &str) -> (found: Option<&UserSession>)
        ensures
            match found {
                Some(s) => self@.session(id@) == Some(s@),
                None => self@.session(id@) is None,
            },
    {
        let key = String::from_str(id);
        match self.find_session(&key) {
            Some(i) => Some(&self.sessions[i]),
            None => None,
        }
    }

    /// The members of a room in joining order; empty for a room that does
    /// not exist.
    pub fn room_members(&self, room: &str) -> (members: Vec<String>)
        ensures
            texts(members@) == self@.members(room@),
    {
        let key = String::from_str(room);
        match self.find_room(&key) {
            Some(r) => clone_texts(&self.rooms[r].members),
            None => {
                let none: Vec<String> = Vec::new();
                proof {
                    assert(texts(none@) =~= Seq::empty());
                }
                none
            },
        }
    }

    /// Registers a new session and makes it a member of the room it names,
    /// creating the room when needed. Returns whether the session was
    /// added: an id that is already registered is refused.
    pub fn register(&mut self, session: UserSession) -> (added: bool)
        ensures
            added == (old(self)@.session(session.id@) is None),
            final(self)@ == old(self)@.register(session@),
            old(self)@.wf() ==> final(self)@.wf(),
    {
        proof {
            if self@.wf() {
                lemma_register_wf(self@, session@);
            }
        }
        match self.find_session(&session.id) {
            Some(_) => false,
            None => {
                let room = session.room.clone();
                let id = session.id.clone();
                self.sessions.push(session);
                proof {
                    assert(self@.sessions =~= old(self)@.sessions.push(session@));
                }
                self.attach_member(&room, &id);
                true
            },
        }
    }

    /// Removes a session from the registry and from its room, and the room
    /// too if that leaves it empty and it is not the default room. Returns
    /// the removed session, or `None` for an id that is not registered.
    pub fn remove(&mut self, id: &str) -> (removed: Option<UserSession>)
        ensures
            match removed {
                Some(s) => old(self)@.session(id@) == Some(s@),
                None => old(self)@.session(id@) is None,
            },
            final(self)@ == old(self)@.remove(id@),
            old(self)@.wf() ==> final(self)@.wf(),
    {
        proof {
            if self@.wf() {
                lemma_remove_wf(self@, id@);
            }
        }
        let key = String::from_str(id);
        match self.find_session(&key) {
            Some(i) => {
                let session = self.sessions.remove(i);
                proof {
                    assert(self@.sessions =~= old(self)@.sessions.remove(i as int));
                }
                self.detach_member(&session.room, &key);
                Some(session)
            },
            None => None,
        }
    }

    /// Moves a session to another room: out of the old room, which goes
    /// with its last member unless it is the default room, and into the new
    /// one, which is created when needed. Returns whether the session
    /// moved: an unknown id, or a move to the room it is in, changes
    /// nothing.
    pub fn move_room(&mut self, id: &str, room: &str) -> (moved: bool)
        ensures
            moved == match old(self)@.session(id@) {
                Some(s) => s.room != room@,
                None => false,
            },
            final(self)@ == old(self)@.move_room(id@, room@),
            old(self)@.wf() ==> final(self)@.wf(),
    {
        proof {
            if self@.wf() {
                lemma_move_wf(self@, id@, room@);
            }
        }
        let key = String::from_str(id);
        let target = String::from_str(room);
        match self.find_session(&key) {
            Some(i) => {
                if self.sessions[i].room == target {
                    false
                } else {
                    let mut session = self.sessions.remove(i);
                    let from = session.room;
                    session.room = target.clone();
                    self.sessions.insert(i, session);
                    proof {
                        let before = old(self)@.sessions;
                        assert(self@.sessions =~= before.update(
                            i as int,
                            SessionView { room: room@, ..before[i as int] },
                        ));
                    }
                    self.detach_member(&from, &key);
                    self.attach_member(&target, &key);
                    true
                }
            },
            None => false,
        }
    }

    /// Gives the session `id` the name `name`. An unknown id changes
    /// nothing.
    pub fn set_username(&mut self, id: &str, name: &str)
        ensures
            final(self)@ == old(self)@.rename(id@, name@),
            old(self)@.wf() ==> final(self)@.wf(),
    {
        proof {
            if self@.wf() {
                lemma_rename_wf(self@, id@, name@);
            }
        }
        let key = String::from_str(id);
        match self.find_session(&key) {
            Some(i) => {
                let mut session = self.sessions.remove(i);
                session.username = String::from_str(name);
                self.sessions.insert(i, session);
                proof {
                    let before = old(self)@.sessions;
                    assert(self@.sessions =~= before.update(
                        i as int,
                        SessionView { username: name@, ..before[i as int] },
                    ));
                    assert(self@.rooms == old(self)@.rooms);
                }
            },
            None => {},
        }
    }

    /// Records traffic from the session `id` at time `now`. The last
    /// heartbeat never moves backwards; an unknown id changes nothing.
    pub fn touch(&mut self, id: &str, now: u64)
        ensures
            final(self)@ == old(self)@.touch(id@, now),
            old(self)@.wf() ==> final(self)@.wf(),
    {
        proof {
            if self@.wf() {
                lemma_touch_wf(self@, id@, now);
            }
        }
        let key = String::from_str(id);
        match self.find_session(&key) {
            Some(i) => {
                let mut session = self.sessions.remove(i);
                if now > session.last_heartbeat {
                    session.last_heartbeat = now;
                }
                self.sessions.insert(i, session);
                proof {
                    let before = old(self)@.sessions;
                    assert(self@.sessions =~= before.update(
                        i as int,
                        SessionView {
                            last_heartbeat: if now > before[i as int].last_heartbeat {
                                now
                            } else {
                                before[i as int].last_heartbeat
                            },
                            ..before[i as int]
                        },
                    ));
                    assert(self@.rooms == old(self)@.rooms);
                }
            },
            None => {},
        }
    }
}

} // verus!
