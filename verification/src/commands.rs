use vstd::prelude::*;
use vstd::string::StringExecFns;
use crate::delivery::{Outbound, Planned, outbound_views, realizes, roster, server_message, unicast};
use crate::handlers::{notify, roster_lines};
use crate::models::{MessageView, RoomView, texts};
use crate::registry::{AppState, StateView, room_views};
use crate::stamp::{Moment, read_clock};
use crate::text::{
    decimal, decimal_text, first_token, first_word, join, joined, signed_decimal,
    signed_decimal_text,
};

verus! {

/// What the command interpreter answers, and what it sends on its own.
#[derive(Debug)]
pub struct CommandOutcome {
    /// The answer for the caller; empty when the command sent its own.
    pub reply: String,
    pub deliveries: Vec<Outbound>,
}

/// The usage text.
pub open spec fn help_text() -> Seq<char> {
    "可用命令:\n/help - 显示帮助\n/rooms - 显示所有房间\n/join <房间名> - 加入指定房间\n/users - 显示当前房间用户\n/msg <用户名> <消息> - 发送私聊消息\n/ping - 测试网络连接\n/stats - 显示网络统计信息"@
}

/// A room's line in the list of rooms: its name and how many are in it.
pub open spec fn room_line(r: RoomView) -> Seq<char> {
    r.name + " ("@ + decimal_text(r.members.len()) + " 人在线)"@
}

/// The ids that share a room with the session `id`; none if `id` is not
/// registered.
pub open spec fn roommates(s: StateView, id: Seq<char>) -> Seq<Seq<char>> {
    match s.session(id) {
        Some(x) => s.members(x.room),
        None => Seq::empty(),
    }
}

/// The interpreter's answer to a command text. The first word selects the
/// command; the answer to `/ping` is empty, for its probe is sent apart.
/// Every other text, one without a word too, is answered as unknown.
pub open spec fn command_reply(s: StateView, id: Seq<char>, command: Seq<char>) -> Seq<char> {
    let word = first_word(command);
    if word == "/help"@ {
        help_text()
    } else if word == "/rooms"@ {
        "可用房间: \n"@ + joined(s.rooms.map_values(|r: RoomView| room_line(r)), "\n"@)
    } else if word == "/users"@ {
        "当前房间有 "@ + decimal_text(roommates(s, id).len()) + " 名用户:\n"@ + joined(
            roster(s, roommates(s, id), " ("@, ")"@),
            "\n"@,
        )
    } else if word == "/ping"@ {
        Seq::empty()
    } else if word == "/stats"@ {
        "网络统计信息:\n总连接数: "@ + decimal_text(s.sessions.len()) + "\n总房间数: "@ + decimal_text(
            s.rooms.len(),
        )
    } else {
        "未知命令: "@ + command
    }
}

/// The probe that `/ping` sends to its caller: the clock's microseconds as
/// its text.
pub open spec fn probe_message(now: Moment) -> MessageView {
    server_message("ping"@, ""@, signed_decimal_text(now.micros as int), now.seconds)
}

/// What a command sends on its own: the probe of `/ping`, and nothing for
/// every other command.
pub open spec fn command_plan(s: StateView, id: Seq<char>, command: Seq<char>, now: Moment) -> Seq<Planned> {
    if first_word(command) == "/ping"@ {
        unicast(s, id, probe_message(now), true)
    } else {
        Seq::empty()
    }
}

/// The lines of the list of rooms.
pub fn room_lines(app_state: &AppState) -> (lines: Vec<String>)
    ensures
        texts(lines@) == app_state@.rooms.map_values(|r: RoomView| room_line(r)),
{
    let rooms = app_state.rooms();
    let mut lines: Vec<String> = Vec::new();
    let mut i: usize = 0;
    while i < rooms.len()
        invariant
            i <= rooms.len(),
            room_views(rooms@) == app_state@.rooms,
            lines.len() == i,
            forall|j: int| 0 <= j < i ==> lines[j]@ == room_line(app_state@.rooms[j]),
        decreases rooms.len() - i,
    {
        proof {
            assert(app_state@.rooms[i as int] == rooms@[i as int]@);
        }
        let mut line = rooms[i].name.clone();
        line.append(" (");
        let count = decimal(rooms[i].members.len() as u64);
        line.append(count.as_str());
        line.append(" 人在线)");
        lines.push(line);
        i += 1;
    }
    proof {
        assert(app_state@.rooms.len() == rooms@.len());
        assert(texts(lines@) =~= app_state@.rooms.map_values(|r: RoomView| room_line(r)));
    }
    lines
}

/// Interprets a command of the session `user_id` at the time `now`.
pub fn handle_command_at(command: String, user_id: &str, app_state: &AppState, now: Moment) -> (outcome: CommandOutcome)
    ensures
        outcome.reply@ == command_reply(app_state@, user_id@, command@),
        realizes(outbound_views(outcome.deliveries@), command_plan(app_state@, user_id@, command@, now)),
{
    let word = String::from_str(first_token(command.as_str()));
    proof {
        reveal_strlit("/help");
        reveal_strlit("/rooms");
        reveal_strlit("/users");
        reveal_strlit("/ping");
        assert("/ping"@.len() == 5);
        assert("/help"@[1] != "/ping"@[1]);
    }
    if word == String::from_str("/help") {
        CommandOutcome {
            reply: String::from_str(
                "可用命令:\n/help - 显示帮助\n/rooms - 显示所有房间\n/join <房间名> - 加入指定房间\n/users - 显示当前房间用户\n/msg <用户名> <消息> - 发送私聊消息\n/ping - 测试网络连接\n/stats - 显示网络统计信息",
            ),
            deliveries: Vec::new(),
        }
    } else if word == String::from_str("/rooms") {
        let lines = room_lines(app_state);
        let list = join(&lines, "\n");
        let mut reply = String::from_str("可用房间: \n");
        reply.append(list.as_str());
        CommandOutcome { reply, deliveries: Vec::new() }
    } else if word == String::from_str("/users") {
        let ids = match app_state.lookup(user_id) {
            Some(session) => app_state.room_members(session.room.as_str()),
            None => {
                let none: Vec<String> = Vec::new();
                proof {
                    assert(texts(none@) =~= Seq::empty());
                }
                none
            },
        };
        let lines = roster_lines(app_state, &ids, " (", ")");
        let list = join(&lines, "\n");
        let count = decimal(ids.len() as u64);
        let mut reply = String::from_str("当前房间有 ");
        reply.append(count.as_str());
        reply.append(" 名用户:\n");
        reply.append(list.as_str());
        CommandOutcome { reply, deliveries: Vec::new() }
    } else if word == String::from_str("/ping") {
        let text = signed_decimal(now.micros);
        let deliveries = notify(user_id, "ping", "", text, now.seconds, app_state);
        CommandOutcome { reply: String::new(), deliveries }
    } else if word == String::from_str("/stats") {
        let sessions = decimal(app_state.session_count() as u64);
        let rooms = decimal(app_state.room_count() as u64);
        let mut reply = String::from_str("网络统计信息:\n总连接数: ");
        reply.append(sessions.as_str());
        reply.append("\n总房间数: ");
        reply.append(rooms.as_str());
        CommandOutcome { reply, deliveries: Vec::new() }
    } else {
        let mut reply = String::from_str("未知命令: ");
        reply.append(command.as_str());
        CommandOutcome { reply, deliveries: Vec::new() }
    }
}

/// Interprets a command of the session `user_id` at the current time.
pub fn handle_command(command: String, user_id: &str, app_state: &AppState) -> (outcome: CommandOutcome)
    ensures
        outcome.reply@ == command_reply(app_state@, user_id@, command@),
        exists|now: Moment|
            realizes(
                outbound_views(outcome.deliveries@),
                #[trigger] command_plan(app_state@, user_id@, command@, now),
            ),
{
    let now = read_clock();
    handle_command_at(command, user_id, app_state, now)
}

} // verus!
