use chat_relay::delivery::{server_envelope, stamped};
use chat_relay::commands::room_lines;
use chat_relay::handlers::{
    announce, broadcast_message_to_room, classify, find_user_by_name, handle_command,
    handle_command_at, handle_message_at, join_room_at, notify, roster_lines,
    send_message_to_user, send_user_list, send_user_list_at, Frame, MessageKind,
};
use chat_relay::liveness::{connect_at, stale_sessions, LivenessPolicy};
use chat_relay::models::{ChatMessage, UserSession, DEFAULT_ROOM, SERVER_NAME, UNNAMED};
use chat_relay::registry::{position_of, AppState};
use chat_relay::stamp::{moment_of, read_clock, Moment};
use chat_relay::text::{decimal, first_token, is_whitespace, join, leading_chars, signed_decimal};
use chat_relay::utils::{
    calculate_latency, format_timestamp, generate_message_key, is_mobile_device, latency_of,
    mobile_of,
    should_cleanup_displayed_messages, should_cleanup_messages,
};

fn at(seconds: u64) -> Moment {
    Moment { seconds, micros: 5 }
}

fn session(id: &str, name: &str, room: &str, addr: &str) -> UserSession {
    UserSession {
        id: id.to_string(),
        username: name.to_string(),
        room: room.to_string(),
        addr: addr.to_string(),
        last_heartbeat: 100,
        join_time: 100,
    }
}

fn populated() -> AppState {
    let mut state = AppState::new();
    assert!(state.register(session("a", "Alice", "大厅", "10.0.0.1")));
    assert!(state.register(session("b", "Bob", "大厅", "10.0.0.2")));
    assert!(state.register(session("c", "Carol", "games", "10.0.0.3")));
    state
}

#[test]
fn registry_register_lookup_remove() {
    let mut state = populated();
    assert_eq!(state.session_count(), 3);
    assert_eq!(state.room_count(), 2);
    assert_eq!(state.lookup("c").unwrap().username, "Carol");
    assert!(state.lookup("z").is_none());
    assert!(!state.register(session("a", "Other", "games", "10.0.0.9")));
    assert_eq!(state.lookup("a").unwrap().username, "Alice");
    assert_eq!(state.room_members("games"), vec!["c".to_string()]);

    let removed = state.remove("c").unwrap();
    assert_eq!(removed.username, "Carol");
    assert_eq!(state.room_count(), 1);
    assert!(state.room_members("games").is_empty());
    assert!(state.remove("c").is_none());
}

#[test]
fn registry_move_room() {
    let mut state = populated();
    assert!(!state.move_room("a", "大厅"));
    assert!(!state.move_room("z", "games"));
    assert!(state.move_room("a", "games"));
    assert_eq!(state.lookup("a").unwrap().room, "games");
    assert_eq!(state.room_members("games"), vec!["c".to_string(), "a".to_string()]);
    assert_eq!(state.room_members("大厅"), vec!["b".to_string()]);
    assert!(state.move_room("c", "大厅"));
    assert!(state.move_room("a", "大厅"));
    assert_eq!(state.room_count(), 1);
    assert_eq!(state.room_members("大厅"), vec!["b".to_string(), "c".to_string(), "a".to_string()]);
}

#[test]
fn registry_set_username_and_touch() {
    let mut state = populated();
    state.set_username("a", "Ada");
    assert_eq!(state.lookup("a").unwrap().username, "Ada");
    state.touch("a", 150);
    assert_eq!(state.lookup("a").unwrap().last_heartbeat, 150);
    state.touch("a", 120);
    assert_eq!(state.lookup("a").unwrap().last_heartbeat, 150);
    state.touch("z", 999);
    state.set_username("z", "Zed");
    assert_eq!(state.session_count(), 3);
}

#[test]
fn position_of_finds_first_occurrence() {
    let v = vec!["x".to_string(), "y".to_string(), "x".to_string()];
    assert_eq!(position_of(&v, &"x".to_string()), Some(0));
    assert_eq!(position_of(&v, &"y".to_string()), Some(1));
    assert_eq!(position_of(&v, &"z".to_string()), None);
}

#[test]
fn find_user_by_name_takes_first_match() {
    let mut state = populated();
    assert!(state.register(session("d", "Bob", "大厅", "10.0.0.4")));
    assert_eq!(find_user_by_name("Bob", &state), Some("b".to_string()));
    assert_eq!(find_user_by_name("Carol", &state), Some("c".to_string()));
    assert_eq!(find_user_by_name("Nobody", &state), None);
}

#[test]
fn broadcast_addresses_members_in_joining_order() {
    let state = populated();
    let message = stamped("system", "大厅", "hello".to_string(), 9, "id-1".to_string());
    let out = broadcast_message_to_room(&message, "大厅", &state);
    assert_eq!(out.len(), 1);
    assert_eq!(out[0].recipients, ["a", "b"]);
    assert_eq!(out[0].message.id, "id-1");
    assert_eq!(out[0].message.text, "hello");
    assert_eq!(out[0].message.username, "服务器");
    assert!(broadcast_message_to_room(&message, "nowhere", &state).is_empty());
    assert!(broadcast_message_to_room(&message, "大厅", &AppState::new()).is_empty());
}

#[test]
fn unicast_addresses_registered_id_only() {
    let state = populated();
    let message = server_envelope("system", "", "hello".to_string(), 9);
    assert_eq!(message.id.len(), 36);
    let out = send_message_to_user(&message, "c", &state);
    assert_eq!(out.len(), 1);
    assert_eq!(out[0].recipients, ["c"]);
    assert_eq!(out[0].message.id, message.id);
    assert!(send_message_to_user(&message, "z", &state).is_empty());
}

#[test]
fn user_list_renders_name_and_address() {
    let state = populated();
    let out = send_user_list_at(&state, "大厅", 77);
    assert_eq!(out.len(), 1);
    assert_eq!(out[0].recipients, ["a", "b"]);
    assert_eq!(out[0].message.msg_type, "userlist");
    assert_eq!(out[0].message.room, "大厅");
    assert_eq!(out[0].message.text, "Alice:10.0.0.1,Bob:10.0.0.2");
    assert_eq!(out[0].message.timestamp, 77);
    assert!(send_user_list_at(&state, "nowhere", 77).is_empty());
    let now = send_user_list(&state, "games");
    assert_eq!(now.len(), 1);
    assert_eq!(now[0].message.text, "Carol:10.0.0.3");
}

#[test]
fn roster_skips_ids_without_session() {
    let state = populated();
    let ids = vec!["b".to_string(), "z".to_string(), "c".to_string()];
    assert_eq!(roster_lines(&state, &ids, " (", ")"), ["Bob (10.0.0.2)", "Carol (10.0.0.3)"]);
}

#[test]
fn command_help() {
    let state = populated();
    let outcome = handle_command_at("/help".to_string(), "a", &state, at(1));
    assert_eq!(
        outcome.reply,
        "可用命令:\n/help - 显示帮助\n/rooms - 显示所有房间\n/join <房间名> - 加入指定房间\n/users - 显示当前房间用户\n/msg <用户名> <消息> - 发送私聊消息\n/ping - 测试网络连接\n/stats - 显示网络统计信息"
    );
    assert!(outcome.deliveries.is_empty());
}

#[test]
fn command_rooms() {
    let state = populated();
    let outcome = handle_command_at("/rooms".to_string(), "a", &state, at(1));
    assert_eq!(outcome.reply, "可用房间: \n大厅 (2 人在线)\ngames (1 人在线)");
    assert_eq!(room_lines(&AppState::new()), ["大厅 (0 人在线)"]);
}

#[test]
fn command_users() {
    let state = populated();
    let outcome = handle_command_at("/users".to_string(), "b", &state, at(1));
    assert_eq!(outcome.reply, "当前房间有 2 名用户:\nAlice (10.0.0.1)\nBob (10.0.0.2)");
    let stranger = handle_command_at("/users".to_string(), "z", &state, at(1));
    assert_eq!(stranger.reply, "当前房间有 0 名用户:\n");
}

#[test]
fn command_stats() {
    let state = populated();
    let outcome = handle_command_at("/stats".to_string(), "a", &state, at(1));
    assert_eq!(outcome.reply, "网络统计信息:\n总连接数: 3\n总房间数: 2");
}

#[test]
fn command_ping_sends_probe() {
    let state = populated();
    let outcome = handle_command_at("/ping".to_string(), "a", &state, Moment { seconds: 12, micros: -7 });
    assert_eq!(outcome.reply, "");
    assert_eq!(outcome.deliveries.len(), 1);
    assert_eq!(outcome.deliveries[0].recipients, ["a"]);
    assert_eq!(outcome.deliveries[0].message.msg_type, "ping");
    assert_eq!(outcome.deliveries[0].message.text, "-7");
    assert_eq!(outcome.deliveries[0].message.timestamp, 12);
    let stranger = handle_command_at("/ping".to_string(), "z", &state, at(1));
    assert!(stranger.deliveries.is_empty());
}

#[test]
fn command_unknown_and_without_a_word() {
    let state = populated();
    let unknown = handle_command_at("/dance now".to_string(), "a", &state, at(1));
    assert_eq!(unknown.reply, "未知命令: /dance now");
    let msg = handle_command_at("/msg Bob hi".to_string(), "a", &state, at(1));
    assert_eq!(msg.reply, "未知命令: /msg Bob hi");
    let blank = handle_command_at("  \t ".to_string(), "a", &state, at(1));
    assert_eq!(blank.reply, "未知命令:   \t ");
    assert!(blank.deliveries.is_empty());
    let none = handle_command_at(String::new(), "a", &state, at(1));
    assert_eq!(none.reply, "未知命令: ");
    assert!(none.deliveries.is_empty());
}

#[test]
fn command_is_selected_by_first_word() {
    let state = populated();
    let outcome = handle_command_at("   /stats   please".to_string(), "a", &state, at(1));
    assert_eq!(outcome.reply, "网络统计信息:\n总连接数: 3\n总房间数: 2");
    let glued = handle_command_at("/statsplease".to_string(), "a", &state, at(1));
    assert_eq!(glued.reply, "未知命令: /statsplease");
    let now = handle_command("/help me".to_string(), "a", &state);
    assert!(now.reply.starts_with("可用命令:"));
}

#[test]
fn stale_sessions_match_address_and_silence() {
    let mut state = AppState::new();
    let policy = LivenessPolicy::standard();
    connect_at("a", "10.0.0.1", "h", &mut state, 100, &policy);
    connect_at("b", "10.0.0.2", "h", &mut state, 100, &policy);
    connect_at("c", "10.0.0.1", "h", &mut state, 130, &policy);
    assert_eq!(stale_sessions(&state, "10.0.0.1", 160, 60), Vec::<String>::new());
    assert_eq!(stale_sessions(&state, "10.0.0.1", 161, 60), ["a"]);
    assert_eq!(stale_sessions(&state, "10.0.0.1", 191, 60), ["a", "c"]);
    assert_eq!(stale_sessions(&state, "10.0.0.2", 161, 60), ["b"]);
    assert_eq!(stale_sessions(&state, "10.0.0.1", 50, 60), Vec::<String>::new());
}

#[test]
fn standard_policy_values() {
    let policy = LivenessPolicy::standard();
    assert_eq!(policy.interval, 30);
    assert_eq!(policy.timeout, 90);
    assert_eq!(policy.stale_after, 60);
}

#[test]
fn envelope_clone_keeps_every_field() {
    let m = ChatMessage {
        msg_type: "private".to_string(),
        username: "Alice".to_string(),
        room: "r".to_string(),
        text: "t".to_string(),
        timestamp: 3,
        id: "i".to_string(),
        target: Some("Bob".to_string()),
    };
    let c = m.clone();
    assert_eq!(c.msg_type, "private");
    assert_eq!(c.username, "Alice");
    assert_eq!(c.room, "r");
    assert_eq!(c.text, "t");
    assert_eq!(c.timestamp, 3);
    assert_eq!(c.id, "i");
    assert_eq!(c.target, Some("Bob".to_string()));
}

#[test]
fn decimal_notation() {
    assert_eq!(decimal(0), "0");
    assert_eq!(decimal(7), "7");
    assert_eq!(decimal(10), "10");
    assert_eq!(decimal(1234567890), "1234567890");
    assert_eq!(decimal(u64::MAX), "18446744073709551615");
    assert_eq!(signed_decimal(0), "0");
    assert_eq!(signed_decimal(-1), "-1");
    assert_eq!(signed_decimal(i64::MIN), "-9223372036854775808");
    assert_eq!(signed_decimal(i64::MAX), "9223372036854775807");
}

#[test]
fn join_and_words() {
    assert_eq!(join(&vec![], ","), "");
    assert_eq!(join(&vec!["a".to_string()], ","), "a");
    assert_eq!(join(&vec!["a".to_string(), "".to_string(), "c".to_string()], ", "), "a, , c");
    assert_eq!(first_token("  /help  me"), "/help");
    assert_eq!(first_token("/rooms"), "/rooms");
    assert_eq!(first_token("\u{3000}大厅\u{2003}x"), "大厅");
    assert_eq!(first_token("   "), "");
    assert_eq!(first_token(""), "");
    assert_eq!(leading_chars("héllo wörld", 4), "héll");
    assert_eq!(leading_chars("ab", 20), "ab");
    assert_eq!(leading_chars("ab", 0), "");
}

#[test]
fn whitespace_agrees_with_the_standard_library() {
    for n in 0u32..=0x10FFFF {
        if let Some(c) = char::from_u32(n) {
            assert_eq!(is_whitespace(c), c.is_whitespace(), "U+{:04X}", n);
        }
    }
}

#[test]
fn words_and_numbers_agree_with_the_standard_library() {
    let texts = [
        "",
        " ",
        "/help",
        "  /rooms now",
        "\t/users\n",
        "a\u{a0}b",
        "\u{2003}\u{3000}x y",
        "no-space",
        "/join 大厅 x",
        "\r\n/stats\r\n",
    ];
    for text in texts {
        assert_eq!(first_token(text), text.split_whitespace().next().unwrap_or(""), "{:?}", text);
    }
    let mut n: u64 = 1;
    for _ in 0..64 {
        assert_eq!(decimal(n), n.to_string());
        assert_eq!(decimal(n - 1), (n - 1).to_string());
        assert_eq!(signed_decimal(-((n >> 1) as i64)), (-((n >> 1) as i64)).to_string());
        n = n.wrapping_mul(2);
    }
    for k in 0u64..2000 {
        assert_eq!(decimal(k), k.to_string());
    }
    let parts = vec!["x".to_string(), "yy".to_string(), "".to_string(), "z".to_string()];
    for k in 0..=parts.len() {
        assert_eq!(join(&parts[..k].to_vec(), "--"), parts[..k].join("--"));
    }
}

#[test]
fn message_key_takes_twenty_characters_of_text() {
    assert_eq!(generate_message_key("Alice", "hi", 42), "Alice:hi:42");
    assert_eq!(
        generate_message_key("Bob", "abcdefghijklmnopqrstuvwxyz", 1700000000),
        "Bob:abcdefghijklmnopqrst:1700000000"
    );
    assert_eq!(generate_message_key("", "", 0), "::0");
    assert_eq!(
        generate_message_key("名", "一二三四五六七八九十一二三四五六七八九十多", 1),
        "名:一二三四五六七八九十一二三四五六七八九十:1"
    );
}

#[test]
fn cleanup_thresholds() {
    assert!(!should_cleanup_messages(0));
    assert!(!should_cleanup_messages(200));
    assert!(should_cleanup_messages(201));
    assert!(!should_cleanup_displayed_messages(100));
    assert!(should_cleanup_displayed_messages(101));
}

#[test]
fn latency_is_in_milliseconds() {
    assert_eq!(latency_of(0), 0);
    assert_eq!(latency_of(1500), 1500);
    assert_eq!(latency_of((1u128 << 64) + 5), 5);
    let start = std::time::Instant::now() - std::time::Duration::from_millis(250);
    let latency = calculate_latency(start);
    assert!(latency >= 250 && latency < 60_000);
}

#[test]
fn timestamp_is_shown_as_hours_and_minutes() {
    assert_eq!(format_timestamp(0), "00:00");
    assert_eq!(format_timestamp(3661), "01:01");
    assert_eq!(format_timestamp(1431648000 + 23 * 3600 + 59 * 60 + 59), "23:59");
    assert_eq!(format_timestamp(86399), "23:59");
    assert_eq!(format_timestamp(86400), "00:00");
    assert_eq!(format_timestamp(1700000000), "22:13");
    assert_eq!(format_timestamp(253402300799), "23:59");
    assert_eq!(format_timestamp(u64::MAX), "23:59");
    assert_eq!(format_timestamp(u64::MAX - 3600 * 5 - 60 * 7), "18:52");
    let far = format_timestamp(i64::MAX as u64);
    assert_eq!(far.len(), 5);
}

#[test]
fn mobile_devices_are_recognized() {
    assert!(is_mobile_device("Mozilla/5.0 (iPhone; CPU iPhone OS 16_0 like Mac OS X)"));
    assert!(is_mobile_device("Mozilla/5.0 (Linux; ANDROID 13)"));
    assert!(is_mobile_device("Opera Mini/7.1"));
    assert!(!is_mobile_device("Mozilla/5.0 (Windows NT 10.0; Win64; x64)"));
    assert!(!is_mobile_device(""));
    assert!(mobile_of(Some(true)));
    assert!(!mobile_of(Some(false)));
    assert!(!mobile_of(None));
}

#[test]
fn timestamp_outside_the_calendar_is_shown_as_a_time_of_day() {
    let text = format_timestamp(i64::MAX as u64);
    let parts: Vec<&str> = text.split(':').collect();
    assert_eq!(parts.len(), 2);
    assert_eq!(parts[0].len(), 2);
    assert_eq!(parts[1].len(), 2);
    let hour: u32 = parts[0].parse().unwrap();
    let minute: u32 = parts[1].parse().unwrap();
    assert!(hour < 24);
    assert!(minute < 60);
}

#[test]
fn command_envelope_without_a_word_is_answered_as_unknown() {
    let mut state = populated();
    let m = ChatMessage {
        msg_type: "command".to_string(),
        username: "Alice".to_string(),
        room: String::new(),
        text: " ".to_string(),
        timestamp: 0,
        id: String::new(),
        target: None,
    };
    let reaction = handle_message_at(Frame::Envelope(m), "a", &mut state, at(300));
    assert!(reaction.keep_open);
    assert_eq!(reaction.deliveries.len(), 1);
    assert_eq!(reaction.deliveries[0].recipients, ["a"]);
    assert_eq!(reaction.deliveries[0].message.msg_type, "system");
    assert_eq!(reaction.deliveries[0].message.text, "未知命令:  ");
}

#[test]
fn clock_reading() {
    let m = moment_of(-1, -5);
    assert_eq!(m.seconds, u64::MAX);
    assert_eq!(m.micros, -5);
    let a = moment_of(1700000000, 1700000000123456);
    assert_eq!(a.seconds, 1700000000);
    let now = read_clock();
    assert!(now.seconds > 1_600_000_000);
    assert_eq!((now.micros / 1_000_000) as u64 / 10, now.seconds / 10);
}

#[test]
fn join_envelope_runs_room_switch() {
    let mut state = populated();
    let m = ChatMessage {
        msg_type: "join".to_string(),
        username: "Alice".to_string(),
        room: "games".to_string(),
        text: String::new(),
        timestamp: 0,
        id: String::new(),
        target: None,
    };
    let reaction = handle_message_at(Frame::Envelope(m), "a", &mut state, at(200));
    assert_eq!(reaction.deliveries.len(), 4);
    assert_eq!(state.lookup("a").unwrap().room, "games");
    let again = join_room_at("a", "games", &mut state, 201);
    assert_eq!(again.len(), 1);
    assert_eq!(again[0].message.text, "您已经在房间 games 中");
}

#[test]
fn type_tags_are_classified() {
    assert_eq!(classify("chat"), MessageKind::Chat);
    assert_eq!(classify("private"), MessageKind::Private);
    assert_eq!(classify("ping"), MessageKind::Ping);
    assert_eq!(classify("pong"), MessageKind::Pong);
    assert_eq!(classify("join"), MessageKind::Join);
    assert_eq!(classify("command"), MessageKind::Command);
    assert_eq!(classify("system"), MessageKind::Unrecognized);
    assert_eq!(classify("userlist"), MessageKind::Unrecognized);
    assert_eq!(classify("Chat"), MessageKind::Unrecognized);
    assert_eq!(classify(""), MessageKind::Unrecognized);
}

#[test]
fn announce_and_notify_write_server_messages() {
    let state = populated();
    let all = announce("system", "大厅", "notice".to_string(), 5, &state);
    assert_eq!(all.len(), 1);
    assert_eq!(all[0].recipients, ["a", "b"]);
    assert_eq!(all[0].message.msg_type, "system");
    assert_eq!(all[0].message.username, "服务器");
    assert_eq!(all[0].message.room, "大厅");
    assert_eq!(all[0].message.text, "notice");
    assert_eq!(all[0].message.timestamp, 5);
    assert_eq!(all[0].message.target, None);
    let one = notify("c", "pong", "", "body".to_string(), 6, &state);
    assert_eq!(one.len(), 1);
    assert_eq!(one[0].recipients, ["c"]);
    assert_eq!(one[0].message.msg_type, "pong");
    assert_eq!(one[0].message.text, "body");
    assert_ne!(one[0].message.id, all[0].message.id);
    assert!(notify("z", "pong", "", "body".to_string(), 6, &state).is_empty());
}

#[test]
fn default_names() {
    assert_eq!(DEFAULT_ROOM, "大厅");
    assert_eq!(UNNAMED, "未命名用户");
    assert_eq!(SERVER_NAME, "服务器");
    let state = AppState::new();
    assert_eq!(state.room_count(), 1);
    assert_eq!(state.rooms()[0].name, DEFAULT_ROOM);
    assert!(state.rooms()[0].members.is_empty());
    assert_eq!(state.session_count(), 0);
}
