use chat_relay::connection::{on_event, on_event_at, Event};
use chat_relay::handlers::{handle_message_at, Frame};
use chat_relay::liveness::{connect, connect_at, LivenessPolicy};
use chat_relay::models::ChatMessage;
use chat_relay::models::AppState;
use chat_relay::stamp::Moment;

const LOBBY: &str = "大厅";

fn moment(seconds: u64) -> Moment {
    Moment { seconds, micros: (seconds as i64) * 1_000_000 }
}

fn hello(name: &str) -> ChatMessage {
    ChatMessage {
        msg_type: "chat".to_string(),
        username: name.to_string(),
        room: String::new(),
        text: "hello".to_string(),
        timestamp: 0,
        id: "m".to_string(),
        target: None,
    }
}

fn two_named(now: u64) -> AppState {
    let policy = LivenessPolicy::standard();
    let mut state = AppState::new();
    assert!(connect_at("a", "10.0.0.1", "h", &mut state, now, &policy).accepted);
    assert!(connect_at("b", "10.0.0.2", "h", &mut state, now, &policy).accepted);
    handle_message_at(Frame::Envelope(hello("Alice")), "a", &mut state, moment(now));
    handle_message_at(Frame::Envelope(hello("Bob")), "b", &mut state, moment(now));
    state
}

#[test]
fn tick_probes_a_live_session() {
    let policy = LivenessPolicy::standard();
    let mut state = two_named(1000);
    let round = on_event_at(Event::Tick, "a", &mut state, moment(1090), &policy);
    assert!(round.proceed);
    assert!(!round.pong);
    assert_eq!(round.deliveries.len(), 1);
    assert_eq!(round.deliveries[0].recipients, ["a"]);
    assert_eq!(round.deliveries[0].message.msg_type, "ping");
    assert_eq!(round.deliveries[0].message.timestamp, 1090);
    assert!(state.lookup("a").is_some());
    assert_eq!(state.lookup("a").unwrap().last_heartbeat, 1000);
}

#[test]
fn tick_after_the_timeout_tears_the_session_down_once() {
    let policy = LivenessPolicy::standard();
    let mut state = two_named(1000);
    handle_message_at(Frame::Pong, "b", &mut state, moment(1080));

    let round = on_event_at(Event::Tick, "a", &mut state, moment(1091), &policy);
    assert!(!round.proceed);
    assert!(state.lookup("a").is_none());
    assert_eq!(state.room_members(LOBBY), vec!["b".to_string()]);
    assert_eq!(round.deliveries.len(), 2);
    assert_eq!(round.deliveries[0].recipients, ["b"]);
    assert_eq!(round.deliveries[0].message.msg_type, "system");
    assert_eq!(round.deliveries[0].message.text, "Alice 离开了聊天室");
    assert_eq!(round.deliveries[1].message.msg_type, "userlist");
    assert_eq!(round.deliveries[1].message.text, "Bob:10.0.0.2");

    let again = on_event_at(Event::Tick, "a", &mut state, moment(1121), &policy);
    assert!(!again.proceed);
    assert!(again.deliveries.is_empty());
    assert_eq!(state.session_count(), 1);
    assert_eq!(state.room_members(LOBBY), vec!["b".to_string()]);
}

#[test]
fn frame_round_is_the_dispatchers_step() {
    let policy = LivenessPolicy::standard();
    let mut state = two_named(1000);
    let round = on_event_at(Event::Frame(Frame::Envelope(hello("Alice"))), "a", &mut state, moment(1010), &policy);
    assert!(round.proceed);
    assert_eq!(round.deliveries.len(), 1);
    assert_eq!(round.deliveries[0].recipients, ["a", "b"]);
    assert_eq!(round.deliveries[0].message.text, "hello");
    assert_eq!(state.lookup("a").unwrap().last_heartbeat, 1010);

    let ping = on_event_at(Event::Frame(Frame::Ping), "a", &mut state, moment(1011), &policy);
    assert!(ping.proceed);
    assert!(ping.pong);
}

#[test]
fn close_error_end_and_failed_write_tear_the_session_down() {
    let policy = LivenessPolicy::standard();
    let events = vec![Event::Frame(Frame::Close), Event::Broken, Event::Ended, Event::WriteFailed];
    for event in events {
        let mut state = two_named(1000);
        let round = on_event_at(event, "a", &mut state, moment(1001), &policy);
        assert!(!round.proceed);
        assert!(!round.pong);
        assert!(state.lookup("a").is_none());
        assert_eq!(round.deliveries.len(), 2);
        assert_eq!(round.deliveries[0].message.text, "Alice 离开了聊天室");
        assert_eq!(state.session_count(), 1);
    }
}

#[test]
fn envelope_from_a_session_that_is_gone_ends_the_task_quietly() {
    let policy = LivenessPolicy::standard();
    let mut state = two_named(1000);
    let round = on_event_at(Event::Frame(Frame::Envelope(hello("Ghost"))), "ghost", &mut state, moment(1001), &policy);
    assert!(!round.proceed);
    assert!(round.deliveries.is_empty());
    assert_eq!(state.session_count(), 2);
}

#[test]
fn rounds_run_on_the_current_time() {
    let policy = LivenessPolicy::standard();
    let mut state = AppState::new();
    let admission = connect("10.0.0.1", "h", &mut state, &policy);
    let id = admission.id.as_str();
    let tick = on_event(Event::Tick, id, &mut state, &policy);
    assert!(tick.proceed);
    assert_eq!(tick.deliveries.len(), 1);
    assert!(tick.deliveries[0].message.timestamp > 1_600_000_000);
    let end = on_event(Event::Ended, id, &mut state, &policy);
    assert!(!end.proceed);
    assert_eq!(state.session_count(), 0);
}
