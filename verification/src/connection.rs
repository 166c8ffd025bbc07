use vstd::prelude::*;
use crate::delivery::{Outbound, Planned, lemma_realizes_concat, outbound_views, push_all, realizes, unicast};
use crate::handlers::{
    Frame, FrameView, disconnect_plan, dispatch, handle_disconnect_at, handle_message_at,
};
use crate::invariants::{lemma_remove_twice, lemma_remove_wf};
use crate::laws::lemma_dispatch_wf;
use crate::liveness::{LivenessPolicy, Verdict, liveness_probe, liveness_tick_at, silence};
use crate::registry::{AppState, StateView};
use crate::stamp::{Moment, read_clock};

verus! {

/// What a connection's task wakes up for.
#[derive(Debug)]
pub enum Event {
    /// A frame has arrived.
    Frame(Frame),
    /// The liveness interval has elapsed.
    Tick,
    /// The transport reports an error.
    Broken,
    /// The peer's stream has ended.
    Ended,
    /// A write to the connection's own socket has failed.
    WriteFailed,
}

/// The mathematical value of an [`Event`].
pub enum EventView {
    Frame(FrameView),
    Tick,
    Broken,
    Ended,
    WriteFailed,
}

impl View for Event {
    type V = EventView;

    open spec fn view(&self) -> EventView {
        match self {
            Event::Frame(f) => EventView::Frame(f@),
            Event::Tick => EventView::Tick,
            Event::Broken => EventView::Broken,
            Event::Ended => EventView::Ended,
            Event::WriteFailed => EventView::WriteFailed,
        }
    }
}

/// What the task does after one event.
#[derive(Debug)]
pub struct Round {
    /// Whether the task waits for the next event. If not, the session has
    /// been torn down and the task ends.
    pub proceed: bool,
    /// Whether the frame's keepalive is to be answered.
    pub pong: bool,
    pub deliveries: Vec<Outbound>,
}

/// One round of a connection's task as the protocol prescribes it.
pub struct RoundPlan {
    pub state: StateView,
    pub plan: Seq<Planned>,
    pub proceed: bool,
    pub pong: bool,
}

/// What an event asks for by itself: a frame is dispatched; a tick ends
/// the task of a session that is gone or has been silent for longer than
/// the timeout, and probes every other; an error, the end of the stream
/// and a failed write end the task.
pub open spec fn event_step(s: StateView, event: EventView, id: Seq<char>, now: Moment, timeout: u64) -> RoundPlan {
    match event {
        EventView::Frame(f) => {
            let step = dispatch(s, f, id, now);
            RoundPlan { state: step.state, plan: step.plan, proceed: step.keep_open, pong: step.pong }
        },
        EventView::Tick => match s.session(id) {
            Some(x) => if silence(x, now.seconds) > timeout {
                RoundPlan { state: s, plan: Seq::empty(), proceed: false, pong: false }
            } else {
                RoundPlan {
                    state: s,
                    plan: unicast(s, id, liveness_probe(now.seconds), true),
                    proceed: true,
                    pong: false,
                }
            },
            None => RoundPlan { state: s, plan: Seq::empty(), proceed: false, pong: false },
        },
        _ => RoundPlan { state: s, plan: Seq::empty(), proceed: false, pong: false },
    }
}

/// One round of the task of the connection `id`: what the event asks for,
/// and, where that ends the task, the teardown of the session.
pub open spec fn round(s: StateView, event: EventView, id: Seq<char>, now: Moment, timeout: u64) -> RoundPlan {
    let step = event_step(s, event, id, now, timeout);
    if step.proceed {
        step
    } else {
        RoundPlan {
            state: step.state.remove(id),
            plan: step.plan + disconnect_plan(step.state, id, now.seconds),
            proceed: false,
            pong: step.pong,
        }
    }
}

/// The outcome is the round that the protocol prescribes.
pub open spec fn plays(before: StateView, after: StateView, outcome: Round, plan: RoundPlan) -> bool {
    &&& after == plan.state
    &&& realizes(outbound_views(outcome.deliveries@), plan.plan)
    &&& outcome.proceed == plan.proceed
    &&& outcome.pong == plan.pong
    &&& before.wf() ==> after.wf()
}

/// Every round keeps registry and room index consistent.
pub proof fn lemma_round_wf(s: StateView, event: EventView, id: Seq<char>, now: Moment, timeout: u64)
    requires
        s.wf(),
    ensures
        round(s, event, id, now, timeout).state.wf(),
{
    let step = event_step(s, event, id, now, timeout);
    match event {
        EventView::Frame(f) => {
            lemma_dispatch_wf(s, f, id, now);
        },
        _ => {},
    }
    lemma_remove_wf(step.state, id);
}

/// A round that ends the task leaves no session behind, and a second such
/// round changes nothing and delivers nothing: the teardown takes effect
/// once.
pub proof fn lemma_teardown_once(s: StateView, event: EventView, id: Seq<char>, now: Moment, later: Moment, timeout: u64)
    requires
        s.wf(),
        !round(s, event, id, now, timeout).proceed,
    ensures
        round(s, event, id, now, timeout).state.session(id) is None,
        round(round(s, event, id, now, timeout).state, EventView::Tick, id, later, timeout).state
            == round(s, event, id, now, timeout).state,
        round(round(s, event, id, now, timeout).state, EventView::Tick, id, later, timeout).plan
            == Seq::<Planned>::empty(),
        !round(round(s, event, id, now, timeout).state, EventView::Tick, id, later, timeout).proceed,
{
    let step = event_step(s, event, id, now, timeout);
    match event {
        EventView::Frame(f) => {
            lemma_dispatch_wf(s, f, id, now);
        },
        _ => {},
    }
    lemma_remove_twice(step.state, id);
    let t = step.state.remove(id);
    assert(event_step(t, EventView::Tick, id, later, timeout).plan + disconnect_plan(t, id, later.seconds)
        =~= Seq::<Planned>::empty());
}

/// Plays one round of the task of the connection `user_id` at the time
/// `now`.
pub fn on_event_at(event: Event, user_id: &str, app_state: &mut AppState, now: Moment, policy: &LivenessPolicy) -> (outcome: Round)
    ensures
        plays(
            old(app_state)@,
            final(app_state)@,
            outcome,
            round(old(app_state)@, event@, user_id@, now, policy.timeout),
        ),
{
    let ghost step = event_step(app_state@, event@, user_id@, now, policy.timeout);
    let (proceed, pong, mut out) = match event {
        Event::Frame(frame) => {
            let reaction = handle_message_at(frame, user_id, app_state, now);
            (reaction.keep_open, reaction.pong, reaction.deliveries)
        },
        Event::Tick => match liveness_tick_at(user_id, app_state, now.seconds, policy) {
            Verdict::Probe(probe) => {
                let mut out: Vec<Outbound> = Vec::new();
                out.push(probe);
                proof {
                    assert(outbound_views(out@) =~= seq![probe@]);
                }
                (true, false, out)
            },
            _ => (false, false, Vec::new()),
        },
        _ => (false, false, Vec::new()),
    };
    if !proceed {
        let ghost sent = outbound_views(out@);
        let more = handle_disconnect_at(user_id, app_state, now.seconds);
        push_all(&mut out, more);
        proof {
            lemma_realizes_concat(
                sent,
                step.plan,
                outbound_views(more@),
                disconnect_plan(step.state, user_id@, now.seconds),
            );
        }
    }
    Round { proceed, pong, deliveries: out }
}

/// Plays one round of the task of the connection `user_id` at the current
/// time.
pub fn on_event(event: Event, user_id: &str, app_state: &mut AppState, policy: &LivenessPolicy) -> (outcome: Round)
    ensures
        exists|now: Moment|
            plays(
                old(app_state)@,
                final(app_state)@,
                outcome,
                #[trigger] round(old(app_state)@, event@, user_id@, now, policy.timeout),
            ),
{
    let now = read_clock();
    on_event_at(event, user_id, app_state, now, policy)
}

} // verus!
