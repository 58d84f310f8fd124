//! What holds of a streaming session over a whole run of events.

use crate::ws::{
    closed, next, Action, Event, FrameKind, Outgoing, Phase, SessionError, SessionState,
};
use vstd::prelude::*;

verus! {

/// The state after a run of events, and the actions that the events called
/// for, one for each.
pub open spec fn run(state: SessionState, events: Seq<Event>) -> (SessionState, Seq<Action>)
    decreases events.len(),
{
    if events.len() == 0 {
        (state, Seq::empty())
    } else {
        let before = run(state, events.drop_last());
        let step = next(before.0, events.last());
        (step.0, before.1.push(step.1))
    }
}

/// What happens on a connection that stays quiet for `periods` keepalive
/// periods after the timer was started: the tick that comes at once, and then
/// for each period a tick and the ping going out.
pub open spec fn quiet_events(periods: nat) -> Seq<Event>
    decreases periods,
{
    if periods == 0 {
        seq![Event::Tick]
    } else {
        quiet_events((periods - 1) as nat) + seq![Event::Tick, Event::Sent]
    }
}

/// What a session does on a quiet connection: it waits past the first tick,
/// and then in each period it sends one ping and waits again.
pub open spec fn quiet_actions(periods: nat) -> Seq<Action>
    decreases periods,
{
    if periods == 0 {
        seq![Action::Wait]
    } else {
        quiet_actions((periods - 1) as nat) + seq![Action::Send(Outgoing::Ping), Action::Wait]
    }
}

/// How many of the actions send a ping.
pub open spec fn pings(actions: Seq<Action>) -> nat
    decreases actions.len(),
{
    if actions.len() == 0 {
        0
    } else if actions.last() == Action::Send(Outgoing::Ping) {
        pings(actions.drop_last()) + 1
    } else {
        pings(actions.drop_last())
    }
}

/// A run of one more event is the run so far and then one step.
pub proof fn lemma_run_push(state: SessionState, events: Seq<Event>, event: Event)
    ensures
        run(state, events.push(event)) == ({
            let before = run(state, events);
            let step = next(before.0, event);
            (step.0, before.1.push(step.1))
        }),
{
    assert(events.push(event).drop_last() =~= events);
}

/// A run hands out one action for each event.
pub proof fn lemma_run_len(state: SessionState, events: Seq<Event>)
    ensures
        run(state, events).1.len() == events.len(),
    decreases events.len(),
{
    if events.len() > 0 {
        lemma_run_len(state, events.drop_last());
    }
}

/// Keepalive timing: on a connection without inbound traffic the first tick,
/// which comes as soon as the timer is started, sends nothing, and every tick
/// after it sends exactly one ping. Over any number of periods the session
/// stays up and has sent one ping for each.
pub proof fn lemma_keepalive(periods: nat)
    ensures
        run(SessionState::Running(Phase::Priming), quiet_events(periods)) == (
            SessionState::Running(Phase::Idle),
            quiet_actions(periods),
        ),
        quiet_actions(periods)[0] == Action::Wait,
        pings(quiet_actions(periods)) == periods,
    decreases periods,
{
    let start = SessionState::Running(Phase::Priming);
    if periods == 0 {
        let none = Seq::<Event>::empty();
        lemma_run_push(start, none, Event::Tick);
        assert(none.push(Event::Tick) =~= quiet_events(0));
        assert(run(start, none).1.push(Action::Wait) =~= quiet_actions(0));
        assert(quiet_actions(0).drop_last() =~= Seq::<Action>::empty());
        assert(pings(quiet_actions(0).drop_last()) == 0);
    } else {
        let shorter = (periods - 1) as nat;
        lemma_keepalive(shorter);
        let events = quiet_events(shorter);
        let actions = quiet_actions(shorter);
        lemma_run_push(start, events, Event::Tick);
        lemma_run_push(start, events.push(Event::Tick), Event::Sent);
        assert(events.push(Event::Tick).push(Event::Sent) =~= quiet_events(periods));
        let pinged = actions.push(Action::Send(Outgoing::Ping));
        assert(pinged.push(Action::Wait) =~= quiet_actions(periods));
        assert(quiet_actions(periods).drop_last() =~= pinged);
        assert(pinged.drop_last() =~= actions);
        assert(pings(pinged) == pings(actions) + 1);
        assert(pinged.len() > 0);
        assert(quiet_actions(periods)[0] == pinged[0]);
        lemma_quiet_actions_first(shorter);
    }
}

/// The first action on a quiet connection is to wait.
proof fn lemma_quiet_actions_first(periods: nat)
    ensures
        quiet_actions(periods).len() > 0,
        quiet_actions(periods)[0] == Action::Wait,
    decreases periods,
{
    if periods > 0 {
        lemma_quiet_actions_first((periods - 1) as nat);
    }
}

/// Malformed frame resilience: a text frame that cannot be decoded is dropped.
/// The session stays up, nothing is handed to the consumer for it, and the
/// next text frame that can be decoded is delivered.
pub proof fn lemma_malformed_frame_is_dropped()
    ensures
        next(SessionState::Running(Phase::Decoding), Event::Undecodable) == (
            SessionState::Running(Phase::Idle),
            Action::Wait,
        ),
        run(
            SessionState::Running(Phase::Idle),
            seq![
                Event::Frame(FrameKind::Text),
                Event::Undecodable,
                Event::Frame(FrameKind::Text),
                Event::Decoded,
                Event::Delivered,
            ],
        ) == (
            SessionState::Running(Phase::Idle),
            seq![Action::Decode, Action::Wait, Action::Decode, Action::Deliver, Action::Wait],
        ),
{
    let start = SessionState::Running(Phase::Idle);
    let e0 = Seq::<Event>::empty();
    let e1 = e0.push(Event::Frame(FrameKind::Text));
    let e2 = e1.push(Event::Undecodable);
    let e3 = e2.push(Event::Frame(FrameKind::Text));
    let e4 = e3.push(Event::Decoded);
    let e5 = e4.push(Event::Delivered);
    lemma_run_push(start, e0, Event::Frame(FrameKind::Text));
    lemma_run_push(start, e1, Event::Undecodable);
    lemma_run_push(start, e2, Event::Frame(FrameKind::Text));
    lemma_run_push(start, e3, Event::Decoded);
    lemma_run_push(start, e4, Event::Delivered);
    assert(e5 =~= seq![
        Event::Frame(FrameKind::Text),
        Event::Undecodable,
        Event::Frame(FrameKind::Text),
        Event::Decoded,
        Event::Delivered,
    ]);
    assert(run(start, e5).1 =~= seq![
        Action::Decode,
        Action::Wait,
        Action::Decode,
        Action::Deliver,
        Action::Wait,
    ]);
}

/// No event of a running session that is not a close frame, a failed send or
/// a control message without text ends the session: read errors, frames of
/// other kinds, texts that are no event and events that the consumer does not
/// take leave it running.
pub proof fn lemma_only_close_and_write_failures_end(phase: Phase, event: Event)
    requires
        event != Event::Frame(FrameKind::Close),
        event != Event::SendFailed,
        !(event is EncodeFailed),
    ensures
        next(SessionState::Running(phase), event).0 is Running,
        !(next(SessionState::Running(phase), event).1 is Stop),
{
}

/// A session that is over stays over: whatever happens after its end, the
/// state is the same and the action is to stop with the same error.
pub proof fn lemma_closed_stays_closed(e: SessionError, events: Seq<Event>)
    ensures
        run(SessionState::Closed(e), events).0 == SessionState::Closed(e),
        forall|i: int|
            0 <= i < events.len() ==> #[trigger] run(SessionState::Closed(e), events).1[i]
                == Action::Stop(e),
    decreases events.len(),
{
    lemma_run_len(SessionState::Closed(e), events);
    if events.len() > 0 {
        lemma_closed_stays_closed(e, events.drop_last());
        lemma_run_len(SessionState::Closed(e), events.drop_last());
    }
}

/// Close termination: a close frame ends an idle session with a terminal
/// error, and nothing that comes after it is processed.
pub proof fn lemma_close_ends_session(events: Seq<Event>)
    ensures
        next(SessionState::Running(Phase::Idle), Event::Frame(FrameKind::Close)) == closed(
            SessionError::ProtocolClose,
        ),
        run(SessionState::Closed(SessionError::ProtocolClose), events).0 == SessionState::Closed(
            SessionError::ProtocolClose,
        ),
        forall|i: int|
            0 <= i < events.len() ==> #[trigger] run(
                SessionState::Closed(SessionError::ProtocolClose),
                events,
            ).1[i] == Action::Stop(SessionError::ProtocolClose),
{
    lemma_closed_stays_closed(SessionError::ProtocolClose, events);
}

} // verus!
