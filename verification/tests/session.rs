use pacifica::json::Json;
use pacifica::ws::{
    handle_message, outgoing_text, ping_msg, subscribe_msg, Action, Event, FrameKind, Handling,
    Outgoing, Phase, Session, SessionError, SessionState, SubscribeMessage, SubscribePrices,
    KEEPALIVE_SECS, WS_BASE,
};

fn running() -> Session {
    let (mut session, _) = Session::start();
    session.step(Event::Connected);
    session.step(Event::Sent);
    session.step(Event::Tick);
    session
}

#[test]
fn session_starts_by_connecting() {
    let (session, action) = Session::start();
    assert_eq!(action, Action::Connect);
    assert_eq!(session.state(), SessionState::Connecting);
}

#[test]
fn connect_failure_is_fatal() {
    let (mut session, _) = Session::start();
    assert_eq!(session.step(Event::ConnectFailed), Action::Stop(SessionError::Transport));
    assert_eq!(session.state(), SessionState::Closed(SessionError::Transport));
}

#[test]
fn subscribe_is_sent_once_after_connecting() {
    let (mut session, _) = Session::start();
    assert_eq!(session.step(Event::Connected), Action::Send(Outgoing::Subscribe));
    assert_eq!(session.state(), SessionState::Subscribed);
    assert_eq!(session.step(Event::Sent), Action::StartKeepalive);
    assert_eq!(session.state(), SessionState::Running(Phase::Priming));
}

#[test]
fn subscribe_send_failure_is_fatal() {
    let (mut session, _) = Session::start();
    session.step(Event::Connected);
    assert_eq!(session.step(Event::SendFailed), Action::Stop(SessionError::Transport));
    assert_eq!(session.state(), SessionState::Closed(SessionError::Transport));
}

#[test]
fn first_tick_sends_no_ping() {
    let (mut session, _) = Session::start();
    session.step(Event::Connected);
    session.step(Event::Sent);
    assert_eq!(session.step(Event::Tick), Action::Wait);
    assert_eq!(session.state(), SessionState::Running(Phase::Idle));
}

#[test]
fn each_later_tick_sends_exactly_one_ping() {
    let mut session = running();
    let mut pings = 0;
    for _ in 0..5 {
        let action = session.step(Event::Tick);
        if action == Action::Send(Outgoing::Ping) {
            pings += 1;
        }
        assert_eq!(session.state(), SessionState::Running(Phase::Pinging));
        assert_eq!(session.step(Event::Sent), Action::Wait);
        assert_eq!(session.state(), SessionState::Running(Phase::Idle));
    }
    assert_eq!(pings, 5);
}

#[test]
fn ping_send_failure_is_fatal() {
    let mut session = running();
    session.step(Event::Tick);
    assert_eq!(session.step(Event::SendFailed), Action::Stop(SessionError::Transport));
    assert_eq!(session.state(), SessionState::Closed(SessionError::Transport));
}

#[test]
fn malformed_frame_is_dropped_and_next_frame_delivered() {
    let mut session = running();
    assert_eq!(session.step(Event::Frame(FrameKind::Text)), Action::Decode);
    assert_eq!(session.step(Event::Undecodable), Action::Wait);
    assert_eq!(session.state(), SessionState::Running(Phase::Idle));
    assert_eq!(session.step(Event::Frame(FrameKind::Text)), Action::Decode);
    assert_eq!(session.step(Event::Decoded), Action::Deliver);
    assert_eq!(session.step(Event::Delivered), Action::Wait);
    assert_eq!(session.state(), SessionState::Running(Phase::Idle));
}

#[test]
fn failed_delivery_does_not_end_the_session() {
    let mut session = running();
    session.step(Event::Frame(FrameKind::Text));
    session.step(Event::Decoded);
    assert_eq!(session.step(Event::Undelivered), Action::Wait);
    assert_eq!(session.state(), SessionState::Running(Phase::Idle));
}

#[test]
fn close_frame_ends_the_session() {
    let mut session = running();
    assert_eq!(
        session.step(Event::Frame(FrameKind::Close)),
        Action::Stop(SessionError::ProtocolClose)
    );
    assert_eq!(session.state(), SessionState::Closed(SessionError::ProtocolClose));
    assert_eq!(
        session.step(Event::Frame(FrameKind::Text)),
        Action::Stop(SessionError::ProtocolClose)
    );
    assert_eq!(session.step(Event::Tick), Action::Stop(SessionError::ProtocolClose));
    assert_eq!(session.state(), SessionState::Closed(SessionError::ProtocolClose));
}

#[test]
fn other_frames_and_read_errors_are_passed_over() {
    let mut session = running();
    assert_eq!(session.step(Event::Frame(FrameKind::Binary)), Action::Wait);
    assert_eq!(session.step(Event::Frame(FrameKind::Ping)), Action::Wait);
    assert_eq!(session.step(Event::Frame(FrameKind::Pong)), Action::Wait);
    assert_eq!(session.step(Event::Frame(FrameKind::Raw)), Action::Wait);
    assert_eq!(session.step(Event::ReadError), Action::Wait);
    assert_eq!(session.state(), SessionState::Running(Phase::Idle));
}

#[test]
fn unexpected_event_changes_nothing() {
    let (mut session, _) = Session::start();
    assert_eq!(session.step(Event::Tick), Action::Wait);
    assert_eq!(session.state(), SessionState::Connecting);
}

#[test]
fn decide_agrees_with_step() {
    let state = SessionState::Running(Phase::Idle);
    assert_eq!(
        Session::decide(state, Event::Tick),
        (SessionState::Running(Phase::Pinging), Action::Send(Outgoing::Ping))
    );
}

#[test]
fn handling_of_each_message() {
    assert_eq!(handle_message(Some(FrameKind::Text)), Handling::Decode);
    assert_eq!(
        handle_message(Some(FrameKind::Close)),
        Handling::Terminate(SessionError::ProtocolClose)
    );
    assert_eq!(handle_message(Some(FrameKind::Binary)), Handling::Ignore);
    assert_eq!(handle_message(Some(FrameKind::Ping)), Handling::Ignore);
    assert_eq!(handle_message(Some(FrameKind::Pong)), Handling::Ignore);
    assert_eq!(handle_message(Some(FrameKind::Raw)), Handling::Ignore);
    assert_eq!(handle_message(None), Handling::Ignore);
}

#[test]
fn ping_message_has_no_params() {
    assert_eq!(ping_msg(), Ok("{\"method\":\"ping\"}".to_string()));
    assert_eq!(outgoing_text(Outgoing::Ping), Ok("{\"method\":\"ping\"}".to_string()));
}

#[test]
fn subscribe_message_selects_prices() {
    let expected = "{\"method\":\"subscribe\",\"params\":{\"source\":\"prices\"}}";
    assert_eq!(subscribe_msg(), Ok(expected.to_string()));
    assert_eq!(outgoing_text(Outgoing::Subscribe), Ok(expected.to_string()));
}

#[test]
fn prices_params() {
    let expected = Json::Object(vec![("source".to_string(), Json::Str("prices".to_string()))]);
    assert_eq!(SubscribePrices.params(), expected);
}

#[test]
fn message_without_params_has_one_entry() {
    let message = SubscribeMessage { method: "ping".to_string(), params: None };
    let expected = Json::Object(vec![("method".to_string(), Json::Str("ping".to_string()))]);
    assert_eq!(message.to_json(), expected);
}

#[test]
fn message_with_params_has_two_entries() {
    let message = SubscribeMessage { method: "m".to_string(), params: Some(Json::Null) };
    let expected = Json::Object(vec![
        ("method".to_string(), Json::Str("m".to_string())),
        ("params".to_string(), Json::Null),
    ]);
    assert_eq!(message.to_json(), expected);
}

#[test]
fn encode_failure_is_fatal() {
    let (mut session, _) = Session::start();
    session.step(Event::Connected);
    let error = pacifica::json::SerializationError::Encoding;
    assert_eq!(
        session.step(Event::EncodeFailed(error)),
        Action::Stop(SessionError::Serialization(error))
    );
}

#[test]
fn stream_constants() {
    assert_eq!(KEEPALIVE_SECS, 30);
    assert!(WS_BASE.starts_with("wss://"));
}
