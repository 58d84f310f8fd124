//! The streaming session: what a subscriber does, step by step, with each
//! thing that happens on its connection.
//!
//! The session owns no socket and no timer. Whoever runs it performs the
//! [`Action`] that a step hands out and reports what came of it as the next
//! [`Event`].

use crate::json::{lemma_object_view, Json, JsonView, SerializationError};
use crate::text::{text_of, to_text};
use vstd::prelude::*;

verus! {

/// The endpoint of the push feed.
pub const WS_BASE: &'static str = "wss://ws.pacifica.fi/ws";

/// Seconds between two keepalive pings.
pub const KEEPALIVE_SECS: u64 = 30;

/// A control message on the stream: a method and, where it has any, its
/// parameters.
#[derive(Debug)]
pub struct SubscribeMessage {
    pub method: String,
    pub params: Option<Json>,
}

/// The channel of price updates.
#[derive(Debug, Clone, Copy)]
pub struct SubscribePrices;

/// What a control message is written as: its method and, only where it has
/// parameters, the parameters.
pub open spec fn message_view(method: Seq<char>, params: Option<JsonView>) -> JsonView {
    match params {
        Some(p) => JsonView::Object(seq![("method"@, JsonView::Str(method)), ("params"@, p)]),
        None => JsonView::Object(seq![("method"@, JsonView::Str(method))]),
    }
}

/// The parameters that select the price channel.
pub open spec fn prices_params() -> JsonView {
    JsonView::Object(seq![("source"@, JsonView::Str("prices"@))])
}

/// The message that subscribes to the price channel.
pub open spec fn subscribe_view() -> JsonView {
    message_view("subscribe"@, Some(prices_params()))
}

/// The keepalive message: a method and nothing else.
pub open spec fn ping_view() -> JsonView {
    message_view("ping"@, None)
}

impl SubscribePrices {
    /// The parameters that select this channel.
    pub fn params(self) -> (r: Json)
        ensures
            r@ == prices_params(),
    {
        let mut entries: Vec<(String, Json)> = Vec::new();
        entries.push(("source".to_string(), Json::Str("prices".to_string())));
        proof {
            lemma_object_view(entries);
            assert(crate::json::entries_view(entries@) =~= prices_params()->Object_0);
        }
        Json::Object(entries)
    }
}

impl SubscribeMessage {
    /// The message as a structured value. Parameters that are absent leave no
    /// entry behind, not even an empty one.
    pub fn to_json(&self) -> (r: Json)
        ensures
            r@ == message_view(
                self.method@,
                match self.params {
                    Some(p) => Some(p@),
                    None => None,
                },
            ),
    {
        let mut entries: Vec<(String, Json)> = Vec::new();
        entries.push(("method".to_string(), Json::Str(self.method.clone())));
        match &self.params {
            Some(p) => {
                entries.push(("params".to_string(), p.clone()));
                proof {
                    lemma_object_view(entries);
                    assert(crate::json::entries_view(entries@) =~= message_view(
                        self.method@,
                        Some(p@),
                    )->Object_0);
                }
            },
            None => {
                proof {
                    lemma_object_view(entries);
                    assert(crate::json::entries_view(entries@) =~= message_view(
                        self.method@,
                        None,
                    )->Object_0);
                }
            },
        }
        Json::Object(entries)
    }
}

/// The text of the message that subscribes to the price channel.
pub fn subscribe_msg() -> (r: Result<String, SerializationError>)
    ensures
        r matches Ok(text) ==> text_of(subscribe_view()) == Ok::<Seq<char>, SerializationError>(
            text@,
        ),
        r matches Err(e) ==> text_of(subscribe_view()) == Err::<Seq<char>, SerializationError>(e),
{
    let message = SubscribeMessage {
        method: "subscribe".to_string(),
        params: Some(SubscribePrices.params()),
    };
    to_text(&message.to_json())
}

/// The text of the keepalive message.
pub fn ping_msg() -> (r: Result<String, SerializationError>)
    ensures
        r matches Ok(text) ==> text_of(ping_view()) == Ok::<Seq<char>, SerializationError>(text@),
        r matches Err(e) ==> text_of(ping_view()) == Err::<Seq<char>, SerializationError>(e),
{
    let message = SubscribeMessage { method: "ping".to_string(), params: None };
    to_text(&message.to_json())
}

/// Why a session ended.
#[derive(Debug, Clone, Copy, PartialEq, Eq, Structural)]
pub enum SessionError {
    /// The connection could not be made, or a write on it failed.
    Transport,
    /// A control message could not be written as text.
    Serialization(SerializationError),
    /// The other side closed the stream.
    ProtocolClose,
}

/// The kind of an inbound frame.
#[derive(Debug, Clone, Copy, PartialEq, Eq, Structural)]
pub enum FrameKind {
    Text,
    Binary,
    Ping,
    Pong,
    Close,
    Raw,
}

/// What a session does about one inbound message.
#[derive(Debug, Clone, Copy, PartialEq, Eq, Structural)]
pub enum Handling {
    /// Try to decode the text into an event and forward it.
    Decode,
    /// Nothing: the session goes on.
    Ignore,
    /// The session ends.
    Terminate(SessionError),
}

/// What becomes of one inbound message: a frame of the given kind, or `None`
/// where reading failed.
pub open spec fn handling_of(message: Option<FrameKind>) -> Handling {
    match message {
        Some(FrameKind::Text) => Handling::Decode,
        Some(FrameKind::Close) => Handling::Terminate(SessionError::ProtocolClose),
        Some(_) => Handling::Ignore,
        None => Handling::Ignore,
    }
}

/// Decides what to do about one inbound message: a text frame is decoded, a
/// close frame ends the session, every other frame and a read error are
/// passed over.
pub fn handle_message(message: Option<FrameKind>) -> (r: Handling)
    ensures
        r == handling_of(message),
{
    match message {
        Some(kind) => match kind {
            FrameKind::Text => Handling::Decode,
            FrameKind::Close => Handling::Terminate(SessionError::ProtocolClose),
            _ => Handling::Ignore,
        },
        None => Handling::Ignore,
    }
}

/// What a running session is busy with.
#[derive(Debug, Clone, Copy, PartialEq, Eq, Structural)]
pub enum Phase {
    /// The keepalive timer was started; its first tick, which comes at once,
    /// is still out.
    Priming,
    /// Waiting for the next frame or the next tick.
    Idle,
    /// A text frame is being decoded.
    Decoding,
    /// A decoded event is being handed to the consumer.
    Delivering,
    /// A keepalive ping is being sent.
    Pinging,
}

/// The state of a session.
#[derive(Debug, Clone, Copy, PartialEq, Eq, Structural)]
pub enum SessionState {
    /// The connection is being made.
    Connecting,
    /// The connection stands and the subscribe message is being sent.
    Subscribed,
    /// The subscription stands.
    Running(Phase),
    /// The session is over.
    Closed(SessionError),
}

/// Which of the two control messages is to be sent.
#[derive(Debug, Clone, Copy, PartialEq, Eq, Structural)]
pub enum Outgoing {
    Subscribe,
    Ping,
}

/// What happened on the connection since the last step.
#[derive(Debug, Clone, Copy, PartialEq, Eq, Structural)]
pub enum Event {
    /// The connection was made.
    Connected,
    /// The connection could not be made.
    ConnectFailed,
    /// The control message could not be written as text.
    EncodeFailed(SerializationError),
    /// The control message went out.
    Sent,
    /// The control message could not be sent.
    SendFailed,
    /// A frame came in.
    Frame(FrameKind),
    /// Reading from the connection failed.
    ReadError,
    /// The keepalive timer fired.
    Tick,
    /// The text was decoded into an event.
    Decoded,
    /// The text was no event.
    Undecodable,
    /// The consumer took the event.
    Delivered,
    /// The consumer did not take the event.
    Undelivered,
}

/// What the runner of the session is to do next.
#[derive(Debug, Clone, Copy, PartialEq, Eq, Structural)]
pub enum Action {
    /// Connect to [`WS_BASE`].
    Connect,
    /// Send this control message.
    Send(Outgoing),
    /// Start the keepalive timer, which ticks once at once and then every
    /// [`KEEPALIVE_SECS`] seconds, and wait for its first tick.
    StartKeepalive,
    /// Wait for the next frame or the next tick, whichever comes first.
    Wait,
    /// Decode the text of the frame that came in.
    Decode,
    /// Hand the decoded event to the consumer.
    Deliver,
    /// Return this error to the caller.
    Stop(SessionError),
}

/// The state after an event, and the action that the event calls for.
///
/// An event that the state does not wait for changes nothing; the action is
/// then to go on waiting.
pub open spec fn next(state: SessionState, event: Event) -> (SessionState, Action) {
    match state {
        SessionState::Connecting => match event {
            Event::Connected => (SessionState::Subscribed, Action::Send(Outgoing::Subscribe)),
            Event::ConnectFailed => closed(SessionError::Transport),
            _ => (state, Action::Wait),
        },
        SessionState::Subscribed => match event {
            Event::Sent => (SessionState::Running(Phase::Priming), Action::StartKeepalive),
            Event::SendFailed => closed(SessionError::Transport),
            Event::EncodeFailed(e) => closed(SessionError::Serialization(e)),
            _ => (state, Action::Wait),
        },
        SessionState::Running(Phase::Priming) => match event {
            Event::Tick => (SessionState::Running(Phase::Idle), Action::Wait),
            _ => (state, Action::Wait),
        },
        SessionState::Running(Phase::Idle) => match event {
            Event::Tick => (SessionState::Running(Phase::Pinging), Action::Send(Outgoing::Ping)),
            Event::Frame(kind) => match handling_of(Some(kind)) {
                Handling::Decode => (SessionState::Running(Phase::Decoding), Action::Decode),
                Handling::Ignore => (state, Action::Wait),
                Handling::Terminate(e) => closed(e),
            },
            Event::ReadError => match handling_of(None) {
                Handling::Decode => (SessionState::Running(Phase::Decoding), Action::Decode),
                Handling::Ignore => (state, Action::Wait),
                Handling::Terminate(e) => closed(e),
            },
            _ => (state, Action::Wait),
        },
        SessionState::Running(Phase::Decoding) => match event {
            Event::Decoded => (SessionState::Running(Phase::Delivering), Action::Deliver),
            Event::Undecodable => (SessionState::Running(Phase::Idle), Action::Wait),
            _ => (state, Action::Wait),
        },
        SessionState::Running(Phase::Delivering) => match event {
            Event::Delivered => (SessionState::Running(Phase::Idle), Action::Wait),
            Event::Undelivered => (SessionState::Running(Phase::Idle), Action::Wait),
            _ => (state, Action::Wait),
        },
        SessionState::Running(Phase::Pinging) => match event {
            Event::Sent => (SessionState::Running(Phase::Idle), Action::Wait),
            Event::SendFailed => closed(SessionError::Transport),
            Event::EncodeFailed(e) => closed(SessionError::Serialization(e)),
            _ => (state, Action::Wait),
        },
        SessionState::Closed(e) => closed(e),
    }
}

/// The end of a session with this error.
pub open spec fn closed(e: SessionError) -> (SessionState, Action) {
    (SessionState::Closed(e), Action::Stop(e))
}

/// One streaming session.
#[derive(Debug)]
pub struct Session {
    state: SessionState,
}

impl View for Session {
    type V = SessionState;

    closed spec fn view(&self) -> SessionState {
        self.state
    }
}

impl Session {
    /// A new session, and its first action: to connect.
    pub fn start() -> (r: (Session, Action))
        ensures
            r.0@ == SessionState::Connecting,
            r.1 == Action::Connect,
    {
        (Session { state: SessionState::Connecting }, Action::Connect)
    }

    /// The state of the session.
    pub fn state(&self) -> (r: SessionState)
        ensures
            r == self@,
    {
        self.state
    }

    /// Takes in what happened and says what to do next.
    pub fn step(&mut self, event: Event) -> (r: Action)
        ensures
            (final(self)@, r) == next(old(self)@, event),
    {
        let (state, action) = Session::decide(self.state, event);
        self.state = state;
        action
    }

    /// The state after an event, and the action that the event calls for.
    pub fn decide(state: SessionState, event: Event) -> (r: (SessionState, Action))
        ensures
            r == next(state, event),
    {
        match state {
            SessionState::Connecting => match event {
                Event::Connected => (SessionState::Subscribed, Action::Send(Outgoing::Subscribe)),
                Event::ConnectFailed => Session::close(SessionError::Transport),
                _ => (state, Action::Wait),
            },
            SessionState::Subscribed => match event {
                Event::Sent => (SessionState::Running(Phase::Priming), Action::StartKeepalive),
                Event::SendFailed => Session::close(SessionError::Transport),
                Event::EncodeFailed(e) => Session::close(SessionError::Serialization(e)),
                _ => (state, Action::Wait),
            },
            SessionState::Running(phase) => match phase {
                Phase::Priming => match event {
                    Event::Tick => (SessionState::Running(Phase::Idle), Action::Wait),
                    _ => (state, Action::Wait),
                },
                Phase::Idle => match event {
                    Event::Tick => (
                        SessionState::Running(Phase::Pinging),
                        Action::Send(Outgoing::Ping),
                    ),
                    Event::Frame(kind) => Session::after_message(state, Some(kind)),
                    Event::ReadError => Session::after_message(state, None),
                    _ => (state, Action::Wait),
                },
                Phase::Decoding => match event {
                    Event::Decoded => (SessionState::Running(Phase::Delivering), Action::Deliver),
                    Event::Undecodable => (SessionState::Running(Phase::Idle), Action::Wait),
                    _ => (state, Action::Wait),
                },
                Phase::Delivering => match event {
                    Event::Delivered => (SessionState::Running(Phase::Idle), Action::Wait),
                    Event::Undelivered => (SessionState::Running(Phase::Idle), Action::Wait),
                    _ => (state, Action::Wait),
                },
                Phase::Pinging => match event {
                    Event::Sent => (SessionState::Running(Phase::Idle), Action::Wait),
                    Event::SendFailed => Session::close(SessionError::Transport),
                    Event::EncodeFailed(e) => Session::close(SessionError::Serialization(e)),
                    _ => (state, Action::Wait),
                },
            },
            SessionState::Closed(e) => Session::close(e),
        }
    }

    /// What an idle session does about one inbound message.
    fn after_message(state: SessionState, message: Option<FrameKind>) -> (r: (
        SessionState,
        Action,
    ))
        ensures
            r == match handling_of(message) {
                Handling::Decode => (SessionState::Running(Phase::Decoding), Action::Decode),
                Handling::Ignore => (state, Action::Wait),
                Handling::Terminate(e) => closed(e),
            },
    {
        match handle_message(message) {
            Handling::Decode => (SessionState::Running(Phase::Decoding), Action::Decode),
            Handling::Ignore => (state, Action::Wait),
            Handling::Terminate(e) => Session::close(e),
        }
    }

    /// The end of a session with this error.
    fn close(e: SessionError) -> (r: (SessionState, Action))
        ensures
            r == closed(e),
    {
        (SessionState::Closed(e), Action::Stop(e))
    }
}

/// The text of a control message.
pub fn outgoing_text(which: Outgoing) -> (r: Result<String, SerializationError>)
    ensures
        r matches Ok(text) ==> text_of(outgoing_view(which)) == Ok::<
            Seq<char>,
            SerializationError,
        >(text@),
        r matches Err(e) ==> text_of(outgoing_view(which)) == Err::<Seq<char>, SerializationError>(
            e,
        ),
{
    match which {
        Outgoing::Subscribe => subscribe_msg(),
        Outgoing::Ping => ping_msg(),
    }
}

/// The control message of each kind.
pub open spec fn outgoing_view(which: Outgoing) -> JsonView {
    match which {
        Outgoing::Subscribe => subscribe_view(),
        Outgoing::Ping => ping_view(),
    }
}

} // verus!
