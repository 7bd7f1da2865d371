//! The session handler: the state machine that bridges one connection to the
//! supervisor's logical message space.
//!
//! One handler owns one connection. Its read path decodes inbound frames and
//! its receive path drains the mailbox the supervisor fills; both paths feed
//! [`SessionHandler::step`], which decides every transition. The reading,
//! writing and waiting themselves live outside this crate: each step returns
//! the one action the caller must perform.

use vstd::prelude::*;

verus! {

use crate::message::{DecodeError, Message, MessageType};
use crate::supervisor::{ClientMessage, SupervisorMessage};

/// Where a session stands in its life cycle.
#[derive(Clone, Copy, Debug, PartialEq, Eq, Structural)]
pub enum SessionState {
    /// Nothing read yet; the first frame must be a `Login`.
    AwaitingLogin,
    /// Registered: frames are routed and mailbox events written out.
    Active,
    /// A logout or a connection failure was forwarded; only the final
    /// `Terminate` from the supervisor is still awaited.
    Closing,
    /// Both paths stopped and the connection released.
    Terminated,
}

/// One thing that happened on a session's connection or mailbox.
#[derive(Debug)]
pub enum SessionInput {
    /// The read path decoded one whole frame.
    Frame(Message),
    /// The read path hit a malformed frame: fatal for this session.
    FrameInvalid,
    /// The connection closed or failed; treated like a clean close.
    StreamClosed,
    /// The receive path drained one event from the mailbox.
    Mail(ClientMessage),
}

/// The one thing the caller must perform after a step.
#[derive(Debug, PartialEq, Eq)]
pub enum SessionAction {
    /// Send this event to the supervisor.
    Forward(SupervisorMessage),
    /// Encode this message and write it out the connection.
    WriteFrame(Message),
    /// Notify the peer that it must log in first, then drop the connection.
    RejectLogin,
    /// Stop both paths and release the connection.
    Release,
    /// Nothing to do.
    Ignore,
}

/// The per-session state machine: the identity the session runs under and
/// where it stands.
#[derive(Debug)]
pub struct SessionHandler {
    pub identity: String,
    pub state: SessionState,
}

impl SessionHandler {
    /// A handler for a fresh connection, before any frame was read.
    pub fn new() -> (r: Self)
        ensures
            r.state == SessionState::AwaitingLogin,
            r.identity@ == Seq::<char>::empty(),
    {
        SessionHandler { identity: String::new(), state: SessionState::AwaitingLogin }
    }

    /// A handler for a connection whose login handshake the listener already
    /// completed under `identity`.
    pub fn active(identity: String) -> (r: Self)
        ensures
            r.state == SessionState::Active,
            r.identity == identity,
    {
        SessionHandler { identity, state: SessionState::Active }
    }

    /// Advances the state machine by one input and returns the one action
    /// the caller must perform.
    ///
    /// Awaiting login, the first frame must be a `Login`: it fixes the
    /// identity and asks the supervisor to register it; anything else
    /// rejects the connection. Active, a `Text` frame is forwarded as a
    /// route request and a `Logout` as a deregistration; a malformed frame
    /// or a closed connection deregisters too, since both are fatal here; a
    /// delivered line is written out, and `Terminate` releases the
    /// connection. Closing, only `Terminate` is still acted on.
    pub fn step(&mut self, input: SessionInput) -> (r: SessionAction)
        ensures
            match (old(self).state, input) {
                (SessionState::AwaitingLogin, SessionInput::Frame(m)) => match m.message_type {
                    MessageType::Login => {
                        &&& final(self).state == SessionState::Active
                        &&& final(self).identity@ == m.username@
                        &&& r matches SessionAction::Forward(
                            SupervisorMessage::NewClient(u),
                        ) && u@ == m.username@
                    },
                    _ => {
                        &&& final(self).state == SessionState::Terminated
                        &&& final(self).identity == old(self).identity
                        &&& r is RejectLogin
                    },
                },
                (SessionState::AwaitingLogin, SessionInput::Mail(_)) => {
                    &&& *final(self) == *old(self)
                    &&& r is Ignore
                },
                (SessionState::AwaitingLogin, _) => {
                    &&& final(self).state == SessionState::Terminated
                    &&& final(self).identity == old(self).identity
                    &&& r is RejectLogin
                },
                (SessionState::Active, SessionInput::Frame(m)) => match m.message_type {
                    MessageType::Text(data) => {
                        &&& *final(self) == *old(self)
                        &&& r matches SessionAction::Forward(
                            SupervisorMessage::Message { sender, receiver, message },
                        ) && sender@ == m.username@ && receiver@ == m.receiver@ && message@
                            == data@
                    },
                    MessageType::Logout => {
                        &&& final(self).state == SessionState::Closing
                        &&& final(self).identity == old(self).identity
                        &&& r matches SessionAction::Forward(
                            SupervisorMessage::DisconnectClient(u),
                        ) && u@ == m.username@
                    },
                    _ => {
                        &&& *final(self) == *old(self)
                        &&& r is Ignore
                    },
                },
                (SessionState::Active, SessionInput::FrameInvalid)
                | (SessionState::Active, SessionInput::StreamClosed) => {
                    &&& final(self).state == SessionState::Closing
                    &&& final(self).identity == old(self).identity
                    &&& r matches SessionAction::Forward(
                        SupervisorMessage::DisconnectClient(u),
                    ) && u@ == old(self).identity@
                },
                (SessionState::Active, SessionInput::Mail(e)) => match e {
                    ClientMessage::ReceiveMessage(sender, body) => {
                        &&& *final(self) == *old(self)
                        &&& r matches SessionAction::WriteFrame(m) && m@.sender == sender@
                            && m@.recipient == old(self).identity@ && m@.kind
                            == crate::message::message_type::MessageTypeView::Text(body@)
                    },
                    ClientMessage::Terminate => {
                        &&& final(self).state == SessionState::Terminated
                        &&& final(self).identity == old(self).identity
                        &&& r is Release
                    },
                },
                (SessionState::Closing, SessionInput::Mail(ClientMessage::Terminate)) => {
                    &&& final(self).state == SessionState::Terminated
                    &&& final(self).identity == old(self).identity
                    &&& r is Release
                },
                (SessionState::Closing, _) => {
                    &&& *final(self) == *old(self)
                    &&& r is Ignore
                },
                (SessionState::Terminated, _) => {
                    &&& *final(self) == *old(self)
                    &&& r is Ignore
                },
            },
    {
        match self.state {
            SessionState::AwaitingLogin => match input {
                SessionInput::Frame(m) => match m.message_type {
                    MessageType::Login => {
                        self.identity = m.username;
                        self.state = SessionState::Active;
                        SessionAction::Forward(SupervisorMessage::NewClient(self.identity.clone()))
                    },
                    _ => {
                        self.state = SessionState::Terminated;
                        SessionAction::RejectLogin
                    },
                },
                SessionInput::Mail(_) => SessionAction::Ignore,
                _ => {
                    self.state = SessionState::Terminated;
                    SessionAction::RejectLogin
                },
            },
            SessionState::Active => match input {
                SessionInput::Frame(m) => match m.message_type {
                    MessageType::Text(data) => SessionAction::Forward(
                        SupervisorMessage::Message {
                            sender: m.username,
                            receiver: m.receiver,
                            message: data,
                        },
                    ),
                    MessageType::Logout => {
                        self.state = SessionState::Closing;
                        SessionAction::Forward(SupervisorMessage::DisconnectClient(m.username))
                    },
                    _ => SessionAction::Ignore,
                },
                SessionInput::FrameInvalid | SessionInput::StreamClosed => {
                    self.state = SessionState::Closing;
                    SessionAction::Forward(
                        SupervisorMessage::DisconnectClient(self.identity.clone()),
                    )
                },
                SessionInput::Mail(e) => match e {
                    ClientMessage::ReceiveMessage(sender, body) => SessionAction::WriteFrame(
                        Message::new(MessageType::Text(body), sender, self.identity.clone()),
                    ),
                    ClientMessage::Terminate => {
                        self.state = SessionState::Terminated;
                        SessionAction::Release
                    },
                },
            },
            SessionState::Closing => match input {
                SessionInput::Mail(ClientMessage::Terminate) => {
                    self.state = SessionState::Terminated;
                    SessionAction::Release
                },
                _ => SessionAction::Ignore,
            },
            SessionState::Terminated => SessionAction::Ignore,
        }
    }
}

/// The listener's half of the handshake decision: given what decoding the
/// first frame yielded, the session may open only for a whole `Login` frame,
/// whose sender is the identity claimed. A closed stream, a malformed first
/// frame or any other kind is refused.
pub fn check_login(first: Result<Option<Message>, DecodeError>) -> (r: Result<String, ()>)
    ensures
        match first {
            Ok(Some(m)) => match m.message_type {
                MessageType::Login => r matches Ok(u) && u@ == m.username@,
                _ => r is Err,
            },
            _ => r is Err,
        },
{
    match first {
        Ok(Some(m)) => match m.message_type {
            MessageType::Login => Ok(m.username),
            _ => Err(()),
        },
        _ => Err(()),
    }
}

} // verus!
