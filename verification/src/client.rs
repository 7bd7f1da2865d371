//! The chat client's state machine: which identity it runs under, whom its
//! text is addressed to, and what one resolved input line effects.
//!
//! Reading lines, the connection itself and printing what arrives are I/O
//! around this crate; each step here returns the one action to perform.

use vstd::prelude::*;

verus! {

use crate::input::{InputType, Instruct};
use crate::message::{Message, MessageType};
use crate::message::message_type::MessageTypeView;

/// The one thing the client must perform after handling an input line.
#[derive(Debug, PartialEq, Eq)]
pub enum ClientAction {
    /// Encode this message and write it to the server.
    Send(Message),
    /// Close the connection and stop.
    Quit,
    /// Nothing to do.
    Ignore,
}

/// The client's state: its own identity and the identity its text lines are
/// currently addressed to, if one was chosen with `to:`.
#[derive(Debug)]
pub struct Client {
    pub username: String,
    pub receiver: Option<String>,
}

impl Client {
    /// A client for `username`, with no recipient addressed yet.
    pub fn new(username: String) -> (r: Self)
        ensures
            r.username == username,
            r.receiver is None,
    {
        Client { username, receiver: None }
    }

    /// Handles one resolved input line. A text line becomes a `Text` message
    /// from this client to the addressed identity — or nothing, while no
    /// `to:` was given; `to:` changes the addressed identity; `quit` stops
    /// the client.
    pub fn handle_input(&mut self, input: InputType) -> (r: ClientAction)
        ensures
            match input {
                InputType::Text(data) => match old(self).receiver {
                    Some(rcpt) => {
                        &&& *final (self) == *old(self)
                        &&& r matches ClientAction::Send(m) && m@.kind == MessageTypeView::Text(
                            data@,
                        ) && m@.sender == old(self).username@ && m@.recipient == rcpt@
                    },
                    None => *final (self) == *old(self) && r is Ignore,
                },
                InputType::Instruct(Instruct::To(u)) => {
                    &&& final (self).username == old(self).username
                    &&& final (self).receiver == Some(u)
                    &&& r is Ignore
                },
                InputType::Instruct(Instruct::Quit) => *final (self) == *old(self) && r is Quit,
            },
    {
        match input {
            InputType::Text(data) => match &self.receiver {
                Some(rcpt) => ClientAction::Send(
                    Message::new(MessageType::Text(data), self.username.clone(), rcpt.clone()),
                ),
                None => ClientAction::Ignore,
            },
            InputType::Instruct(Instruct::To(name)) => {
                self.receiver = Some(name);
                ClientAction::Ignore
            },
            InputType::Instruct(Instruct::Quit) => ClientAction::Quit,
        }
    }
}

} // verus!
