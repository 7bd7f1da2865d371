//! The kind of a wire-level message, tagged by the first byte of a frame.

use vstd::prelude::*;

verus! {

use vstd::string::StrSliceExecFns;
use vstd::utf8::{decode_utf8, encode_utf8, valid_utf8};
use crate::message::{string_from_utf8, Error};

/// The kind of a message, as carried in the first byte of a frame.
///
/// A `Text` message carries its body; the other kinds have an empty body.
#[derive(Clone, PartialEq, Eq, Debug)]
pub enum MessageType {
    /// A keep-alive probe; tag 0.
    Heart,
    /// A chat line addressed to another identity; tag 1.
    Text(String),
    /// The identity in the `sender` field claims a session; tag 2.
    Login,
    /// The identity in the `sender` field releases its session; tag 3.
    Logout,
}

/// Mathematical model of a [`MessageType`]: the body as a character sequence.
pub enum MessageTypeView {
    Heart,
    Text(Seq<char>),
    Login,
    Logout,
}

impl View for MessageType {
    type V = MessageTypeView;

    open spec fn view(&self) -> MessageTypeView {
        match self {
            MessageType::Heart => MessageTypeView::Heart,
            MessageType::Text(body) => MessageTypeView::Text(body@),
            MessageType::Login => MessageTypeView::Login,
            MessageType::Logout => MessageTypeView::Logout,
        }
    }
}

impl MessageTypeView {
    /// The tag byte that stands for this kind on the wire.
    pub open spec fn tag(self) -> u8 {
        match self {
            MessageTypeView::Heart => 0,
            MessageTypeView::Text(_) => 1,
            MessageTypeView::Login => 2,
            MessageTypeView::Logout => 3,
        }
    }

    /// The UTF-8 bytes of the body: the encoded text for `Text`, else empty.
    pub open spec fn body_bytes(self) -> Seq<u8> {
        match self {
            MessageTypeView::Text(body) => encode_utf8(body),
            _ => Seq::<u8>::empty(),
        }
    }
}

impl MessageType {
    /// The tag byte that stands for this kind on the wire.
    pub fn value(&self) -> (r: u8)
        ensures
            r == self@.tag(),
    {
        match self {
            MessageType::Heart => 0,
            MessageType::Text(_) => 1,
            MessageType::Login => 2,
            MessageType::Logout => 3,
        }
    }

    /// Resolves a kind tag read from the wire, taking the body bytes that the
    /// frame carried. Tag 1 takes its body from `body`, which must then be
    /// present; the body must be UTF-8, and the other known tags ignore it.
    pub fn parse(value: u8, body: Option<Vec<u8>>) -> (r: Result<MessageType, Error>)
        requires
            value == 1 ==> body is Some,
        ensures
            value == 0 ==> (r matches Ok(t) && t@ == MessageTypeView::Heart),
            value == 2 ==> (r matches Ok(t) && t@ == MessageTypeView::Login),
            value == 3 ==> (r matches Ok(t) && t@ == MessageTypeView::Logout),
            value == 1 && valid_utf8(body->0@) ==> (r matches Ok(t) && t@
                == MessageTypeView::Text(decode_utf8(body->0@))),
            value == 1 && !valid_utf8(body->0@) ==> (r matches Err(e) && e.description@
                == "body is not valid utf-8"@),
            value > 3 ==> (r matches Err(e) && e.description@ == "unsupported value"@),
    {
        match value {
            0 => Ok(MessageType::Heart),
            1 => {
                match string_from_utf8(body.unwrap()) {
                    Some(text) => Ok(MessageType::Text(text)),
                    None => Err(Error::new("body is not valid utf-8")),
                }
            },
            2 => Ok(MessageType::Login),
            3 => Ok(MessageType::Logout),
            _ => Err(Error::new("unsupported value")),
        }
    }

    /// The length in bytes of the body's UTF-8 encoding.
    pub fn body_length(&self) -> (r: u32)
        requires
            self@.body_bytes().len() <= u32::MAX,
        ensures
            r == self@.body_bytes().len(),
    {
        match self {
            MessageType::Heart => 0,
            MessageType::Text(body) => body.as_str().len() as u32,
            MessageType::Login => 0,
            MessageType::Logout => 0,
        }
    }

    /// The UTF-8 bytes of the body: the encoded text for `Text`, else empty.
    pub fn as_bytes(&self) -> (r: Vec<u8>)
        ensures
            r@ == self@.body_bytes(),
    {
        match self {
            MessageType::Heart => Vec::new(),
            MessageType::Text(body) => body.as_str().as_bytes_vec(),
            MessageType::Login => Vec::new(),
            MessageType::Logout => Vec::new(),
        }
    }
}

} // verus!
