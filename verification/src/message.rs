//! The wire-level message and its codec.
//!
//! A message is framed on the wire as: 1 byte of kind tag, 1 byte of sender
//! length followed by the sender identity in UTF-8, 1 byte of recipient
//! length followed by the recipient identity in UTF-8, and 4 bytes of body
//! length (big-endian) followed by the body in UTF-8. The layout is modelled
//! in [`wire`], and the executable codec here is proved against that model.

pub mod message_type;
pub mod wire;

use vstd::prelude::*;

pub use message_type::MessageType;
pub use wire::{DecodeError, EncodeError, FrameField};

verus! {

use vstd::slice::{slice_subrange, slice_to_vec};
use vstd::string::StrSliceExecFns;
use vstd::utf8::{decode_utf8, valid_utf8};
use crate::message::message_type::MessageTypeView;
use crate::message::wire::{encodable, frame_bytes, identities_fit, spec_decode};

/// An error carrying a human-readable description.
#[derive(Debug, PartialEq, Eq)]
pub struct Error {
    pub description: String,
}

impl Error {
    pub fn new(description: &str) -> (r: Self)
        ensures
            r.description@ == description@,
    {
        Error { description: description.to_owned() }
    }
}

/// Mathematical model of a [`Message`]: its kind and body together with the
/// sender and recipient identities as character sequences.
pub struct MessageView {
    pub kind: MessageTypeView,
    pub sender: Seq<char>,
    pub recipient: Seq<char>,
}

/// One wire-level message: a kind (carrying the body, if any), the identity
/// that sent it, and the identity it is addressed to.
#[derive(Debug, PartialEq, Eq)]
pub struct Message {
    pub message_type: MessageType,
    pub username: String,
    pub receiver: String,
}

impl View for Message {
    type V = MessageView;

    open spec fn view(&self) -> MessageView {
        MessageView {
            kind: self.message_type@,
            sender: self.username@,
            recipient: self.receiver@,
        }
    }
}

/// The decoder's result under the message view: what [`Message::decode`]
/// returned, with the message (if any) replaced by its mathematical model.
pub open spec fn decode_view(r: Result<Option<Message>, DecodeError>) -> Result<
    Option<MessageView>,
    DecodeError,
> {
    match r {
        Ok(Some(m)) => Ok(Some(m@)),
        Ok(None) => Ok(None),
        Err(e) => Err(e),
    }
}

/// Relies on `String::from_utf8`: it succeeds exactly on valid UTF-8 input,
/// and then returns the string whose characters the bytes encode.
#[verifier::external_body]
pub(crate) fn string_from_utf8(bytes: Vec<u8>) -> (r: Option<String>)
    ensures
        r is Some <==> valid_utf8(bytes@),
        r matches Some(s) ==> s@ == decode_utf8(bytes@),
{
    String::from_utf8(bytes).ok()
}

impl Message {
    pub fn new(message_type: MessageType, username: String, receiver: String) -> (r: Self)
        ensures
            r.message_type == message_type,
            r.username == username,
            r.receiver == receiver,
    {
        Message { message_type, username, receiver }
    }

    /// Frames this message as one byte sequence, laid out as [`frame_bytes`]
    /// describes. Fails exactly when the message cannot be framed: with
    /// `IdentityTooLong` when an identity's UTF-8 encoding exceeds 255 bytes,
    /// and with `BodyTooLong` when the body overflows the length field or the
    /// frame would not fit in memory.
    pub fn to_bytes(&self) -> (r: Result<Vec<u8>, EncodeError>)
        ensures
            r is Err <==> !encodable(self@),
            r == Err::<Vec<u8>, EncodeError>(EncodeError::IdentityTooLong) <==> !identities_fit(
                self@,
            ),
            r matches Ok(v) ==> v@ == frame_bytes(self@),
    {
        let mut sb = self.username.as_str().as_bytes_vec();
        let mut rb = self.receiver.as_str().as_bytes_vec();
        if sb.len() > 255 || rb.len() > 255 {
            return Err(EncodeError::IdentityTooLong);
        }
        let mut bb = self.message_type.as_bytes();
        if bb.len() > u32::MAX as usize {
            return Err(EncodeError::BodyTooLong);
        }
        let overhead: usize = 7 + sb.len() + rb.len();
        if bb.len() > usize::MAX - overhead {
            return Err(EncodeError::BodyTooLong);
        }
        let blen: u32 = bb.len() as u32;
        let mut out: Vec<u8> = Vec::new();
        out.push(self.message_type.value());
        out.push(sb.len() as u8);
        out.append(&mut sb);
        out.push(rb.len() as u8);
        out.append(&mut rb);
        out.push(((blen >> 24) & 0xff) as u8);
        out.push(((blen >> 16) & 0xff) as u8);
        out.push(((blen >> 8) & 0xff) as u8);
        out.push((blen & 0xff) as u8);
        out.append(&mut bb);
        proof {
            assert(out@ =~= frame_bytes(self@));
        }
        Ok(out)
    }

    /// Decodes the bytes that one read yielded, as [`spec_decode`] describes:
    /// `Ok(None)` when the read was empty (the peer closed), `Ok(Some(m))`
    /// when the bytes begin with a whole frame, and otherwise the error
    /// naming the field that was truncated, malformed or unknown.
    pub fn decode(bytes: &[u8]) -> (r: Result<Option<Message>, DecodeError>)
        ensures
            decode_view(r) == spec_decode(bytes@),
    {
        let n = bytes.len();
        if n == 0 {
            return Ok(None);
        }
        let tag = bytes[0];
        if !(tag == 0 || tag == 1 || tag == 2 || tag == 3) {
            return Err(DecodeError::UnknownKind(tag));
        }
        if n < 2 {
            return Err(DecodeError::Framing(FrameField::SenderLength));
        }
        let slen = bytes[1] as usize;
        if n < 2 + slen {
            return Err(DecodeError::Framing(FrameField::Sender));
        }
        let svec = slice_to_vec(slice_subrange(bytes, 2, 2 + slen));
        let username = match string_from_utf8(svec) {
            Some(s) => s,
            None => {
                return Err(DecodeError::Framing(FrameField::Sender));
            },
        };
        if n < 3 + slen {
            return Err(DecodeError::Framing(FrameField::RecipientLength));
        }
        let rlen = bytes[2 + slen] as usize;
        if n < 3 + slen + rlen {
            return Err(DecodeError::Framing(FrameField::Recipient));
        }
        let rvec = slice_to_vec(slice_subrange(bytes, 3 + slen, 3 + slen + rlen));
        let receiver = match string_from_utf8(rvec) {
            Some(s) => s,
            None => {
                return Err(DecodeError::Framing(FrameField::Recipient));
            },
        };
        let base = 3 + slen + rlen;
        if n < base + 4 {
            return Err(DecodeError::Framing(FrameField::BodyLength));
        }
        let blen_u32: u32 = ((bytes[base] as u32) << 24) | ((bytes[base + 1] as u32) << 16) | ((
        bytes[base + 2] as u32) << 8) | (bytes[base + 3] as u32);
        let blen = blen_u32 as usize;
        if n - (base + 4) < blen {
            return Err(DecodeError::Framing(FrameField::Body));
        }
        let message_type = if tag == 1 {
            let bvec = slice_to_vec(slice_subrange(bytes, base + 4, base + 4 + blen));
            match string_from_utf8(bvec) {
                Some(text) => MessageType::Text(text),
                None => {
                    return Err(DecodeError::Framing(FrameField::Body));
                },
            }
        } else if tag == 0 {
            MessageType::Heart
        } else if tag == 2 {
            MessageType::Login
        } else {
            MessageType::Logout
        };
        Ok(Some(Message { message_type, username, receiver }))
    }

    /// Checks that a frame still holds enough bytes for the field about to
    /// be read: `Ok` exactly when `actual_len` covers `expect_len`.
    pub fn varify_len(expect_len: usize, actual_len: usize) -> (r: Result<(), Error>)
        ensures
            r is Ok <==> actual_len >= expect_len,
            r matches Err(e) ==> e.description@ == "actual length lower than expect length"@,
    {
        if actual_len < expect_len {
            Err(Error::new("actual length lower than expect length"))
        } else {
            Ok(())
        }
    }

    /// The body of the message: `Some` for a `Text` message, else `None`.
    pub fn get_body(&self) -> (r: Option<&String>)
        ensures
            match (r, self.message_type) {
                (Some(body), MessageType::Text(b)) => body == &b,
                (None, MessageType::Text(_)) => false,
                (None, _) => true,
                _ => false,
            },
    {
        match &self.message_type {
            MessageType::Text(body) => Some(body),
            _ => None,
        }
    }
}

} // verus!
