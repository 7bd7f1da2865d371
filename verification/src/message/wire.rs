//! Mathematical model of the wire format: the byte layout of one frame and a
//! specification-level decoder that the executable codec is proved against.

use vstd::prelude::*;

verus! {

use vstd::utf8::{encode_utf8, decode_utf8, valid_utf8};
use crate::message::message_type::MessageTypeView;
use crate::message::MessageView;

/// The frame field at which decoding found the input truncated or malformed.
#[derive(Clone, Copy, Debug, PartialEq, Eq, Structural)]
pub enum FrameField {
    /// The single byte holding the sender identity's length.
    SenderLength,
    /// The sender identity bytes: missing, or not valid UTF-8.
    Sender,
    /// The single byte holding the recipient identity's length.
    RecipientLength,
    /// The recipient identity bytes: missing, or not valid UTF-8.
    Recipient,
    /// The four bytes holding the body's length.
    BodyLength,
    /// The body bytes: missing, or (for a text message) not valid UTF-8.
    Body,
}

/// Why a byte sequence does not decode to a message.
#[derive(Clone, Copy, Debug, PartialEq, Eq, Structural)]
pub enum DecodeError {
    /// The input ended before the named field, or the field was malformed.
    Framing(FrameField),
    /// The first byte is not a known kind tag; carries the byte seen.
    UnknownKind(u8),
}

/// Why a message cannot be framed.
#[derive(Clone, Copy, Debug, PartialEq, Eq, Structural)]
pub enum EncodeError {
    /// The UTF-8 encoding of the sender or the recipient exceeds 255 bytes.
    IdentityTooLong,
    /// The body does not fit the 4-byte length field, or the whole frame
    /// would not fit in memory.
    BodyTooLong,
}

/// The big-endian byte layout of a 32-bit length field.
pub open spec fn be_u32_bytes(n: u32) -> Seq<u8> {
    seq![
        ((n >> 24) & 0xff) as u8,
        ((n >> 16) & 0xff) as u8,
        ((n >> 8) & 0xff) as u8,
        (n & 0xff) as u8,
    ]
}

/// The 32-bit value held by four big-endian bytes.
pub open spec fn be_u32_value(b0: u8, b1: u8, b2: u8, b3: u8) -> u32 {
    ((b0 as u32) << 24) | ((b1 as u32) << 16) | ((b2 as u32) << 8) | (b3 as u32)
}

/// The UTF-8 bytes of the sender identity.
pub open spec fn sender_bytes(m: MessageView) -> Seq<u8> {
    encode_utf8(m.sender)
}

/// The UTF-8 bytes of the recipient identity.
pub open spec fn recipient_bytes(m: MessageView) -> Seq<u8> {
    encode_utf8(m.recipient)
}

/// True when both identities fit their one-byte length prefixes.
pub open spec fn identities_fit(m: MessageView) -> bool {
    sender_bytes(m).len() <= 255 && recipient_bytes(m).len() <= 255
}

/// A message can be framed: each identity fits one length byte, the body fits
/// the 4-byte length field, and the whole frame fits a machine word of length.
pub open spec fn encodable(m: MessageView) -> bool {
    &&& identities_fit(m)
    &&& m.kind.body_bytes().len() <= u32::MAX
    &&& 7 + sender_bytes(m).len() + recipient_bytes(m).len() + m.kind.body_bytes().len()
        <= usize::MAX
}

/// The byte layout of one frame for `m`: kind tag, length-prefixed sender,
/// length-prefixed recipient, 4-byte big-endian body length, body.
pub open spec fn frame_bytes(m: MessageView) -> Seq<u8>
    recommends
        encodable(m),
{
    let sb = sender_bytes(m);
    let rb = recipient_bytes(m);
    let bb = m.kind.body_bytes();
    seq![m.kind.tag()] + seq![sb.len() as u8] + sb + seq![rb.len() as u8] + rb + be_u32_bytes(
        bb.len() as u32,
    ) + bb
}

/// Rebuilds the message once all fields are extracted: resolves the kind tag
/// and, for a text message, checks that the body is UTF-8.
pub open spec fn spec_decode_finish(
    tag: u8,
    sender: Seq<char>,
    recipient: Seq<char>,
    body: Seq<u8>,
) -> Result<Option<MessageView>, DecodeError>
    recommends
        tag == 0 || tag == 1 || tag == 2 || tag == 3,
{
    if tag == 1 {
        if valid_utf8(body) {
            Ok(
                Some(
                    MessageView {
                        kind: MessageTypeView::Text(decode_utf8(body)),
                        sender: sender,
                        recipient: recipient,
                    },
                ),
            )
        } else {
            Err(DecodeError::Framing(FrameField::Body))
        }
    } else {
        let kind = if tag == 0 {
            MessageTypeView::Heart
        } else if tag == 2 {
            MessageTypeView::Login
        } else {
            MessageTypeView::Logout
        };
        Ok(Some(MessageView { kind: kind, sender: sender, recipient: recipient }))
    }
}

/// What decoding one read's bytes yields: `Ok(None)` on an empty read (the
/// peer closed), a message when a whole frame is present, and otherwise the
/// error naming the offending field. Bytes after the frame are ignored.
pub open spec fn spec_decode(b: Seq<u8>) -> Result<Option<MessageView>, DecodeError> {
    if b.len() == 0 {
        Ok(None)
    } else if b[0] != 0 && b[0] != 1 && b[0] != 2 && b[0] != 3 {
        Err(DecodeError::UnknownKind(b[0]))
    } else if b.len() < 2 {
        Err(DecodeError::Framing(FrameField::SenderLength))
    } else {
        let slen = b[1] as int;
        if b.len() < 2 + slen {
            Err(DecodeError::Framing(FrameField::Sender))
        } else if !valid_utf8(b.subrange(2, 2 + slen)) {
            Err(DecodeError::Framing(FrameField::Sender))
        } else if b.len() < 3 + slen {
            Err(DecodeError::Framing(FrameField::RecipientLength))
        } else {
            let rlen = b[2 + slen] as int;
            if b.len() < 3 + slen + rlen {
                Err(DecodeError::Framing(FrameField::Recipient))
            } else if !valid_utf8(b.subrange(3 + slen, 3 + slen + rlen)) {
                Err(DecodeError::Framing(FrameField::Recipient))
            } else if b.len() < 7 + slen + rlen {
                Err(DecodeError::Framing(FrameField::BodyLength))
            } else {
                let base = 3 + slen + rlen;
                let blen = be_u32_value(b[base], b[base + 1], b[base + 2], b[base + 3]) as int;
                if b.len() < base + 4 + blen {
                    Err(DecodeError::Framing(FrameField::Body))
                } else {
                    spec_decode_finish(
                        b[0],
                        decode_utf8(b.subrange(2, 2 + slen)),
                        decode_utf8(b.subrange(3 + slen, 3 + slen + rlen)),
                        b.subrange(base + 4, base + 4 + blen),
                    )
                }
            }
        }
    }
}

proof fn lemma_be_u32_round(n: u32)
    ensures
        be_u32_value(
            ((n >> 24) & 0xff) as u8,
            ((n >> 16) & 0xff) as u8,
            ((n >> 8) & 0xff) as u8,
            (n & 0xff) as u8,
        ) == n,
{
    assert((((((n >> 24) & 0xff) as u8) as u32) << 24) | (((((n >> 16) & 0xff) as u8) as u32)
        << 16) | (((((n >> 8) & 0xff) as u8) as u32) << 8) | (((n & 0xff) as u8) as u32) == n)
        by (bit_vector);
}

/// Round trip: a frame laid out for an encodable message decodes back to
/// exactly that message, field for field.
pub proof fn lemma_round_trip(m: MessageView)
    requires
        encodable(m),
    ensures
        spec_decode(frame_bytes(m)) == Ok::<Option<MessageView>, DecodeError>(Some(m)),
{
    broadcast use vstd::utf8::encode_utf8_valid_utf8, vstd::utf8::encode_utf8_decode_utf8;

    let sb = sender_bytes(m);
    let rb = recipient_bytes(m);
    let bb = m.kind.body_bytes();
    let b = frame_bytes(m);
    let slen = sb.len() as int;
    let rlen = rb.len() as int;
    let blen = bb.len() as int;
    let base = 3 + slen + rlen;
    assert(b.len() == 7 + slen + rlen + blen);
    assert(b[0] == m.kind.tag());
    assert(b[1] == sb.len() as u8);
    assert(b[1] as int == slen);
    assert(b.subrange(2, 2 + slen) =~= sb);
    assert(b[2 + slen] == rb.len() as u8);
    assert(b[2 + slen] as int == rlen);
    assert(b.subrange(3 + slen, 3 + slen + rlen) =~= rb);
    let nlen = bb.len() as u32;
    assert(b[base] == ((nlen >> 24) & 0xff) as u8);
    assert(b[base + 1] == ((nlen >> 16) & 0xff) as u8);
    assert(b[base + 2] == ((nlen >> 8) & 0xff) as u8);
    assert(b[base + 3] == (nlen & 0xff) as u8);
    lemma_be_u32_round(nlen);
    assert(be_u32_value(b[base], b[base + 1], b[base + 2], b[base + 3]) as int == blen);
    assert(b.subrange(base + 4, base + 4 + blen) =~= bb);
    assert(decode_utf8(b.subrange(2, 2 + slen)) == m.sender);
    assert(decode_utf8(b.subrange(3 + slen, 3 + slen + rlen)) == m.recipient);
    match m.kind {
        MessageTypeView::Text(body) => {
            assert(bb == encode_utf8(body));
            assert(valid_utf8(bb));
            assert(decode_utf8(bb) == body);
        },
        _ => {},
    }
}

/// Truncation: every nonempty strict prefix of a frame decodes to a
/// `Framing` error — never to a message, to `None`, or to `UnknownKind`.
pub proof fn lemma_truncation(m: MessageView, i: int)
    requires
        encodable(m),
        0 < i < frame_bytes(m).len(),
    ensures
        spec_decode(frame_bytes(m).take(i)) matches Err(DecodeError::Framing(_)),
{
    broadcast use vstd::utf8::encode_utf8_valid_utf8;

    let sb = sender_bytes(m);
    let rb = recipient_bytes(m);
    let bb = m.kind.body_bytes();
    let b = frame_bytes(m);
    let t = b.take(i);
    let slen = sb.len() as int;
    let rlen = rb.len() as int;
    let blen = bb.len() as int;
    let base = 3 + slen + rlen;
    assert(b.len() == 7 + slen + rlen + blen);
    assert(t.len() == i);
    assert(forall|j: int| 0 <= j < i ==> t[j] == b[j]);
    assert(b[0] == m.kind.tag());
    assert(b[0] == 0 || b[0] == 1 || b[0] == 2 || b[0] == 3);
    if i < 2 {
        assert(spec_decode(t) == Err::<Option<MessageView>, DecodeError>(
            DecodeError::Framing(FrameField::SenderLength),
        ));
    } else {
        assert(t[1] == sb.len() as u8);
        assert(t[1] as int == slen);
        if i < 2 + slen {
            assert(spec_decode(t) == Err::<Option<MessageView>, DecodeError>(
                DecodeError::Framing(FrameField::Sender),
            ));
        } else {
            assert(t.subrange(2, 2 + slen) =~= sb);
            assert(valid_utf8(sb));
            if i < 3 + slen {
                assert(spec_decode(t) == Err::<Option<MessageView>, DecodeError>(
                    DecodeError::Framing(FrameField::RecipientLength),
                ));
            } else {
                assert(t[2 + slen] == rb.len() as u8);
                assert(t[2 + slen] as int == rlen);
                if i < 3 + slen + rlen {
                    assert(spec_decode(t) == Err::<Option<MessageView>, DecodeError>(
                        DecodeError::Framing(FrameField::Recipient),
                    ));
                } else {
                    assert(t.subrange(3 + slen, 3 + slen + rlen) =~= rb);
                    assert(valid_utf8(rb));
                    if i < base + 4 {
                        assert(spec_decode(t) == Err::<Option<MessageView>, DecodeError>(
                            DecodeError::Framing(FrameField::BodyLength),
                        ));
                    } else {
                        let nlen = bb.len() as u32;
                        assert(t[base] == ((nlen >> 24) & 0xff) as u8);
                        assert(t[base + 1] == ((nlen >> 16) & 0xff) as u8);
                        assert(t[base + 2] == ((nlen >> 8) & 0xff) as u8);
                        assert(t[base + 3] == (nlen & 0xff) as u8);
                        lemma_be_u32_round(nlen);
                        assert(be_u32_value(t[base], t[base + 1], t[base + 2], t[base + 3]) as int
                            == blen);
                        assert(t.len() < base + 4 + blen);
                        assert(spec_decode(t) == Err::<Option<MessageView>, DecodeError>(
                            DecodeError::Framing(FrameField::Body),
                        ));
                    }
                }
            }
        }
    }
}

/// Unknown kind: any nonempty input whose first byte is not a known kind tag
/// decodes to `UnknownKind` carrying that byte.
pub proof fn lemma_unknown_kind(b: Seq<u8>)
    requires
        b.len() > 0,
        b[0] != 0,
        b[0] != 1,
        b[0] != 2,
        b[0] != 3,
    ensures
        spec_decode(b) == Err::<Option<MessageView>, DecodeError>(DecodeError::UnknownKind(b[0])),
{
}

/// End of stream: an empty read decodes to `None`, not to an error.
pub proof fn lemma_end_of_stream(b: Seq<u8>)
    requires
        b.len() == 0,
    ensures
        spec_decode(b) == Ok::<Option<MessageView>, DecodeError>(None),
{
}

} // verus!
