use dvorak_message::message::{
    DecodeError, EncodeError, Error, FrameField, Message, MessageType,
};

fn expected_frame(kind: u8, sender: &str, receiver: &str, body: &str) -> Vec<u8> {
    let mut out = Vec::new();
    out.push(kind);
    out.push(sender.as_bytes().len() as u8);
    out.extend_from_slice(sender.as_bytes());
    out.push(receiver.as_bytes().len() as u8);
    out.extend_from_slice(receiver.as_bytes());
    out.extend_from_slice(&(body.as_bytes().len() as u32).to_be_bytes());
    out.extend_from_slice(body.as_bytes());
    out
}

#[test]
fn to_bytes_success() {
    let username = String::from("dvorak");
    let receiver = String::from("anduin");
    let body = String::from("test body");
    let message_type = MessageType::Text(body.clone());

    let message = Message::new(message_type, username.clone(), receiver.clone());
    let bytes = message.to_bytes().unwrap();

    let expected_bytes = expected_frame(1, &username, &receiver, &body);

    assert_eq!(expected_bytes, bytes);
}

#[test]
fn get_body_has_body() {
    let body = String::from("message body");
    let username = String::from("uuuusername");
    let receiver = String::from("anduin");
    let message = Message::new(MessageType::Text(body.clone()), username, receiver);

    let body_value = message.get_body();
    assert_eq!(Some(&body), body_value);
}

#[test]
fn get_body_has_no_body() {
    let username = String::from("uuuusername");
    let receiver = String::from("anduin");
    let message = Message::new(MessageType::Login, username, receiver);

    let body_value = message.get_body();
    assert_eq!(None, body_value);
}

#[test]
fn varify_len_checks_remaining_bytes() {
    assert!(Message::varify_len(4, 10).is_ok());
    assert!(Message::varify_len(4, 4).is_ok());
    let err = Message::varify_len(4, 3).unwrap_err();
    assert_eq!("actual length lower than expect length", err.description);
}

#[test]
fn error_new_keeps_description() {
    let e = Error::new("boom");
    assert_eq!("boom", e.description);
}

#[test]
fn round_trip_text_message() {
    let m = Message::new(
        MessageType::Text(String::from("hello 世界")),
        String::from("alice"),
        String::from("bob"),
    );
    let bytes = m.to_bytes().unwrap();
    let decoded = Message::decode(&bytes).unwrap().unwrap();
    assert_eq!(m, decoded);
}

#[test]
fn round_trip_each_kind() {
    for kind in [
        MessageType::Heart,
        MessageType::Text(String::from("x")),
        MessageType::Login,
        MessageType::Logout,
    ] {
        let m = Message::new(kind, String::from("sender"), String::from("receiver"));
        let bytes = m.to_bytes().unwrap();
        let decoded = Message::decode(&bytes).unwrap().unwrap();
        assert_eq!(m, decoded);
    }
}

#[test]
fn decode_empty_read_is_end_of_stream() {
    assert_eq!(Ok(None), Message::decode(&[]));
}

#[test]
fn decode_unknown_kind() {
    let bytes = expected_frame(9, "alice", "bob", "");
    assert_eq!(Err(DecodeError::UnknownKind(9)), Message::decode(&bytes));
}

#[test]
fn decode_every_strict_prefix_is_framing_error() {
    let m = Message::new(
        MessageType::Text(String::from("hello")),
        String::from("alice"),
        String::from("bob"),
    );
    let bytes = m.to_bytes().unwrap();
    for i in 1..bytes.len() {
        let res = Message::decode(&bytes[..i]);
        assert!(
            matches!(res, Err(DecodeError::Framing(_))),
            "prefix of length {} gave {:?}",
            i,
            res
        );
    }
}

#[test]
fn decode_names_the_truncated_field() {
    assert_eq!(
        Err(DecodeError::Framing(FrameField::SenderLength)),
        Message::decode(&[1])
    );
    assert_eq!(
        Err(DecodeError::Framing(FrameField::Sender)),
        Message::decode(&[1, 2, b'a'])
    );
    assert_eq!(
        Err(DecodeError::Framing(FrameField::RecipientLength)),
        Message::decode(&[1, 1, b'a'])
    );
    assert_eq!(
        Err(DecodeError::Framing(FrameField::Recipient)),
        Message::decode(&[1, 1, b'a', 2, b'b'])
    );
    assert_eq!(
        Err(DecodeError::Framing(FrameField::BodyLength)),
        Message::decode(&[1, 1, b'a', 1, b'b', 0, 0])
    );
    assert_eq!(
        Err(DecodeError::Framing(FrameField::Body)),
        Message::decode(&[1, 1, b'a', 1, b'b', 0, 0, 0, 5, b'x'])
    );
}

#[test]
fn decode_rejects_malformed_utf8_fields() {
    // a lone continuation byte is not valid UTF-8
    assert_eq!(
        Err(DecodeError::Framing(FrameField::Sender)),
        Message::decode(&[2, 1, 0xbf, 0, 0, 0, 0, 0])
    );
    assert_eq!(
        Err(DecodeError::Framing(FrameField::Recipient)),
        Message::decode(&[2, 0, 1, 0xbf, 0, 0, 0, 0])
    );
    assert_eq!(
        Err(DecodeError::Framing(FrameField::Body)),
        Message::decode(&[1, 0, 0, 0, 0, 0, 1, 0xbf])
    );
}

#[test]
fn decode_ignores_bytes_after_the_frame() {
    let m = Message::new(MessageType::Heart, String::from("a"), String::from("b"));
    let mut bytes = m.to_bytes().unwrap();
    bytes.extend_from_slice(&[1, 2, 3]);
    let decoded = Message::decode(&bytes).unwrap().unwrap();
    assert_eq!(m, decoded);
}

#[test]
fn decode_heartbeat_ignores_declared_body() {
    // a heartbeat whose frame carries body bytes still decodes, body ignored
    let bytes = expected_frame(0, "a", "b", "junk");
    let decoded = Message::decode(&bytes).unwrap().unwrap();
    assert_eq!(MessageType::Heart, decoded.message_type);
}

#[test]
fn encode_rejects_identity_longer_than_255_bytes() {
    let long = "x".repeat(256);
    let m = Message::new(MessageType::Heart, long.clone(), String::from("b"));
    assert_eq!(Err(EncodeError::IdentityTooLong), m.to_bytes());
    let m = Message::new(MessageType::Heart, String::from("a"), long);
    assert_eq!(Err(EncodeError::IdentityTooLong), m.to_bytes());
}

#[test]
fn encode_accepts_identity_of_exactly_255_bytes() {
    let longest = "x".repeat(255);
    let m = Message::new(MessageType::Heart, longest, String::new());
    let bytes = m.to_bytes().unwrap();
    let decoded = Message::decode(&bytes).unwrap().unwrap();
    assert_eq!(m, decoded);
}
