use dvorak_message::message::MessageType;

#[test]
fn parse_text_succuss() {
    let body = String::from("test TEST");
    let body = body.into_bytes();
    let res = MessageType::parse(1, Some(body));

    assert_eq!(Ok(MessageType::Text(String::from("test TEST"))), res);
}

#[test]
fn parse_heart_success() {
    let res = MessageType::parse(0, None);

    assert_eq!(Ok(MessageType::Heart), res);
}

#[test]
fn text_body_length_success() {
    let body = String::from("我I哒哒哒");
    let len = body.as_bytes().len() as u32;
    let body_bytes = body.into_bytes();
    let res = MessageType::parse(1, Some(body_bytes)).unwrap();

    let body_len = res.body_length();

    assert_eq!(len, body_len);
}

#[test]
fn heart_body_length() {
    let res = MessageType::parse(0, None).unwrap();

    let body_len = res.body_length();

    assert_eq!(0, body_len);
}

#[test]
fn message_type_parse_text_succuss() {
    let body = String::from("test TEST");
    let body = body.into_bytes();
    let res = MessageType::parse(1, Some(body));

    assert_eq!(Ok(MessageType::Text(String::from("test TEST"))), res);
}

#[test]
fn message_type_parse_heart_success() {
    let res = MessageType::parse(0, None);

    assert_eq!(Ok(MessageType::Heart), res);
}

#[test]
fn message_type_text_body_length_success() {
    let body = String::from("我I哒哒哒");
    let len = body.as_bytes().len() as u32;
    let body_bytes = body.into_bytes();
    let res = MessageType::parse(1, Some(body_bytes)).unwrap();

    let body_len = res.body_length();

    assert_eq!(len, body_len);
}

#[test]
fn message_type_heart_body_length() {
    let res = MessageType::parse(0, None).unwrap();

    let body_len = res.body_length();

    assert_eq!(0, body_len);
}

#[test]
fn parse_login_success() {
    assert_eq!(Ok(MessageType::Login), MessageType::parse(2, None));
}

#[test]
fn parse_logout_success() {
    assert_eq!(Ok(MessageType::Logout), MessageType::parse(3, None));
}

#[test]
fn parse_unknown_value_fails() {
    let res = MessageType::parse(7, None);
    assert!(res.is_err());
    assert_eq!("unsupported value", res.unwrap_err().description);
}

#[test]
fn parse_invalid_utf8_body_fails() {
    let res = MessageType::parse(1, Some(vec![0xff, 0xfe]));
    assert!(res.is_err());
    assert_eq!("body is not valid utf-8", res.unwrap_err().description);
}

#[test]
fn value_round_trips_each_kind() {
    assert_eq!(0, MessageType::Heart.value());
    assert_eq!(1, MessageType::Text(String::from("x")).value());
    assert_eq!(2, MessageType::Login.value());
    assert_eq!(3, MessageType::Logout.value());
}

#[test]
fn as_bytes_gives_utf8_of_text() {
    let t = MessageType::Text(String::from("héllo"));
    assert_eq!("héllo".as_bytes().to_vec(), t.as_bytes());
    assert_eq!(Vec::<u8>::new(), MessageType::Heart.as_bytes());
}
