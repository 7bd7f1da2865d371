use dvorak_message::client::{Client, ClientAction};
use dvorak_message::input::{Instruct, InputType};
use dvorak_message::message::{Message, MessageType};

#[test]
fn plain_line_is_text() {
    assert_eq!(
        Ok(InputType::Text(String::from("hello there"))),
        InputType::parse("hello there")
    );
}

#[test]
fn line_is_trimmed() {
    assert_eq!(
        Ok(InputType::Text(String::from("hello"))),
        InputType::parse("   hello \t\n")
    );
    assert_eq!(Ok(InputType::Text(String::new())), InputType::parse("   "));
    assert_eq!(Ok(InputType::Text(String::new())), InputType::parse(""));
}

#[test]
fn quit_instruction() {
    assert_eq!(
        Ok(InputType::Instruct(Instruct::Quit)),
        InputType::parse("/quit")
    );
    assert_eq!(
        Ok(InputType::Instruct(Instruct::Quit)),
        InputType::parse("  /quit  ")
    );
}

#[test]
fn to_instruction_takes_a_trimmed_name() {
    assert_eq!(
        Ok(InputType::Instruct(Instruct::To(String::from("bob")))),
        InputType::parse("/to: bob")
    );
    assert_eq!(
        Ok(InputType::Instruct(Instruct::To(String::from("bob")))),
        InputType::parse("/to:bob")
    );
}

#[test]
fn unknown_instruction_is_an_error() {
    assert_eq!(Err(String::from("nope")), InputType::parse("/nope"));
}

#[test]
fn double_slash_escapes_a_literal_slash() {
    assert_eq!(
        Ok(InputType::Text(String::from("/quit"))),
        InputType::parse("//quit")
    );
}

#[test]
fn instruct_new_resolves_each_form() {
    assert_eq!(Ok(Instruct::Quit), Instruct::new("quit"));
    assert_eq!(Ok(Instruct::To(String::from("carol"))), Instruct::new("to: carol"));
    assert_eq!(Err(String::from("quitx")), Instruct::new("quitx"));
}

#[test]
fn client_sends_text_only_once_addressed() {
    let mut c = Client::new(String::from("alice"));

    // no recipient chosen yet: the line goes nowhere
    let action = c.handle_input(InputType::Text(String::from("hello")));
    assert_eq!(ClientAction::Ignore, action);

    let action = c.handle_input(InputType::Instruct(Instruct::To(String::from("bob"))));
    assert_eq!(ClientAction::Ignore, action);
    assert_eq!(Some(String::from("bob")), c.receiver);

    let action = c.handle_input(InputType::Text(String::from("hello")));
    assert_eq!(
        ClientAction::Send(Message::new(
            MessageType::Text(String::from("hello")),
            String::from("alice"),
            String::from("bob"),
        )),
        action
    );
}

#[test]
fn client_quit_stops() {
    let mut c = Client::new(String::from("alice"));
    let action = c.handle_input(InputType::Instruct(Instruct::Quit));
    assert_eq!(ClientAction::Quit, action);
}
