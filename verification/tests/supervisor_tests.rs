use dvorak_message::supervisor::{
    ClientMessage, ClientSupervisor, RouteOutcome, SupervisorEffect, SupervisorMessage,
};

#[test]
fn routing_correctness_delivers_exactly_once() {
    let mut sup = ClientSupervisor::new();
    let a = String::from("A");
    let b = String::from("B");
    assert!(sup.register_session(a.clone()));
    assert!(sup.register_session(b.clone()));

    let out = sup.route_text(&a, &b, String::from("hi"));
    assert_eq!(RouteOutcome::Delivered, out);

    // exactly one event in B's mailbox, none in A's
    assert_eq!(Some(1), sup.mailbox_len(&b));
    assert_eq!(Some(0), sup.mailbox_len(&a));
    assert_eq!(
        Some(ClientMessage::ReceiveMessage(a.clone(), String::from("hi"))),
        sup.take_event(&b)
    );
    assert_eq!(None, sup.take_event(&b));
    assert_eq!(None, sup.take_event(&a));
}

#[test]
fn routing_miss_is_a_silent_drop() {
    let mut sup = ClientSupervisor::new();
    let a = String::from("A");
    let ghost_name = String::from("ghost");
    assert!(sup.register_session(a.clone()));

    let out = sup.route_text(&a, &ghost_name, String::from("hi"));
    assert_eq!(RouteOutcome::Dropped, out);
    assert_eq!(Some(0), sup.mailbox_len(&a));

    // an unregistered sender is dropped too
    let out = sup.route_text(&ghost_name, &a, String::from("hi"));
    assert_eq!(RouteOutcome::Dropped, out);
    assert_eq!(Some(0), sup.mailbox_len(&a));
}

#[test]
fn second_login_for_live_identity_is_rejected() {
    let mut sup = ClientSupervisor::new();
    let a = String::from("A");
    assert!(sup.register_session(a.clone()));
    assert!(!sup.register_session(a.clone()));
    assert!(sup.is_registered(&a));
}

#[test]
fn deregistration_cascade() {
    let mut sup = ClientSupervisor::new();
    let a = String::from("A");
    let x = String::from("X");
    assert!(sup.register_session(a.clone()));
    assert!(sup.register_session(x.clone()));

    let departed = sup.deregister(&a).unwrap();
    // A's handler receives exactly one Terminate event
    assert_eq!(vec![ClientMessage::Terminate], *departed.events());
    assert!(!sup.is_registered(&a));

    // a later route to A is a no-op
    let out = sup.route_text(&x, &a, String::from("late"));
    assert_eq!(RouteOutcome::Dropped, out);

    // deregistering again is idempotent
    assert!(sup.deregister(&a).is_none());
}

#[test]
fn shutdown_completeness() {
    let mut sup = ClientSupervisor::new();
    let a = String::from("A");
    let b = String::from("B");
    assert!(sup.register_session(a.clone()));
    assert!(sup.register_session(b.clone()));
    assert_eq!(
        RouteOutcome::Delivered,
        sup.route_text(&a, &b, String::from("hi"))
    );

    let departed = sup.shutdown();
    assert_eq!(2, departed.len());
    assert_eq!(a, departed[0].identity);
    assert_eq!(vec![ClientMessage::Terminate], *departed[0].mailbox.events());
    assert_eq!(b, departed[1].identity);
    // B keeps its pending delivery, then exactly one Terminate
    assert_eq!(
        vec![
            ClientMessage::ReceiveMessage(a.clone(), String::from("hi")),
            ClientMessage::Terminate
        ],
        *departed[1].mailbox.events()
    );

    // the registry is empty and the supervisor is terminal
    assert!(!sup.is_registered(&a));
    assert!(!sup.is_registered(&b));
    assert!(!sup.register_session(String::from("C")));
    assert_eq!(
        RouteOutcome::Dropped,
        sup.route_text(&a, &b, String::from("x"))
    );
}

#[test]
fn full_mailbox_refuses_the_line() {
    let mut sup = ClientSupervisor::with_capacity(1);
    let a = String::from("A");
    let b = String::from("B");
    assert!(sup.register_session(a.clone()));
    assert!(sup.register_session(b.clone()));

    assert_eq!(
        RouteOutcome::Delivered,
        sup.route_text(&a, &b, String::from("one"))
    );
    assert_eq!(
        RouteOutcome::MailboxFull,
        sup.route_text(&a, &b, String::from("two"))
    );
    assert_eq!(Some(1), sup.mailbox_len(&b));

    // draining one event makes room again
    assert_eq!(
        Some(ClientMessage::ReceiveMessage(a.clone(), String::from("one"))),
        sup.take_event(&b)
    );
    assert_eq!(
        RouteOutcome::Delivered,
        sup.route_text(&a, &b, String::from("two"))
    );
}

#[test]
fn events_are_delivered_in_order() {
    let mut sup = ClientSupervisor::new();
    let a = String::from("A");
    let b = String::from("B");
    assert!(sup.register_session(a.clone()));
    assert!(sup.register_session(b.clone()));

    sup.route_text(&a, &b, String::from("first"));
    sup.route_text(&a, &b, String::from("second"));
    assert_eq!(
        Some(ClientMessage::ReceiveMessage(a.clone(), String::from("first"))),
        sup.take_event(&b)
    );
    assert_eq!(
        Some(ClientMessage::ReceiveMessage(a.clone(), String::from("second"))),
        sup.take_event(&b)
    );
}

#[test]
fn handle_message_drives_each_operation() {
    let mut sup = ClientSupervisor::new();
    let effect = sup.handle_message(SupervisorMessage::NewClient(String::from("A")));
    assert_eq!(SupervisorEffect::Registered(true), effect);
    let effect = sup.handle_message(SupervisorMessage::NewClient(String::from("B")));
    assert_eq!(SupervisorEffect::Registered(true), effect);

    let effect = sup.handle_message(SupervisorMessage::Message {
        sender: String::from("A"),
        receiver: String::from("B"),
        message: String::from("hello"),
    });
    assert_eq!(SupervisorEffect::Routed(RouteOutcome::Delivered), effect);

    let effect = sup.handle_message(SupervisorMessage::DisconnectClient(String::from("A")));
    match effect {
        SupervisorEffect::Disconnected(Some(mb)) => {
            assert_eq!(vec![ClientMessage::Terminate], *mb.events());
        }
        other => panic!("unexpected effect {:?}", other),
    }

    let effect = sup.handle_message(SupervisorMessage::Terminate);
    match effect {
        SupervisorEffect::Stopped(departed) => {
            assert_eq!(1, departed.len());
            assert_eq!("B", departed[0].identity);
        }
        other => panic!("unexpected effect {:?}", other),
    }
}

#[test]
fn concrete_scenario_alice_and_bob() {
    let mut sup = ClientSupervisor::new();
    let alice = String::from("alice");
    let bob = String::from("bob");
    assert!(sup.register_session(alice.clone()));
    assert!(sup.register_session(bob.clone()));

    let out = sup.route_text(&alice, &bob, String::from("hello"));
    assert_eq!(RouteOutcome::Delivered, out);
    assert_eq!(
        Some(ClientMessage::ReceiveMessage(
            String::from("alice"),
            String::from("hello")
        )),
        sup.take_event(&bob)
    );

    // "alice" logs out
    let departed = sup.deregister(&alice).unwrap();
    assert_eq!(vec![ClientMessage::Terminate], *departed.events());

    // a later line from "alice" is dropped
    let out = sup.route_text(&alice, &bob, String::from("x"));
    assert_eq!(RouteOutcome::Dropped, out);
    assert_eq!(Some(0), sup.mailbox_len(&bob));
}
