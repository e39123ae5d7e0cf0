use etron::model::{ClientId, Message, MessageBody, Timestamp};

#[test]
fn fresh_identifiers_are_never_nil() {
    for _ in 0..32 {
        let id = ClientId::fresh();
        assert!(!id.is_nil());
        assert_ne!(id.0, 0);
    }
}

#[test]
fn fresh_identifiers_differ() {
    let a = ClientId::fresh();
    let b = ClientId::fresh();
    assert_ne!(a.0, b.0);
}

#[test]
fn nil_is_the_server_identifier() {
    let nil = ClientId::nil();
    assert_eq!(nil.0, 0);
    assert!(nil.is_nil());
}

#[test]
fn now_is_a_recent_wall_clock() {
    // Milliseconds since the Unix epoch: past the start of 2020, and
    // no further out than the year 3000.
    let t = Timestamp::now();
    assert!(t.0 > 1_577_836_800_000);
    assert!(t.0 < 32_503_680_000_000);
}

#[test]
fn new_keeps_every_field() {
    let m = Message::new(ClientId(3), Timestamp(4), MessageBody::Query(String::from("q")));
    assert_eq!(m.sender().0, 3);
    assert_eq!(m.time().0, 4);
    match m.body() {
        MessageBody::Query(s) => assert_eq!(s, "q"),
        _ => panic!("wrong variant"),
    }
}

#[test]
fn builder_defaults_to_the_server_sender() {
    let m = Message::builder().body(MessageBody::Connected(ClientId(5))).build();
    assert!(m.sender().is_nil());
    match m.body() {
        MessageBody::Connected(id) => assert_eq!(id.0, 5),
        _ => panic!("wrong variant"),
    }
}

#[test]
fn builder_set_fields_win() {
    let m = Message::builder()
        .sender(ClientId(8))
        .time(Timestamp(123))
        .body(MessageBody::Query(String::from("q")))
        .build();
    assert_eq!(m.sender().0, 8);
    assert_eq!(m.time().0, 123);
}

#[test]
fn clone_carries_the_same_value() {
    let m = Message::new(ClientId(3), Timestamp(4), MessageBody::Query(String::from("payload")));
    let c = m.clone();
    assert_eq!(c.sender().0, 3);
    assert_eq!(c.time().0, 4);
    match c.body() {
        MessageBody::Query(s) => assert_eq!(s, "payload"),
        _ => panic!("wrong variant"),
    }
}
