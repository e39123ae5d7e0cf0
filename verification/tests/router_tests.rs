use etron::bus::BusRecv;
use etron::endpoint::connect_client;
use etron::mailbox::{Error, RecvOutcome};
use etron::model::{ClientId, Message, MessageBody, Post, PostHeader, Timestamp};
use etron::router::Broker;

fn query(sender: u128, text: &str) -> Message {
    Message::new(ClientId(sender), Timestamp(0), MessageBody::Query(String::from(text)))
}

fn post_to(sender: u128, target: u128) -> Message {
    Message::new(
        ClientId(sender),
        Timestamp(1),
        MessageBody::Post {
            target: ClientId(target),
            post: Post {
                header: PostHeader {
                    id: ClientId(50),
                    posted: Timestamp(51),
                    title: String::from("t"),
                },
                content: String::from("c"),
            },
        },
    )
}

#[test]
fn query_goes_to_the_bus() {
    let mut broker = Broker::new(8);
    let a = connect_client(&mut broker, ClientId(1)).unwrap();
    let mut sub_a = a.sub;
    let r = broker.handle_message(query(2, "hello"), Timestamp(5));
    assert_eq!(r, None);
    match sub_a.recv(&broker.bus) {
        BusRecv::Received(m) => {
            assert_eq!(m.sender().0, 2);
            match m.body() {
                MessageBody::Query(s) => assert_eq!(s, "hello"),
                _ => panic!("wrong variant"),
            }
        }
        _ => panic!("the query must be on the bus"),
    }
    // A query touches no mailbox.
    assert!(matches!(broker.mailbox.recv(&a.reader), RecvOutcome::Empty));
}

#[test]
fn post_goes_to_its_target_only() {
    let mut broker = Broker::new(8);
    let b = connect_client(&mut broker, ClientId(2)).unwrap();
    let c = connect_client(&mut broker, ClientId(3)).unwrap();
    let r = broker.handle_message(post_to(1, 2), Timestamp(5));
    assert_eq!(r, None);
    match broker.mailbox.recv(&b.reader) {
        RecvOutcome::Received(m) => {
            assert_eq!(m.sender().0, 1);
            match m.body() {
                MessageBody::Post { target, post } => {
                    assert_eq!(target.0, 2);
                    assert_eq!(post.content, "c");
                }
                _ => panic!("wrong variant"),
            }
        }
        _ => panic!("the target must receive the post"),
    }
    assert!(matches!(broker.mailbox.recv(&c.reader), RecvOutcome::Empty));
}

#[test]
fn response_and_get_go_to_their_target() {
    let mut broker = Broker::new(8);
    let b = connect_client(&mut broker, ClientId(2)).unwrap();
    let response = Message::new(
        ClientId(1),
        Timestamp(2),
        MessageBody::Response { target: ClientId(2), posts: Vec::new() },
    );
    let get = Message::new(
        ClientId(1),
        Timestamp(3),
        MessageBody::Get { target: ClientId(2), id: ClientId(9) },
    );
    assert_eq!(broker.handle_message(response, Timestamp(5)), None);
    assert_eq!(broker.handle_message(get, Timestamp(6)), None);
    match broker.mailbox.recv(&b.reader) {
        RecvOutcome::Received(m) => assert!(matches!(m.body(), MessageBody::Response { .. })),
        _ => panic!("the response is missing"),
    }
    match broker.mailbox.recv(&b.reader) {
        RecvOutcome::Received(m) => assert!(matches!(m.body(), MessageBody::Get { .. })),
        _ => panic!("the get is missing"),
    }
}

#[test]
fn post_to_missing_target_is_dropped_with_not_found() {
    let mut broker = Broker::new(8);
    let r = broker.handle_message(post_to(1, 99), Timestamp(5));
    assert_eq!(r, Some(Error::DoesNotExist(ClientId(99))));
}

#[test]
fn server_error_notice_reaches_the_offender() {
    let mut broker = Broker::new(8);
    let offender = connect_client(&mut broker, ClientId(4)).unwrap();
    // An error whose sender is the server identifier is forwarded to the
    // named offender, restamped by the router.
    let notice = Message::new(
        ClientId(0),
        Timestamp(1),
        MessageBody::Error { criminal: ClientId(4), error: String::from("bad frame") },
    );
    assert_eq!(broker.handle_message(notice, Timestamp(7)), None);
    match broker.mailbox.recv(&offender.reader) {
        RecvOutcome::Received(m) => {
            assert_eq!(m.sender().0, 0);
            assert_eq!(m.time().0, 7);
            match m.body() {
                MessageBody::Error { criminal, error } => {
                    assert_eq!(criminal.0, 4);
                    assert_eq!(error, "bad frame");
                }
                _ => panic!("wrong variant"),
            }
        }
        _ => panic!("the offender must get the notice"),
    }
}

#[test]
fn client_forged_error_earns_an_unsupported_notice() {
    let mut broker = Broker::new(8);
    let sender = connect_client(&mut broker, ClientId(5)).unwrap();
    // Only the server may originate error notices: a client-sent one is
    // an unsupported shape and bounces back at its sender.
    let forged = Message::new(
        ClientId(5),
        Timestamp(1),
        MessageBody::Error { criminal: ClientId(2), error: String::from("gotcha") },
    );
    assert_eq!(broker.handle_message(forged, Timestamp(7)), None);
    match broker.mailbox.recv(&sender.reader) {
        RecvOutcome::Received(m) => {
            assert_eq!(m.sender().0, 0);
            match m.body() {
                MessageBody::Error { criminal, error } => {
                    assert_eq!(criminal.0, 5);
                    assert_eq!(error, "unsupported client side message");
                }
                _ => panic!("wrong variant"),
            }
        }
        _ => panic!("the sender must get the notice"),
    }
}

#[test]
fn connected_from_a_client_earns_an_unsupported_notice() {
    let mut broker = Broker::new(8);
    let sender = connect_client(&mut broker, ClientId(6)).unwrap();
    let forged = Message::new(ClientId(6), Timestamp(1), MessageBody::Connected(ClientId(6)));
    assert_eq!(broker.handle_message(forged, Timestamp(7)), None);
    match broker.mailbox.recv(&sender.reader) {
        RecvOutcome::Received(m) => match m.body() {
            MessageBody::Error { criminal, error } => {
                assert_eq!(criminal.0, 6);
                assert_eq!(error, "unsupported client side message");
            }
            _ => panic!("wrong variant"),
        },
        _ => panic!("the sender must get the notice"),
    }
}

#[test]
fn router_survives_every_shape_without_a_target() {
    let mut broker = Broker::new(8);
    // Nobody is connected: every dispatch fails to deliver, and each
    // failure is reported, never raised.
    let shapes = vec![
        query(1, "q"),
        post_to(1, 2),
        Message::new(
            ClientId(1),
            Timestamp(0),
            MessageBody::Get { target: ClientId(2), id: ClientId(3) },
        ),
        Message::new(ClientId(1), Timestamp(0), MessageBody::Connected(ClientId(1))),
        Message::new(
            ClientId(0),
            Timestamp(0),
            MessageBody::Error { criminal: ClientId(9), error: String::from("x") },
        ),
    ];
    let mut failures = 0;
    for m in shapes {
        if broker.handle_message(m, Timestamp(1)).is_some() {
            failures += 1;
        }
    }
    // The query is published regardless; the other four all miss.
    assert_eq!(failures, 4);
}
