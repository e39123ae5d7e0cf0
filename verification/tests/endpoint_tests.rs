use etron::bus::BusRecv;
use etron::codec::{decode, encode};
use etron::endpoint::{
    activate, begin_disconnect, cleanup, connect_client, create_handles, phase_step, Frame,
    LifecycleEvent, Phase,
};
use etron::mailbox::{Error, RecvOutcome};
use etron::model::{ClientId, Message, MessageBody, Post, PostHeader, Timestamp};
use etron::router::Broker;

fn frame_of(m: &Message) -> Frame {
    Frame::Binary(encode(m))
}

#[test]
fn good_frame_reaches_the_router_as_sent() {
    let mut broker = Broker::new(8);
    let conn = connect_client(&mut broker, ClientId(1)).unwrap();
    let (reader, _) = create_handles(&conn);
    let sent = Message::new(ClientId(1), Timestamp(4), MessageBody::Query(String::from("hi")));
    let routed = reader.frame_to_router(Timestamp(9), &frame_of(&sent));
    assert_eq!(routed.sender().0, 1);
    assert_eq!(routed.time().0, 4);
    match routed.body() {
        MessageBody::Query(s) => assert_eq!(s, "hi"),
        _ => panic!("wrong variant"),
    }
}

#[test]
fn garbage_frame_becomes_an_error_notice_to_self() {
    let mut broker = Broker::new(8);
    let conn = connect_client(&mut broker, ClientId(7)).unwrap();
    let (reader, _) = create_handles(&conn);
    let garbage = Frame::Binary(vec![0xDE, 0xAD, 0xBE, 0xEF]);
    let routed = reader.frame_to_router(Timestamp(9), &garbage);
    // The reader reports itself as the offender, in the server's name.
    assert_eq!(routed.sender().0, 0);
    match routed.body() {
        MessageBody::Error { criminal, error } => {
            assert_eq!(criminal.0, 7);
            assert_eq!(error, "message truncated");
        }
        _ => panic!("wrong variant"),
    }
    // Routing that notice delivers it back into the offender's mailbox.
    assert_eq!(broker.handle_message(routed, Timestamp(10)), None);
    match broker.mailbox.recv(&conn.reader) {
        RecvOutcome::Received(m) => match m.body() {
            MessageBody::Error { criminal, .. } => assert_eq!(criminal.0, 7),
            _ => panic!("wrong variant"),
        },
        _ => panic!("the notice must land in the offender's mailbox"),
    }
}

#[test]
fn text_and_binary_frames_decode_alike() {
    let reader = {
        let mut broker = Broker::new(8);
        let conn = connect_client(&mut broker, ClientId(3)).unwrap();
        create_handles(&conn).0
    };
    // A frame that is not a message at all, in both framings.
    let text = Frame::Text(String::from("not a wire message"));
    let binary = Frame::Binary(String::from("not a wire message").into_bytes());
    let from_text = reader.frame_to_router(Timestamp(1), &text);
    let from_binary = reader.frame_to_router(Timestamp(1), &binary);
    match (from_text.body(), from_binary.body()) {
        (
            MessageBody::Error { criminal: c1, error: e1 },
            MessageBody::Error { criminal: c2, error: e2 },
        ) => {
            assert_eq!(c1.0, c2.0);
            assert_eq!(e1, e2);
        }
        _ => panic!("both framings must fail the same way"),
    }
}

#[test]
fn no_client_hears_its_own_broadcast() {
    let mut broker = Broker::new(8);
    let a = connect_client(&mut broker, ClientId(1)).unwrap();
    let b = connect_client(&mut broker, ClientId(2)).unwrap();
    let (reader_a, _) = create_handles(&a);
    let (reader_b, _) = create_handles(&b);
    let q = Message::new(ClientId(1), Timestamp(0), MessageBody::Query(String::from("hi")));
    assert!(reader_a.forward_broadcast(q.clone()).is_none());
    let forwarded = reader_b.forward_broadcast(q).expect("another client's query is forwarded");
    assert_eq!(forwarded.sender().0, 1);
}

#[test]
fn first_message_a_new_client_receives_is_connected_self() {
    let mut broker = Broker::new(8);
    let mut conn = connect_client(&mut broker, ClientId(9)).unwrap();
    let (_, mut writer) = create_handles(&conn);
    let bytes = activate(&mut conn, &mut writer, Timestamp(77));
    assert!(matches!(conn.phase, Phase::Active));
    let first = decode(&bytes).expect("the welcome notice is a well-formed message");
    assert_eq!(first.sender().0, 0);
    assert_eq!(first.time().0, 77);
    match first.body() {
        MessageBody::Connected(id) => assert_eq!(id.0, 9),
        _ => panic!("the first message must be the connected notice"),
    }
}

#[test]
fn writer_serializes_exactly_and_in_order() {
    let mut broker = Broker::new(8);
    let conn = connect_client(&mut broker, ClientId(9)).unwrap();
    let (_, mut writer) = create_handles(&conn);
    let m1 = Message::new(ClientId(1), Timestamp(1), MessageBody::Query(String::from("one")));
    let m2 = Message::new(
        ClientId(2),
        Timestamp(2),
        MessageBody::Post {
            target: ClientId(9),
            post: Post {
                header: PostHeader {
                    id: ClientId(5),
                    posted: Timestamp(6),
                    title: String::from("t"),
                },
                content: String::from("c"),
            },
        },
    );
    let b1 = writer.write(&m1);
    let b2 = writer.write(&m2);
    assert_eq!(b1, encode(&m1));
    assert_eq!(b2, encode(&m2));
}

#[test]
fn duplicate_identifier_makes_no_connection() {
    let mut broker = Broker::new(8);
    let first = connect_client(&mut broker, ClientId(4));
    assert!(first.is_some());
    let second = connect_client(&mut broker, ClientId(4));
    assert!(second.is_none());
}

#[test]
fn lifecycle_walks_its_four_phases() {
    assert_eq!(phase_step(Phase::Connecting, LifecycleEvent::Activated), Phase::Active);
    assert_eq!(phase_step(Phase::Active, LifecycleEvent::TaskEnded), Phase::Disconnecting);
    assert_eq!(phase_step(Phase::Disconnecting, LifecycleEvent::Cleaned), Phase::Removed);
    // No event moves a connection anywhere else.
    assert_eq!(phase_step(Phase::Connecting, LifecycleEvent::TaskEnded), Phase::Connecting);
    assert_eq!(phase_step(Phase::Active, LifecycleEvent::Activated), Phase::Active);
    assert_eq!(phase_step(Phase::Removed, LifecycleEvent::Cleaned), Phase::Removed);
}

#[test]
fn cleanup_removes_the_mailbox() {
    let mut broker = Broker::new(8);
    let mut conn = connect_client(&mut broker, ClientId(4)).unwrap();
    let (_, mut writer) = create_handles(&conn);
    let _welcome = activate(&mut conn, &mut writer, Timestamp(1));
    begin_disconnect(&mut conn);
    assert!(matches!(conn.phase, Phase::Disconnecting));
    let last = cleanup(&mut broker, conn);
    assert_eq!(last, Phase::Removed);
    assert!(!broker.mailbox.contains_client(ClientId(4)));
    let stray = Message::new(
        ClientId(1),
        Timestamp(0),
        MessageBody::Get { target: ClientId(4), id: ClientId(1) },
    );
    assert_eq!(broker.handle_message(stray, Timestamp(2)), Some(Error::DoesNotExist(ClientId(4))));
}

#[test]
fn relay_scenario_end_to_end() {
    let mut broker = Broker::new(128);
    let ts = Timestamp(100);

    // Client A connects and receives Connected(A) first.
    let mut conn_a = connect_client(&mut broker, ClientId(1)).expect("a connects");
    let (reader_a, mut writer_a) = create_handles(&conn_a);
    let welcome_a = decode(&activate(&mut conn_a, &mut writer_a, ts)).unwrap();
    match welcome_a.body() {
        MessageBody::Connected(id) => assert_eq!(id.0, 1),
        _ => panic!("a's first message must be its connected notice"),
    }

    // Client B connects and receives Connected(B) first.
    let mut conn_b = connect_client(&mut broker, ClientId(2)).expect("b connects");
    let (reader_b, mut writer_b) = create_handles(&conn_b);
    let welcome_b = decode(&activate(&mut conn_b, &mut writer_b, ts)).unwrap();
    match welcome_b.body() {
        MessageBody::Connected(id) => assert_eq!(id.0, 2),
        _ => panic!("b's first message must be its connected notice"),
    }

    // A sends Query("hi") through its reader; the router broadcasts it.
    let query = Message::new(ClientId(1), Timestamp(101), MessageBody::Query(String::from("hi")));
    let routed = reader_a.frame_to_router(ts, &frame_of(&query));
    assert_eq!(broker.handle_message(routed, ts), None);

    // B's next received message is that query, from A.
    match conn_b.sub.recv(&broker.bus) {
        BusRecv::Received(m) => {
            let m = reader_b.forward_broadcast(m).expect("b forwards a's query");
            assert_eq!(m.sender().0, 1);
            match m.body() {
                MessageBody::Query(s) => assert_eq!(s, "hi"),
                _ => panic!("wrong variant"),
            }
        }
        _ => panic!("b must observe the query"),
    }

    // A receives nothing: its own broadcast is filtered out, and its
    // mailbox stays empty.
    match conn_a.sub.recv(&broker.bus) {
        BusRecv::Received(m) => assert!(reader_a.forward_broadcast(m).is_none()),
        _ => panic!("the bus offers the query to a's cursor too"),
    }
    assert!(matches!(broker.mailbox.recv(&conn_a.reader), RecvOutcome::Empty));

    // A disconnects.
    begin_disconnect(&mut conn_a);
    assert_eq!(cleanup(&mut broker, conn_a), Phase::Removed);

    // B posts to the gone A: the send fails as not found, fire and
    // forget — B gets no error notice.
    let stray = Message::new(
        ClientId(2),
        Timestamp(102),
        MessageBody::Post {
            target: ClientId(1),
            post: Post {
                header: PostHeader {
                    id: ClientId(8),
                    posted: Timestamp(9),
                    title: String::from("t"),
                },
                content: String::from("c"),
            },
        },
    );
    let routed = reader_b.frame_to_router(ts, &frame_of(&stray));
    assert_eq!(broker.handle_message(routed, ts), Some(Error::DoesNotExist(ClientId(1))));
    assert!(matches!(broker.mailbox.recv(&conn_b.reader), RecvOutcome::Empty));
    assert!(matches!(conn_b.sub.recv(&broker.bus), BusRecv::Empty));
}
