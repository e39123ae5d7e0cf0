use etron::bus::{Bus, BusRecv};
use etron::model::{ClientId, Message, MessageBody, Timestamp};

fn query(sender: u128, text: &str) -> Message {
    Message::new(ClientId(sender), Timestamp(0), MessageBody::Query(String::from(text)))
}

fn payload(r: BusRecv) -> String {
    match r {
        BusRecv::Received(m) => match m.body() {
            MessageBody::Query(s) => s.clone(),
            _ => panic!("wrong variant"),
        },
        other => panic!("expected a message, got {:?}", kind(&other)),
    }
}

fn kind(r: &BusRecv) -> &'static str {
    match r {
        BusRecv::Received(..) => "received",
        BusRecv::Lagged(..) => "lagged",
        BusRecv::Empty => "empty",
    }
}

#[test]
fn subscriber_sees_published_messages_in_order() {
    let mut bus = Bus::new(8);
    let mut sub = bus.subscribe();
    bus.publish(query(1, "a"));
    bus.publish(query(1, "b"));
    assert_eq!(payload(sub.recv(&bus)), "a");
    assert_eq!(payload(sub.recv(&bus)), "b");
    assert!(matches!(sub.recv(&bus), BusRecv::Empty));
}

#[test]
fn new_subscriber_sees_only_what_comes_later() {
    let mut bus = Bus::new(8);
    bus.publish(query(1, "before"));
    let mut sub = bus.subscribe();
    assert!(matches!(sub.recv(&bus), BusRecv::Empty));
    bus.publish(query(1, "after"));
    assert_eq!(payload(sub.recv(&bus)), "after");
}

#[test]
fn slow_subscriber_is_told_exactly_how_much_it_missed() {
    let mut bus = Bus::new(2);
    let mut sub = bus.subscribe();
    bus.publish(query(1, "m1"));
    bus.publish(query(1, "m2"));
    bus.publish(query(1, "m3"));
    bus.publish(query(1, "m4"));
    // Capacity 2: m1 and m2 fell off the ring before this cursor moved.
    match sub.recv(&bus) {
        BusRecv::Lagged(n) => assert_eq!(n, 2),
        other => panic!("expected lag, got {}", kind(&other)),
    }
    assert_eq!(payload(sub.recv(&bus)), "m3");
    assert_eq!(payload(sub.recv(&bus)), "m4");
    assert!(matches!(sub.recv(&bus), BusRecv::Empty));
}

#[test]
fn slow_subscriber_does_not_block_others() {
    let mut bus = Bus::new(2);
    let mut slow = bus.subscribe();
    let mut fast = bus.subscribe();
    bus.publish(query(1, "m1"));
    assert_eq!(payload(fast.recv(&bus)), "m1");
    bus.publish(query(1, "m2"));
    assert_eq!(payload(fast.recv(&bus)), "m2");
    bus.publish(query(1, "m3"));
    assert_eq!(payload(fast.recv(&bus)), "m3");
    match slow.recv(&bus) {
        BusRecv::Lagged(n) => assert_eq!(n, 1),
        other => panic!("expected lag, got {}", kind(&other)),
    }
    assert_eq!(payload(slow.recv(&bus)), "m2");
    assert_eq!(payload(slow.recv(&bus)), "m3");
}

#[test]
fn subscribers_are_independent_cursors() {
    let mut bus = Bus::new(8);
    let mut s1 = bus.subscribe();
    let mut s2 = bus.subscribe();
    bus.publish(query(1, "x"));
    assert_eq!(payload(s1.recv(&bus)), "x");
    // Reading through one cursor moves nothing for the other.
    assert_eq!(payload(s2.recv(&bus)), "x");
    assert!(matches!(s1.recv(&bus), BusRecv::Empty));
}
