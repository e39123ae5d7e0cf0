//! The routing state machine: the single task that owns the broker's
//! cross-client knowledge and dispatches every inbound message.
//!
//! Per message, by body: a `Query` goes to the broadcast bus; `Post`,
//! `Response` and `Get` go to their target's mailbox; an `Error` whose
//! sender is the server identifier is forwarded to the named offender; any
//! other shape earns its sender an `Error` notice. Delivery failures are
//! reported to the caller and swallowed: the router itself never stops,
//! and none of these functions can panic.

use vstd::prelude::*;

use crate::bus::{bus_total, bus_wf, spec_publish, Bus};
use crate::mailbox::{
    mailbox_wf, spec_send_entries, spec_send_result, Error, MailBox, MailboxView,
};
use crate::model::{BodyView, ClientId, Message, MessageBody, MessageView, Timestamp};

verus! {

/// The fault text sent back for a message shape the broker does not
/// route.
pub open spec fn spec_unsupported_text() -> Seq<char> {
    "unsupported client side message"@
}

/// The fault text sent back for a message shape the broker does not
/// route, as a value.
pub fn unsupported_text() -> (r: String)
    ensures
        r@ == spec_unsupported_text(),
{
    let s: &str = "unsupported client side message";
    s.to_owned()
}

/// Where one message goes: to every subscriber, or to one mailbox.
pub enum RouteView {
    /// Publish the message as it stands on the broadcast bus.
    Publish,
    /// Enqueue `forwarded` into `target`'s mailbox.
    Deliver { target: ClientId, forwarded: MessageView },
}

/// The dispatch rule, decided by the body of `m` alone.
///
/// `now` stamps the messages the router itself originates: a forwarded
/// server fault notice, or the `Error` synthesized for an unsupported
/// shape.
pub open spec fn spec_route(m: MessageView, now: Timestamp) -> RouteView {
    match m.body {
        BodyView::Query(..) => RouteView::Publish,
        BodyView::Post { target, .. } => RouteView::Deliver { target, forwarded: m },
        BodyView::Response { target, .. } => RouteView::Deliver { target, forwarded: m },
        BodyView::Get { target, .. } => RouteView::Deliver { target, forwarded: m },
        BodyView::Error { criminal, .. } => if m.sender.is_nil_spec() {
            RouteView::Deliver {
                target: criminal,
                forwarded: MessageView { sender: ClientId(0), time: now, body: m.body },
            }
        } else {
            spec_reject(m, now)
        },
        BodyView::Connected(..) => spec_reject(m, now),
    }
}

/// The dispatch of an unsupported shape: an `Error` notice back to its
/// sender, naming the sender as the offender.
pub open spec fn spec_reject(m: MessageView, now: Timestamp) -> RouteView {
    RouteView::Deliver {
        target: m.sender,
        forwarded: MessageView {
            sender: ClientId(0),
            time: now,
            body: BodyView::Error { criminal: m.sender, error: spec_unsupported_text() },
        },
    }
}

/// The broker's shared state: the mailbox directory and the broadcast
/// bus. One router task owns the dispatch; spawners and readers reach the
/// same state through it.
pub struct Broker {
    pub mailbox: MailBox,
    pub bus: Bus,
}

/// Everything a [`Broker`] maintains, in one word.
pub open spec fn broker_wf(b: &Broker) -> bool {
    &&& mailbox_wf(b.mailbox@)
    &&& bus_wf(b.bus@)
}

impl Broker {
    /// A broker with no clients and an empty bus of the given capacity.
    pub fn new(bus_capacity: usize) -> (r: Broker)
        requires
            bus_capacity >= 1,
        ensures
            broker_wf(&r),
            r.mailbox@.entries == Map::<u128, crate::mailbox::MailEntryView>::empty(),
            r.bus@.items == Seq::<MessageView>::empty(),
            r.bus@.dropped == 0,
            r.bus@.cap == bus_capacity,
    {
        Broker { mailbox: MailBox::new(), bus: Bus::new(bus_capacity) }
    }

    /// Dispatches one inbound message per the routing rule and reports
    /// what a mailbox delivery returned. A failed delivery — the target
    /// gone, or its consumer dropped — leaves the broker intact: the
    /// message is dropped and the router carries on.
    pub fn handle_message(&mut self, m: Message, now: Timestamp) -> (r: Option<Error>)
        requires
            broker_wf(&*old(self)),
            bus_total(old(self).bus@) < u64::MAX,
        ensures
            broker_wf(&*final(self)),
            final(self).mailbox@.minted == old(self).mailbox@.minted,
            match spec_route(m@, now) {
                RouteView::Publish => {
                    &&& final(self).bus@ == spec_publish(old(self).bus@, m@)
                    &&& final(self).mailbox@ == old(self).mailbox@
                    &&& r is None
                },
                RouteView::Deliver { target, forwarded } => {
                    &&& final(self).bus@ == old(self).bus@
                    &&& final(self).mailbox@.entries == spec_send_entries(
                        old(self).mailbox@,
                        target,
                        forwarded,
                    )
                    &&& r == spec_send_result(old(self).mailbox@, target).err()
                },
            },
    {
        let sender = m.sender;
        match &m.body {
            MessageBody::Query(..) => {
                self.bus.publish(m);
                None
            },
            MessageBody::Post { target, .. } => {
                let target = *target;
                self.mailbox.send(target, m).err()
            },
            MessageBody::Response { target, .. } => {
                let target = *target;
                self.mailbox.send(target, m).err()
            },
            MessageBody::Get { target, .. } => {
                let target = *target;
                self.mailbox.send(target, m).err()
            },
            MessageBody::Error { criminal, .. } if m.sender.is_nil() => {
                let criminal = *criminal;
                let forwarded = Message::new(ClientId::nil(), now, m.body);
                self.mailbox.send(criminal, forwarded).err()
            },
            _ => {
                let notice = Message::new(
                    ClientId::nil(),
                    now,
                    MessageBody::Error { criminal: sender, error: unsupported_text() },
                );
                self.mailbox.send(sender, notice).err()
            },
        }
    }
}

/// Broadcast reaches everyone but its author: a `Query` is published to
/// the one bus every subscriber reads, the author's own reader drops it,
/// and every other client's reader passes it on; no mailbox is touched.
pub proof fn law_broadcast_exclusivity(
    q: MessageView,
    now: Timestamp,
    a: ClientId,
    b: ClientId,
)
    requires
        q.body is Query,
        q.sender == a,
        a != b,
    ensures
        spec_route(q, now) == RouteView::Publish,
        crate::endpoint::spec_forward_broadcast(a, q) is None,
        crate::endpoint::spec_forward_broadcast(b, q) == Some(q),
{
}

/// Targeted delivery reaches its target alone: a `Post` addressed to `b`
/// is enqueued at the end of `b`'s mailbox — when `b` is reachable — and
/// every other client's mailbox is left word for word as it was.
pub proof fn law_targeted_delivery(
    m: MessageView,
    now: Timestamp,
    mb: MailboxView,
    b: ClientId,
    other: ClientId,
)
    requires
        m.body matches BodyView::Post { target, .. } && target == b,
    ensures
        spec_route(m, now) == (RouteView::Deliver { target: b, forwarded: m }),
        mb.entries.contains_key(b.0) && mb.entries[b.0].open ==> spec_send_entries(mb, b, m)[b.0]
            .queue == mb.entries[b.0].queue.push(m),
        other != b && mb.entries.contains_key(other.0) ==> spec_send_entries(mb, b, m)[other.0]
            == mb.entries[other.0],
        other != b ==> (spec_send_entries(mb, b, m).contains_key(other.0)
            == mb.entries.contains_key(other.0)),
{
}

/// Malformed input never stops the router: whatever bytes a reader pulls
/// off the wire, the message it hands on routes to a mailbox or the bus —
/// and when the bytes spell no message at all, what it hands on is an
/// `Error` notice that routes straight back to that reader's own client.
pub proof fn law_malformed_input(
    bytes: Seq<u8>,
    self_id: ClientId,
    now: Timestamp,
    later: Timestamp,
)
    requires
        crate::codec::sp_message(bytes) is Err,
    ensures
        ({
            let fm = crate::endpoint::spec_frame_message(self_id, now, bytes);
            &&& fm.sender.is_nil_spec()
            &&& fm.body matches BodyView::Error { criminal, .. } && criminal == self_id
            &&& spec_route(fm, later) == (RouteView::Deliver {
                target: self_id,
                forwarded: MessageView { sender: ClientId(0), time: later, body: fm.body },
            })
        }),
{
}

} // verus!
