//! The broadcast bus: one bounded ring the router publishes into, and one
//! independent cursor per subscribed client.
//!
//! Delivery is best-effort: a subscriber whose cursor falls behind by more
//! than the ring's capacity does not block the producer or the other
//! subscribers — its next receive reports how many messages it missed and
//! skips to the oldest message still held.

use vstd::prelude::*;

use crate::model::{Message, MessageView};

verus! {

/// Mathematical value of the bus: its capacity, how many messages already
/// fell off the ring, and the messages still held, oldest first.
#[verifier::ext_equal]
pub struct BusView {
    pub cap: nat,
    pub dropped: nat,
    pub items: Seq<MessageView>,
}

/// How many messages were ever published: the absolute position one past
/// the newest message.
pub open spec fn bus_total(b: BusView) -> nat {
    b.dropped + b.items.len()
}

/// Everything a [`Bus`] maintains: a positive capacity never exceeded by
/// the ring, and a publish count its position type can carry.
pub open spec fn bus_wf(b: BusView) -> bool {
    &&& b.cap >= 1
    &&& b.items.len() <= b.cap
    &&& bus_total(b) <= u64::MAX
}

/// The bounded fan-out ring. The router is its only publisher; every
/// connected client holds one [`Subscription`] into it.
pub struct Bus {
    cap: usize,
    dropped: u64,
    items: Vec<Message>,
}

impl View for Bus {
    type V = BusView;

    closed spec fn view(&self) -> BusView {
        BusView {
            cap: self.cap as nat,
            dropped: self.dropped as nat,
            items: self.items@.map_values(|m: Message| m@),
        }
    }
}

/// One client's private cursor into the bus: the absolute position of the
/// next message it has yet to see.
pub struct Subscription {
    pub cursor: u64,
}

/// A subscription reads positions the bus has reached.
pub open spec fn sub_wf(s: Subscription, b: BusView) -> bool {
    s.cursor <= bus_total(b)
}

/// The bus after one publish: the ring gains the message and, when it was
/// full, parts with its oldest one.
pub open spec fn spec_publish(b: BusView, m: MessageView) -> BusView {
    if b.items.len() < b.cap {
        BusView { cap: b.cap, dropped: b.dropped, items: b.items.push(m) }
    } else {
        BusView { cap: b.cap, dropped: b.dropped + 1, items: b.items.drop_first().push(m) }
    }
}

/// What one receive attempt yields.
pub enum BusRecv {
    /// The next message past the cursor.
    Received(Message),
    /// The cursor fell behind by more than the ring holds: this many
    /// messages are gone for this subscriber, and the cursor now points at
    /// the oldest message still held.
    Lagged(u64),
    /// Nothing published past the cursor yet.
    Empty,
}

impl Bus {
    /// An empty bus holding at most `cap` undelivered messages.
    pub fn new(cap: usize) -> (r: Bus)
        requires
            cap >= 1,
        ensures
            r@ == (BusView { cap: cap as nat, dropped: 0, items: Seq::empty() }),
            bus_wf(r@),
    {
        let r = Bus { cap, dropped: 0, items: Vec::new() };
        proof {
            assert(r@ =~= (BusView { cap: cap as nat, dropped: 0, items: Seq::empty() }));
        }
        r
    }

    /// Publishes `m` to every subscriber: the ring gains `m` and, when it
    /// was full, parts with its oldest message.
    pub fn publish(&mut self, m: Message)
        requires
            bus_wf(old(self)@),
            bus_total(old(self)@) < u64::MAX,
        ensures
            bus_wf(final(self)@),
            final(self)@ == spec_publish(old(self)@, m@),
            bus_total(final(self)@) == bus_total(old(self)@) + 1,
    {
        let ghost pre = self@;
        if self.items.len() == self.cap {
            self.items.remove(0);
            self.dropped = self.dropped + 1;
        }
        self.items.push(m);
        proof {
            assert(self@.items =~= spec_publish(pre, m@).items);
        }
    }

    /// How many messages were ever published.
    pub fn total_count(&self) -> (r: u64)
        requires
            bus_wf(self@),
        ensures
            r as nat == bus_total(self@),
    {
        let total: u128 = self.dropped as u128 + self.items.len() as u128;
        total as u64
    }

    /// A fresh cursor, placed after everything already published: a new
    /// subscriber sees only what comes later.
    pub fn subscribe(&self) -> (r: Subscription)
        requires
            bus_wf(self@),
        ensures
            r.cursor == bus_total(self@),
            sub_wf(r, self@),
    {
        let total: u128 = self.dropped as u128 + self.items.len() as u128;
        Subscription { cursor: total as u64 }
    }
}

impl Subscription {
    /// Pulls the next message past this cursor: the message itself, a lag
    /// notice naming exactly how many messages this subscriber missed, or
    /// word that nothing new was published.
    pub fn recv(&mut self, bus: &Bus) -> (r: BusRecv)
        requires
            bus_wf(bus@),
            sub_wf(*old(self), bus@),
        ensures
            sub_wf(*final(self), bus@),
            if old(self).cursor < bus@.dropped {
                &&& r == BusRecv::Lagged((bus@.dropped - old(self).cursor) as u64)
                &&& final(self).cursor == bus@.dropped
            } else if old(self).cursor < bus_total(bus@) {
                &&& match r {
                    BusRecv::Received(m) => m@ == bus@.items[old(self).cursor - bus@.dropped],
                    _ => false,
                }
                &&& final(self).cursor == old(self).cursor + 1
            } else {
                &&& r == BusRecv::Empty
                &&& final(self).cursor == old(self).cursor
            },
    {
        if self.cursor < bus.dropped {
            let missed = bus.dropped - self.cursor;
            self.cursor = bus.dropped;
            return BusRecv::Lagged(missed);
        }
        let offset: u128 = self.cursor as u128 - bus.dropped as u128;
        if offset < bus.items.len() as u128 {
            let m = &bus.items[offset as usize];
            self.cursor = self.cursor + 1;
            return BusRecv::Received(m.clone());
        }
        BusRecv::Empty
    }
}

/// A subscriber that is caught up when a message is published neither
/// lags nor waits: its next receive, against the bus as published, is
/// exactly that message.
pub proof fn law_current_subscriber_receives_next(b: BusView, m: MessageView, cursor: u64)
    requires
        bus_wf(b),
        cursor == bus_total(b),
    ensures
        ({
            let b2 = spec_publish(b, m);
            &&& b2.dropped <= cursor < bus_total(b2)
            &&& b2.items[cursor - b2.dropped] == m
        }),
{
}

} // verus!
