//! The per-connection endpoint: the reader and writer halves that service
//! one client, and the lifecycle a connection walks from first contact to
//! removal.
//!
//! The reader half turns transport frames into messages for the router —
//! malformed bytes become an `Error` notice, never a fault — and filters
//! the client's own broadcasts out of what goes back to it. The writer
//! half serializes everything handed to it, in arrival order. The caller
//! runs the loops and the transport; every decision stands here.

use vstd::prelude::*;
use vstd::string::StrSliceExecFns;
use vstd::utf8::encode_utf8;

use crate::bus::{bus_total, Subscription};
use crate::codec::{
    decode, encode, se_message, sp_message, spec_decode_error_text, wf_message,
};
use crate::mailbox::{reader_matches, MailEntryView, MailboxReader};
use crate::model::{BodyView, ClientId, Message, MessageBody, MessageView, Timestamp};
use crate::router::{broker_wf, Broker};

verus! {

/// One transport frame: the two kinds are treated identically once their
/// bytes are decoded.
pub enum Frame {
    Text(String),
    Binary(Vec<u8>),
}

/// The bytes a frame carries.
pub open spec fn spec_frame_bytes(f: Frame) -> Seq<u8> {
    match f {
        Frame::Text(s) => encode_utf8(s@),
        Frame::Binary(b) => b@,
    }
}

/// What the reader hands the router for one frame: the decoded message,
/// or — when the bytes spell none — an `Error` notice from the server
/// naming this reader's own client as the offender.
pub open spec fn spec_frame_message(self_id: ClientId, now: Timestamp, bytes: Seq<u8>) -> MessageView {
    match sp_message(bytes) {
        Ok(v) => v,
        Err(e) => MessageView {
            sender: ClientId(0),
            time: now,
            body: BodyView::Error { criminal: self_id, error: spec_decode_error_text(e) },
        },
    }
}

/// Whether a broadcast message is passed on to this client: everything
/// except what the client itself sent.
pub open spec fn spec_forward_broadcast(self_id: ClientId, m: MessageView) -> Option<MessageView> {
    if m.sender == self_id {
        None
    } else {
        Some(m)
    }
}

/// The reading side of one connection: the only task that reads this
/// client's transport.
pub struct ReaderHalf {
    pub id: ClientId,
}

impl ReaderHalf {
    /// Turns one transport frame into the message forwarded to the
    /// router. Total on arbitrary bytes: garbage becomes an `Error`
    /// notice addressed back to this client, and nothing here can panic.
    pub fn frame_to_router(&self, now: Timestamp, frame: &Frame) -> (m: Message)
        ensures
            m@ == spec_frame_message(self.id, now, spec_frame_bytes(*frame)),
    {
        let outcome = match frame {
            Frame::Text(s) => {
                let bytes = s.as_str().as_bytes_vec();
                decode(&bytes)
            },
            Frame::Binary(b) => decode(b),
        };
        match outcome {
            Ok(m) => m,
            Err(e) => Message::new(
                ClientId::nil(),
                now,
                MessageBody::Error { criminal: self.id, error: e.message() },
            ),
        }
    }

    /// Passes a broadcast message on to the writer, unless this client
    /// wrote it: no client hears its own broadcast back.
    pub fn forward_broadcast(&self, m: Message) -> (r: Option<Message>)
        ensures
            match r {
                Some(fwd) => m.sender != self.id && fwd == m,
                None => m.sender == self.id,
            },
            match spec_forward_broadcast(self.id, m@) {
                Some(v) => r matches Some(fwd) && fwd@ == v,
                None => r is None,
            },
    {
        if m.sender.0 == self.id.0 {
            None
        } else {
            Some(m)
        }
    }
}

/// The writing side of one connection: the only task that writes this
/// client's transport. It keeps the record of what it was handed, in
/// order; each message is serialized exactly, so the transport carries
/// [`se_message`] of each, one after the other.
pub struct WriterHalf {
    pub id: ClientId,
    /// Everything handed to this writer so far, oldest first.
    pub transcript: Ghost<Seq<MessageView>>,
}

impl WriterHalf {
    /// Serializes one message for the transport, preserving arrival
    /// order: the caller flushes these bytes before handing over the
    /// next message.
    pub fn write(&mut self, m: &Message) -> (bytes: Vec<u8>)
        ensures
            bytes@ == se_message(m@),
            wf_message(m@),
            final(self).id == old(self).id,
            final(self).transcript@ == old(self).transcript@.push(m@),
    {
        let bytes = encode(m);
        self.transcript = Ghost(self.transcript@.push(m@));
        bytes
    }
}

/// Where a connection stands in its life.
#[derive(Clone, Copy, PartialEq, Eq, Structural, Debug)]
pub enum Phase {
    /// Transport upgraded, identifier allocated, mailbox registered.
    Connecting,
    /// Reader and writer tasks are running.
    Active,
    /// One task ended; the other is being joined.
    Disconnecting,
    /// The mailbox entry is deleted; the identifier is dead.
    Removed,
}

/// What moves a connection from one phase to the next.
#[derive(Clone, Copy, PartialEq, Eq, Structural, Debug)]
pub enum LifecycleEvent {
    /// The welcome notice was written; the task pair starts.
    Activated,
    /// The reader or the writer task ended.
    TaskEnded,
    /// The mailbox entry was removed.
    Cleaned,
}

/// The lifecycle's one step: `Connecting → Active → Disconnecting →
/// Removed`, and no event moves a connection anywhere else.
pub open spec fn spec_phase_step(p: Phase, e: LifecycleEvent) -> Phase {
    match (p, e) {
        (Phase::Connecting, LifecycleEvent::Activated) => Phase::Active,
        (Phase::Active, LifecycleEvent::TaskEnded) => Phase::Disconnecting,
        (Phase::Disconnecting, LifecycleEvent::Cleaned) => Phase::Removed,
        _ => p,
    }
}

/// The lifecycle's one step, as a value.
pub fn phase_step(p: Phase, e: LifecycleEvent) -> (r: Phase)
    ensures
        r == spec_phase_step(p, e),
{
    match (p, e) {
        (Phase::Connecting, LifecycleEvent::Activated) => Phase::Active,
        (Phase::Active, LifecycleEvent::TaskEnded) => Phase::Disconnecting,
        (Phase::Disconnecting, LifecycleEvent::Cleaned) => Phase::Removed,
        _ => p,
    }
}

/// One client's standing with the broker: its identifier, the sole token
/// for its mailbox's receive side, its private broadcast cursor, and
/// where it is in its life.
pub struct Connection {
    pub id: ClientId,
    pub reader: MailboxReader,
    pub sub: Subscription,
    pub phase: Phase,
}

/// Registers a new client with the broker: a fresh empty mailbox keyed by
/// `id` and a broadcast cursor placed after everything already published.
/// When `id` is already taken, nothing changes and no connection is made.
pub fn connect_client(broker: &mut Broker, id: ClientId) -> (r: Option<Connection>)
    requires
        broker_wf(&*old(broker)),
        old(broker).mailbox@.minted < u64::MAX,
    ensures
        broker_wf(&*final(broker)),
        final(broker).bus@ == old(broker).bus@,
        match r {
            Some(conn) => {
                &&& !old(broker).mailbox@.entries.contains_key(id.0)
                &&& conn.id == id
                &&& conn.reader.id == id
                &&& reader_matches(final(broker).mailbox@, conn.reader)
                &&& final(broker).mailbox@.entries == old(broker).mailbox@.entries.insert(
                    id.0,
                    MailEntryView { gen: conn.reader.gen, open: true, queue: Seq::empty() },
                )
                &&& conn.sub.cursor == bus_total(old(broker).bus@)
                &&& conn.phase is Connecting
            },
            None => {
                &&& old(broker).mailbox@.entries.contains_key(id.0)
                &&& final(broker).mailbox@ == old(broker).mailbox@
            },
        },
{
    let reader = match broker.mailbox.add_client(id) {
        Some(reader) => reader,
        None => {
            return None;
        },
    };
    let sub = broker.bus.subscribe();
    Some(Connection { id, reader, sub, phase: Phase::Connecting })
}

/// The reader and writer halves that will service this connection; the
/// writer starts with an empty record.
pub fn create_handles(conn: &Connection) -> (r: (ReaderHalf, WriterHalf))
    ensures
        r.0.id == conn.id,
        r.1.id == conn.id,
        r.1.transcript@ == Seq::<MessageView>::empty(),
{
    (ReaderHalf { id: conn.id }, WriterHalf { id: conn.id, transcript: Ghost(Seq::empty()) })
}

/// Makes the connection active: the welcome notice `Connected(id)` is
/// handed to the writer before anything else, so the first message a
/// newly active client receives names its own identifier.
pub fn activate(conn: &mut Connection, writer: &mut WriterHalf, now: Timestamp) -> (bytes: Vec<u8>)
    requires
        old(conn).phase is Connecting,
    ensures
        final(conn).id == old(conn).id,
        final(conn).reader == old(conn).reader,
        final(conn).sub == old(conn).sub,
        final(conn).phase is Active,
        final(writer).id == old(writer).id,
        ({
            let welcome = MessageView {
                sender: ClientId(0),
                time: now,
                body: BodyView::Connected(old(conn).id),
            };
            &&& final(writer).transcript@ == old(writer).transcript@.push(welcome)
            &&& bytes@ == se_message(welcome)
            &&& old(writer).transcript@.len() == 0 ==> final(writer).transcript@[0]
                == welcome
        }),
{
    let welcome = Message::builder().time(now).body(MessageBody::Connected(conn.id)).build();
    let bytes = writer.write(&welcome);
    conn.phase = phase_step(conn.phase, LifecycleEvent::Activated);
    bytes
}

/// Marks the connection as going down: one of its tasks ended, and the
/// other is being joined.
pub fn begin_disconnect(conn: &mut Connection)
    ensures
        final(conn).id == old(conn).id,
        final(conn).reader == old(conn).reader,
        final(conn).sub == old(conn).sub,
        final(conn).phase == spec_phase_step(old(conn).phase, LifecycleEvent::TaskEnded),
{
    conn.phase = phase_step(conn.phase, LifecycleEvent::TaskEnded);
}

/// Tears the connection down: its mailbox entry is deleted — every later
/// send to this identifier fails as not found — and its tokens are
/// surrendered with it.
pub fn cleanup(broker: &mut Broker, conn: Connection) -> (p: Phase)
    requires
        broker_wf(&*old(broker)),
    ensures
        broker_wf(&*final(broker)),
        final(broker).bus@ == old(broker).bus@,
        final(broker).mailbox@.minted == old(broker).mailbox@.minted,
        final(broker).mailbox@.entries == old(broker).mailbox@.entries.remove(conn.id.0),
        p == spec_phase_step(conn.phase, LifecycleEvent::Cleaned),
{
    broker.mailbox.remove_client(conn.id);
    phase_step(conn.phase, LifecycleEvent::Cleaned)
}

} // verus!
