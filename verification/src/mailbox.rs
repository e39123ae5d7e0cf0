//! The process-wide mailbox registry: a directory from client identifier to
//! that client's private inbound queue.
//!
//! The registry side enqueues; the owning reader task dequeues through a
//! [`MailboxReader`] token that only [`MailBox::add_client`] mints, so each
//! mailbox has at most one holder of its receive side
//! ([`law_single_reader`]). Once a client is removed, sending to it fails
//! with [`Error::DoesNotExist`] ([`law_mailbox_lifecycle`]).

use std::collections::HashMap;

use vstd::prelude::*;

use crate::model::{ClientId, Message, MessageView};

verus! {

/// Names the two capability roles onto one mailbox entry: the registry
/// holds the enqueue side, the owning reader task the dequeue side.
pub trait MailboxType {

}

/// The enqueue role: what [`MailBox::send`] exercises on behalf of the
/// router.
pub struct Sender;

/// The dequeue role: what a [`MailboxReader`] token stands for.
pub struct Receiver;

impl MailboxType for Sender {

}

impl MailboxType for Receiver {

}

/// Why a send did not deliver.
#[derive(Clone, Copy, PartialEq, Eq, Structural, Debug)]
pub enum Error {
    /// No mailbox is registered under this identifier.
    DoesNotExist(ClientId),
    /// The mailbox exists but its consumer is gone, so nothing will ever
    /// read what is enqueued.
    SendFailed(ClientId),
}

/// The dequeue side of one client's mailbox. Minted only by
/// [`MailBox::add_client`], at most once per registered entry.
#[derive(PartialEq, Eq, Structural, Debug)]
pub struct MailboxReader {
    pub id: ClientId,
    pub gen: u64,
}

impl MailboxReader {
    /// The identifier this reader's mailbox is keyed under.
    pub fn hash_id(&self) -> (r: ClientId)
        ensures
            r == self.id,
    {
        self.id
    }
}

struct MailboxEntry {
    gen: u64,
    open: bool,
    queue: Vec<Message>,
}

/// Mathematical value of one registry entry.
#[verifier::ext_equal]
pub struct MailEntryView {
    /// Which minting of this identifier the entry belongs to; the matching
    /// [`MailboxReader`] carries the same number.
    pub gen: u64,
    /// Whether the dequeue side is still held; once dropped, sends fail.
    pub open: bool,
    /// The queued messages, oldest first.
    pub queue: Seq<MessageView>,
}

spec fn entry_view(e: MailboxEntry) -> MailEntryView {
    MailEntryView { gen: e.gen, open: e.open, queue: e.queue@.map_values(|m: Message| m@) }
}

/// Mathematical value of the registry: the directory itself, and how many
/// reader tokens were ever minted.
#[verifier::ext_equal]
pub struct MailboxView {
    pub entries: Map<u128, MailEntryView>,
    pub minted: nat,
}

/// The directory from client identifier to private inbound queue: the one
/// source of truth for whether a client is currently reachable.
pub struct MailBox {
    map: HashMap<u128, MailboxEntry>,
    next_gen: u64,
}

impl View for MailBox {
    type V = MailboxView;

    closed spec fn view(&self) -> MailboxView {
        MailboxView {
            entries: self.map@.map_values(|e: MailboxEntry| entry_view(e)),
            minted: self.next_gen as nat,
        }
    }
}

/// Does `r` open the dequeue side of a current entry of `m`? Per
/// identifier at most one reader can: see [`law_single_reader`].
pub open spec fn reader_matches(m: MailboxView, r: MailboxReader) -> bool {
    &&& m.entries.contains_key(r.id.0)
    &&& m.entries[r.id.0].gen == r.gen
    &&& m.entries[r.id.0].open
}

/// What a send to `id` returns, given the directory's state.
pub open spec fn spec_send_result(m: MailboxView, id: ClientId) -> Result<(), Error> {
    if !m.entries.contains_key(id.0) {
        Err(Error::DoesNotExist(id))
    } else if !m.entries[id.0].open {
        Err(Error::SendFailed(id))
    } else {
        Ok(())
    }
}

/// The directory after a send to `id`: the message is appended to `id`'s
/// queue when the entry is present and open, and nothing changes otherwise.
pub open spec fn spec_send_entries(
    m: MailboxView,
    id: ClientId,
    message: MessageView,
) -> Map<u128, MailEntryView> {
    if m.entries.contains_key(id.0) && m.entries[id.0].open {
        m.entries.insert(
            id.0,
            MailEntryView {
                gen: m.entries[id.0].gen,
                open: true,
                queue: m.entries[id.0].queue.push(message),
            },
        )
    } else {
        m.entries
    }
}

/// Everything a [`MailBox`] maintains: every entry was minted before the
/// next token to come.
pub open spec fn mailbox_wf(m: MailboxView) -> bool {
    forall|k: u128| m.entries.contains_key(k) ==> (#[trigger] m.entries[k].gen) < m.minted
}

/// Replacing one entry by one minted no later keeps the directory well
/// formed.
proof fn lemma_wf_insert(m: MailboxView, id: u128, ev: MailEntryView, m2: MailboxView)
    requires
        mailbox_wf(m),
        m2.entries == m.entries.insert(id, ev),
        m2.minted == m.minted,
        ev.gen < m.minted,
    ensures
        mailbox_wf(m2),
{
    assert forall|k: u128| m2.entries.contains_key(k) implies (#[trigger] m2.entries[k].gen)
        < m2.minted by {
        if k != id {
            assert(m.entries.contains_key(k));
            assert(m.entries[k].gen < m.minted);
        }
    }
}

/// A directory equal to a well-formed one is well formed.
proof fn lemma_wf_same(m: MailboxView, m2: MailboxView)
    requires
        mailbox_wf(m),
        m2.entries == m.entries,
        m2.minted == m.minted,
    ensures
        mailbox_wf(m2),
{
    assert forall|k: u128| m2.entries.contains_key(k) implies (#[trigger] m2.entries[k].gen)
        < m2.minted by {
        assert(m.entries.contains_key(k));
        assert(m.entries[k].gen < m.minted);
    }
}

/// What one client receives: a message, nothing yet, or word that this
/// mailbox is gone for good.
pub enum RecvOutcome {
    /// The oldest queued message.
    Received(Message),
    /// Nothing queued right now; more may come.
    Empty,
    /// The reader no longer opens any entry: the client was removed.
    Closed,
}

impl MailBox {
    /// An empty directory.
    pub fn new() -> (r: MailBox)
        ensures
            r@.entries == Map::<u128, MailEntryView>::empty(),
            mailbox_wf(r@),
    {
        let r = MailBox { map: HashMap::new(), next_gen: 0 };
        proof {
            broadcast use vstd::std_specs::hash::group_hash_axioms;

            assert(r@.entries =~= Map::<u128, MailEntryView>::empty());
        }
        r
    }

    /// An empty directory with room for `capacity` clients before it
    /// reallocates.
    pub fn with_capacity(capacity: usize) -> (r: MailBox)
        ensures
            r@.entries == Map::<u128, MailEntryView>::empty(),
            mailbox_wf(r@),
    {
        let r = MailBox { map: HashMap::with_capacity(capacity), next_gen: 0 };
        proof {
            broadcast use vstd::std_specs::hash::group_hash_axioms;

            assert(r@.entries =~= Map::<u128, MailEntryView>::empty());
        }
        r
    }

    /// How many reader tokens this registry ever minted.
    pub fn minted_count(&self) -> (r: u64)
        ensures
            r as nat == self@.minted,
    {
        self.next_gen
    }

    /// Is `id` currently reachable?
    pub fn contains_client(&self, id: ClientId) -> (r: bool)
        ensures
            r == self@.entries.contains_key(id.0),
    {
        proof {
            broadcast use vstd::std_specs::hash::group_hash_axioms;

        }
        self.map.contains_key(&id.0)
    }

    /// Registers a fresh, empty mailbox under `id` and hands out the one
    /// token that opens its dequeue side. Nothing changes when `id` is
    /// already present: the directory keeps the older entry.
    pub fn add_client(&mut self, id: ClientId) -> (r: Option<MailboxReader>)
        requires
            mailbox_wf(old(self)@),
            old(self)@.minted < u64::MAX,
        ensures
            mailbox_wf(final(self)@),
            match r {
                Some(reader) => {
                    &&& !old(self)@.entries.contains_key(id.0)
                    &&& reader.id == id
                    &&& final(self)@.entries == old(self)@.entries.insert(
                        id.0,
                        MailEntryView { gen: reader.gen, open: true, queue: Seq::empty() },
                    )
                    &&& forall|k: u128|
                        old(self)@.entries.contains_key(k) ==> (#[trigger] old(
                            self,
                        )@.entries[k].gen) != reader.gen
                },
                None => {
                    &&& old(self)@.entries.contains_key(id.0)
                    &&& final(self)@ == old(self)@
                },
            },
    {
        proof {
            broadcast use vstd::std_specs::hash::group_hash_axioms;

        }
        if self.map.contains_key(&id.0) {
            return None;
        }
        let gen = self.next_gen;
        self.next_gen = self.next_gen + 1;
        let entry = MailboxEntry { gen, open: true, queue: Vec::new() };
        self.map.insert(id.0, entry);
        proof {
            assert(Seq::<Message>::empty().map_values(|m: Message| m@) =~= Seq::<
                MessageView,
            >::empty());
            assert(self@.entries =~= old(self)@.entries.insert(
                id.0,
                MailEntryView { gen, open: true, queue: Seq::empty() },
            ));
        }
        Some(MailboxReader { id, gen })
    }

    /// Enqueues `message` for `id`, or says why it cannot: the identifier
    /// is unknown, or its consumer is already gone.
    pub fn send(&mut self, id: ClientId, message: Message) -> (r: Result<(), Error>)
        requires
            mailbox_wf(old(self)@),
        ensures
            mailbox_wf(final(self)@),
            r == spec_send_result(old(self)@, id),
            final(self)@.entries == spec_send_entries(old(self)@, id, message@),
            final(self)@.minted == old(self)@.minted,
    {
        proof {
            broadcast use vstd::std_specs::hash::group_hash_axioms;

        }
        match self.map.remove(&id.0) {
            None => {
                proof {
                    assert(self@.entries =~= old(self)@.entries);
                }
                Err(Error::DoesNotExist(id))
            },
            Some(mut entry) => {
                if !entry.open {
                    let ghost pre = self@.entries;
                    self.map.insert(id.0, entry);
                    proof {
                        assert(self@.entries =~= old(self)@.entries);
                    }
                    Err(Error::SendFailed(id))
                } else {
                    entry.queue.push(message);
                    self.map.insert(id.0, entry);
                    proof {
                        assert(entry_view(entry).queue =~= old(
                            self,
                        )@.entries[id.0].queue.push(message@));
                        assert(self@.entries =~= spec_send_entries(old(self)@, id, message@));
                    }
                    Ok(())
                }
            },
        }
    }

    /// The owning reader's pull: the oldest queued message, or word that
    /// nothing is queued right now, or that the mailbox is gone.
    pub fn recv(&mut self, reader: &MailboxReader) -> (r: RecvOutcome)
        requires
            mailbox_wf(old(self)@),
        ensures
            mailbox_wf(final(self)@),
            final(self)@.minted == old(self)@.minted,
            if reader_matches(old(self)@, *reader) {
                let q = old(self)@.entries[reader.id.0].queue;
                if q.len() > 0 {
                    &&& match r {
                        RecvOutcome::Received(m) => m@ == q[0],
                        _ => false,
                    }
                    &&& final(self)@.entries == old(self)@.entries.insert(
                        reader.id.0,
                        MailEntryView { gen: reader.gen, open: true, queue: q.drop_first() },
                    )
                } else {
                    &&& r == RecvOutcome::Empty
                    &&& final(self)@ == old(self)@
                }
            } else {
                &&& r == RecvOutcome::Closed
                &&& final(self)@ == old(self)@
            },
    {
        proof {
            broadcast use vstd::std_specs::hash::group_hash_axioms;

        }
        match self.map.remove(&reader.id.0) {
            None => {
                proof {
                    assert(self@.entries =~= old(self)@.entries);
                    lemma_wf_same(old(self)@, self@);
                }
                RecvOutcome::Closed
            },
            Some(mut entry) => {
                if entry.gen != reader.gen || !entry.open {
                    self.map.insert(reader.id.0, entry);
                    proof {
                        assert(self@.entries =~= old(self)@.entries);
                        lemma_wf_same(old(self)@, self@);
                    }
                    RecvOutcome::Closed
                } else if entry.queue.len() == 0 {
                    self.map.insert(reader.id.0, entry);
                    proof {
                        assert(self@.entries =~= old(self)@.entries);
                        lemma_wf_same(old(self)@, self@);
                    }
                    RecvOutcome::Empty
                } else {
                    let message = entry.queue.remove(0);
                    proof {
                        assert(message@ == old(self)@.entries[reader.id.0].queue[0]);
                        assert(entry.queue@.map_values(|m: Message| m@) =~= old(
                            self,
                        )@.entries[reader.id.0].queue.drop_first());
                    }
                    self.map.insert(reader.id.0, entry);
                    proof {
                        assert(self@.entries =~= old(self)@.entries.insert(
                            reader.id.0,
                            MailEntryView {
                                gen: reader.gen,
                                open: true,
                                queue: old(self)@.entries[reader.id.0].queue.drop_first(),
                            },
                        ));
                        assert(old(self)@.entries[reader.id.0].gen < old(self)@.minted);
                        lemma_wf_insert(
                            old(self)@,
                            reader.id.0,
                            MailEntryView {
                                gen: reader.gen,
                                open: true,
                                queue: old(self)@.entries[reader.id.0].queue.drop_first(),
                            },
                            self@,
                        );
                    }
                    RecvOutcome::Received(message)
                }
            },
        }
    }

    /// Everything queued for this reader right now, oldest first; the
    /// queue is empty afterwards.
    pub fn drain(&mut self, reader: &MailboxReader) -> (r: Vec<Message>)
        requires
            mailbox_wf(old(self)@),
        ensures
            mailbox_wf(final(self)@),
            final(self)@.minted == old(self)@.minted,
            if reader_matches(old(self)@, *reader) {
                &&& r@.map_values(|m: Message| m@) == old(self)@.entries[reader.id.0].queue
                &&& final(self)@.entries == old(self)@.entries.insert(
                    reader.id.0,
                    MailEntryView { gen: reader.gen, open: true, queue: Seq::empty() },
                )
            } else {
                &&& r@.map_values(|m: Message| m@) == Seq::<MessageView>::empty()
                &&& final(self)@ == old(self)@
            },
    {
        proof {
            broadcast use vstd::std_specs::hash::group_hash_axioms;

        }
        match self.map.remove(&reader.id.0) {
            None => {
                proof {
                    assert(self@.entries =~= old(self)@.entries);
                    lemma_wf_same(old(self)@, self@);
                    assert(Seq::<Message>::empty().map_values(|m: Message| m@) =~= Seq::<
                        MessageView,
                    >::empty());
                }
                Vec::new()
            },
            Some(mut entry) => {
                if entry.gen != reader.gen || !entry.open {
                    self.map.insert(reader.id.0, entry);
                    proof {
                        assert(self@.entries =~= old(self)@.entries);
                        lemma_wf_same(old(self)@, self@);
                        assert(Seq::<Message>::empty().map_values(|m: Message| m@) =~= Seq::<
                            MessageView,
                        >::empty());
                    }
                    Vec::new()
                } else {
                    let drained = entry.queue;
                    let emptied = MailboxEntry { gen: entry.gen, open: true, queue: Vec::new() };
                    self.map.insert(reader.id.0, emptied);
                    proof {
                        assert(Seq::<Message>::empty().map_values(|m: Message| m@) =~= Seq::<
                            MessageView,
                        >::empty());
                        assert(self@.entries =~= old(self)@.entries.insert(
                            reader.id.0,
                            MailEntryView { gen: reader.gen, open: true, queue: Seq::empty() },
                        ));
                        assert(old(self)@.entries[reader.id.0].gen < old(self)@.minted);
                        lemma_wf_insert(
                            old(self)@,
                            reader.id.0,
                            MailEntryView { gen: reader.gen, open: true, queue: Seq::empty() },
                            self@,
                        );
                    }
                    drained
                }
            },
        }
    }

    /// Gives the dequeue side back: the entry stays, but is marked closed,
    /// its queue discarded, and every later send to it fails. A token that
    /// opens no current entry changes nothing.
    pub fn close_reader(&mut self, reader: MailboxReader)
        requires
            mailbox_wf(old(self)@),
        ensures
            mailbox_wf(final(self)@),
            final(self)@.minted == old(self)@.minted,
            if reader_matches(old(self)@, reader) {
                final(self)@.entries == old(self)@.entries.insert(
                    reader.id.0,
                    MailEntryView { gen: reader.gen, open: false, queue: Seq::empty() },
                )
            } else {
                final(self)@ == old(self)@
            },
    {
        proof {
            broadcast use vstd::std_specs::hash::group_hash_axioms;

        }
        match self.map.remove(&reader.id.0) {
            None => {
                proof {
                    assert(self@.entries =~= old(self)@.entries);
                    lemma_wf_same(old(self)@, self@);
                }
            },
            Some(mut entry) => {
                if entry.gen != reader.gen || !entry.open {
                    self.map.insert(reader.id.0, entry);
                    proof {
                        assert(self@.entries =~= old(self)@.entries);
                        lemma_wf_same(old(self)@, self@);
                    }
                } else {
                    let closed = MailboxEntry { gen: entry.gen, open: false, queue: Vec::new() };
                    self.map.insert(reader.id.0, closed);
                    proof {
                        assert(Seq::<Message>::empty().map_values(|m: Message| m@) =~= Seq::<
                            MessageView,
                        >::empty());
                        assert(self@.entries =~= old(self)@.entries.insert(
                            reader.id.0,
                            MailEntryView { gen: reader.gen, open: false, queue: Seq::empty() },
                        ));
                        assert(old(self)@.entries[reader.id.0].gen < old(self)@.minted);
                        lemma_wf_insert(
                            old(self)@,
                            reader.id.0,
                            MailEntryView { gen: reader.gen, open: false, queue: Seq::empty() },
                            self@,
                        );
                    }
                }
            },
        }
    }

    /// Deletes `id`'s mailbox outright; sends to `id` fail with
    /// [`Error::DoesNotExist`] from here on. Idempotent: removing an absent
    /// identifier changes nothing.
    pub fn remove_client(&mut self, id: ClientId)
        requires
            mailbox_wf(old(self)@),
        ensures
            mailbox_wf(final(self)@),
            final(self)@.minted == old(self)@.minted,
            final(self)@.entries == old(self)@.entries.remove(id.0),
    {
        proof {
            broadcast use vstd::std_specs::hash::group_hash_axioms;

        }
        self.map.remove(&id.0);
        proof {
            assert(self@.entries =~= old(self)@.entries.remove(id.0));
        }
    }
}

impl Default for MailBox {
    /// The same empty directory as [`MailBox::new`].
    fn default() -> (r: MailBox)
        ensures
            r@.entries == Map::<u128, MailEntryView>::empty(),
            mailbox_wf(r@),
    {
        MailBox::new()
    }
}

/// Mailbox lifecycle: once `id` is removed — and likewise before it was
/// ever added — any send to `id` returns [`Error::DoesNotExist`].
pub proof fn law_mailbox_lifecycle(m: MailboxView, id: ClientId, message: MessageView)
    ensures
        spec_send_result(
            MailboxView { entries: m.entries.remove(id.0), minted: m.minted },
            id,
        ) == Err::<(), Error>(Error::DoesNotExist(id)),
        spec_send_entries(
            MailboxView { entries: m.entries.remove(id.0), minted: m.minted },
            id,
            message,
        ) == m.entries.remove(id.0),
        spec_send_result(
            MailboxView { entries: Map::<u128, MailEntryView>::empty(), minted: 0 },
            id,
        ) == Err::<(), Error>(Error::DoesNotExist(id)),
{
}

/// No double consumer: two reader tokens that both open the dequeue side
/// of the same identifier's mailbox are one and the same token.
pub proof fn law_single_reader(m: MailboxView, r1: MailboxReader, r2: MailboxReader)
    requires
        reader_matches(m, r1),
        reader_matches(m, r2),
        r1.id == r2.id,
    ensures
        r1 == r2,
{
}

} // verus!
