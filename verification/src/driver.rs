use vstd::prelude::*;

use crate::flags::Flags;
use crate::slab_store::{slab_entries, slab_get, slab_insert, slab_new, slab_remove, slab_set};
use slab::Slab;
use std::collections::VecDeque;

verus! {

broadcast use
    Flags::lemma_from_bools,
    vstd::seq_lib::group_to_multiset_ensures,
    vstd::std_specs::vecdeque::group_vec_dequeue_axioms,
;

/// What the registry keeps of one registered stream.
#[derive(Clone, Copy, Debug, PartialEq, Eq, Structural)]
pub struct StreamItem {
    /// The stream's I/O object has not been taken out for closing.
    pub has_io: bool,
    /// The stream's file descriptor.
    pub fd: i32,
    /// Error / read-interest / write-interest bits.
    pub flags: Flags,
    /// Number of live handles to the stream.
    pub ref_count: usize,
}

/// A readiness direction that can be registered with the poller.
#[derive(Clone, Copy, Debug, PartialEq, Eq, Structural)]
pub enum Interest {
    Readable,
    Writable,
}

/// A readiness event reported by the poller for a stream.
#[derive(Clone, Copy, Debug, PartialEq, Eq, Structural)]
pub enum Change {
    Readable,
    Writable,
    /// A failure; `token` names the error value, which the caller keeps.
    Error { token: u64 },
}

/// Work that the registry asks its owner to carry out, in order.
#[derive(Clone, Copy, Debug, PartialEq, Eq, Structural)]
pub enum Action {
    /// Register `interest` in `fd` with the poller, tagged with the stream id.
    Register { fd: i32, id: usize, interest: Interest },
    /// Withdraw `interest` in `fd` from the poller.
    Unregister { fd: i32, interest: Interest },
    /// Withdraw every interest in `fd` from the poller.
    UnregisterAll { fd: i32 },
    /// Hand the error named `token` to the stream's context: the stream has
    /// stopped.
    Stopped { id: usize, token: u64 },
    /// The stream's slot was freed: drop what is kept for it.
    Dispose { id: usize },
}

impl StreamItem {
    /// The item of a stream that was just registered.
    pub open spec fn fresh(fd: i32) -> StreamItem {
        StreamItem {
            has_io: true,
            fd,
            flags: Flags::from_bools(false, false, false),
            ref_count: 1,
        }
    }

    /// The same item with other flags.
    pub open spec fn with_flags(self, flags: Flags) -> StreamItem {
        StreamItem { has_io: self.has_io, fd: self.fd, flags, ref_count: self.ref_count }
    }

    /// The same item with another reference count.
    pub open spec fn with_ref_count(self, ref_count: usize) -> StreamItem {
        StreamItem { has_io: self.has_io, fd: self.fd, flags: self.flags, ref_count }
    }
}

/// The actions that freeing the slot of `item`, registered as `id`, calls for:
/// withdraw its interests if its I/O object is still there, then dispose of it.
pub open spec fn release_actions(item: StreamItem, id: usize) -> Seq<Action> {
    if item.has_io {
        seq![Action::UnregisterAll { fd: item.fd }, Action::Dispose { id }]
    } else {
        seq![Action::Dispose { id }]
    }
}

/// Dropping one handle of stream `id`: the count goes down by one, and the
/// stream is removed when no handle is left.
pub open spec fn release_one(items: Map<usize, StreamItem>, id: usize) -> (Map<usize, StreamItem>, Seq<Action>) {
    let item = items[id];
    if item.ref_count == 1 {
        (items.remove(id), release_actions(item, id))
    } else {
        (items.insert(id, item.with_ref_count((item.ref_count - 1) as usize)), Seq::empty())
    }
}

/// Dropping one handle for each id of `ids`, from the first to the last: the
/// resulting items and all actions, in order.
pub open spec fn release_all(items: Map<usize, StreamItem>, ids: Seq<usize>) -> (Map<usize, StreamItem>, Seq<Action>)
    decreases ids.len(),
{
    if ids.len() == 0 {
        (items, Seq::empty())
    } else {
        let prev = release_all(items, ids.drop_last());
        let step = release_one(prev.0, ids.last());
        (step.0, prev.1 + step.1)
    }
}

/// The read-interest bit set, the others kept.
pub open spec fn with_read(f: Flags) -> Flags {
    Flags::from_bools(f.error(), true, f.write())
}

/// The write-interest bit set, the others kept.
pub open spec fn with_write(f: Flags) -> Flags {
    Flags::from_bools(f.error(), f.read(), true)
}

/// The read-interest bit cleared, the others kept.
pub open spec fn without_read(f: Flags) -> Flags {
    Flags::from_bools(f.error(), false, f.write())
}

/// Both interest bits cleared, the error bit kept.
pub open spec fn without_interest(f: Flags) -> Flags {
    Flags::from_bools(f.error(), false, false)
}

/// The error bit set, both interest bits cleared.
pub open spec fn failed() -> Flags {
    Flags::from_bools(true, false, false)
}

/// Pausing all I/O of stream `id`: with read or write interest registered,
/// both bits are cleared and every interest in its fd is withdrawn; otherwise
/// nothing changes.
pub open spec fn pause_all_outcome(items: Map<usize, StreamItem>, id: usize) -> (Map<usize, StreamItem>, Option<Action>) {
    let item = items[id];
    if item.flags.read() || item.flags.write() {
        (
            items.insert(id, item.with_flags(without_interest(item.flags))),
            Some(Action::UnregisterAll { fd: item.fd }),
        )
    } else {
        (items, None)
    }
}

/// Pausing reads of stream `id`: with read interest registered, the bit is
/// cleared and read interest in its fd withdrawn; otherwise nothing changes.
pub open spec fn pause_read_outcome(items: Map<usize, StreamItem>, id: usize) -> (Map<usize, StreamItem>, Option<Action>) {
    let item = items[id];
    if item.flags.read() {
        (
            items.insert(id, item.with_flags(without_read(item.flags))),
            Some(Action::Unregister { fd: item.fd, interest: Interest::Readable }),
        )
    } else {
        (items, None)
    }
}

/// Resuming reads of stream `id`: without read interest registered, the bit
/// is set and read interest in its fd registered under `id`; otherwise
/// nothing changes.
pub open spec fn resume_read_outcome(items: Map<usize, StreamItem>, id: usize) -> (Map<usize, StreamItem>, Option<Action>) {
    let item = items[id];
    if !item.flags.read() {
        (
            items.insert(id, item.with_flags(with_read(item.flags))),
            Some(Action::Register { fd: item.fd, id, interest: Interest::Readable }),
        )
    } else {
        (items, None)
    }
}

/// After a read attempt on stream `id`: if it would block, the read bit is set
/// and read interest in its fd registered under `id`; otherwise nothing
/// changes.
pub open spec fn read_done_outcome(items: Map<usize, StreamItem>, id: usize, pending: bool) -> (Map<usize, StreamItem>, Option<Action>) {
    let item = items[id];
    if pending {
        (
            items.insert(id, item.with_flags(with_read(item.flags))),
            Some(Action::Register { fd: item.fd, id, interest: Interest::Readable }),
        )
    } else {
        (items, None)
    }
}

/// After a write attempt on stream `id`: if it would block, the write bit is
/// set and write interest in its fd registered under `id`; otherwise nothing
/// changes.
pub open spec fn write_done_outcome(items: Map<usize, StreamItem>, id: usize, pending: bool) -> (Map<usize, StreamItem>, Option<Action>) {
    let item = items[id];
    if pending {
        (
            items.insert(id, item.with_flags(with_write(item.flags))),
            Some(Action::Register { fd: item.fd, id, interest: Interest::Writable }),
        )
    } else {
        (items, None)
    }
}

/// A failure, with error `token`, reported for stream `id`: nothing for an
/// id that is not registered; otherwise the stream's context is handed that
/// error and, the first time only, the error bit is set, both interest bits
/// cleared and every interest in its fd withdrawn.
pub open spec fn error_outcome(items: Map<usize, StreamItem>, id: usize, token: u64) -> (Map<usize, StreamItem>, Seq<Action>) {
    if !items.dom().contains(id) {
        (items, Seq::empty())
    } else if items[id].flags.error() {
        (items, seq![Action::Stopped { id, token }])
    } else {
        (
            items.insert(id, items[id].with_flags(failed())),
            seq![Action::Stopped { id, token }, Action::UnregisterAll { fd: items[id].fd }],
        )
    }
}

/// Drops one handle of stream `id` in `streams` at once.
fn release_in(streams: &mut Slab<StreamItem>, id: usize) -> (r: Vec<Action>)
    requires
        slab_entries(*old(streams)).dom().contains(id),
        slab_entries(*old(streams))[id].ref_count >= 1,
    ensures
        (slab_entries(*final(streams)), r@) == release_one(slab_entries(*old(streams)), id),
{
    let item = match slab_get(streams, id) {
        Some(item) => item,
        None => {
            proof {
                assert(false);
            }
            return Vec::new();
        },
    };
    if item.ref_count == 1 {
        let removed = slab_remove(streams, id);
        let mut actions: Vec<Action> = Vec::new();
        if removed.has_io {
            actions.push(Action::UnregisterAll { fd: removed.fd });
        }
        actions.push(Action::Dispose { id });
        proof {
            assert(actions@ =~= release_actions(item, id));
        }
        actions
    } else {
        let updated = StreamItem {
            has_io: item.has_io,
            fd: item.fd,
            flags: item.flags,
            ref_count: item.ref_count - 1,
        };
        slab_set(streams, id, updated);
        proof {
            assert(updated == item.with_ref_count((item.ref_count - 1) as usize));
        }
        Vec::new()
    }
}

/// Registry of the streams driven by one poller: each stream's state, the
/// readiness events waiting to be committed, and the handle drops that had
/// to wait because the streams were held.
pub struct StreamOps {
    streams: Slab<StreamItem>,
    feed: VecDeque<(usize, Change)>,
    released: VecDeque<usize>,
    busy: bool,
    handles: Ghost<Map<usize, nat>>,
}

impl StreamOps {
    /// The registered streams, by id.
    pub closed spec fn items(&self) -> Map<usize, StreamItem> {
        slab_entries(self.streams)
    }

    /// Readiness events waiting for the next commit, oldest first.
    pub closed spec fn changes(&self) -> Seq<(usize, Change)> {
        self.feed@
    }

    /// Handle drops deferred until the next commit ends, oldest first.
    pub closed spec fn pending_releases(&self) -> Seq<usize> {
        self.released@
    }

    /// The streams are held: a commit, or some other work on them, is in
    /// progress, and handle drops must wait.
    pub closed spec fn busy(&self) -> bool {
        self.busy
    }

    /// Live handles by stream id: handles handed out by `register` and
    /// `clone_ref` and not yet given back to `drop_ref`.
    pub closed spec fn handles(&self) -> Map<usize, nat> {
        self.handles@
    }

    /// How many live handles stream `id` has.
    pub open spec fn live(&self, id: usize) -> nat {
        if self.handles().dom().contains(id) {
            self.handles()[id]
        } else {
            0
        }
    }

    /// How many deferred drops name `id`.
    pub open spec fn pending_for(&self, id: usize) -> nat {
        self.pending_releases().to_multiset().count(id)
    }

    /// Every stream's count is its live handles plus the drops of it still
    /// deferred, and is at least one; its flags are well-formed; a stream id
    /// with a live handle or a deferred drop is registered.
    pub open spec fn wf(&self) -> bool {
        &&& forall|id: usize| #[trigger]
            self.items().dom().contains(id) ==> self.items()[id].ref_count >= 1
                && self.items()[id].flags.wf() && self.items()[id].ref_count == self.live(id)
                + self.pending_for(id)
        &&& forall|id: usize| #[trigger] self.live(id) > 0 ==> self.items().dom().contains(id)
        &&& forall|id: usize| #[trigger]
            self.pending_for(id) > 0 ==> self.items().dom().contains(id) && self.pending_for(id)
                <= self.items()[id].ref_count
    }

    /// Well-formedness carries over to an update that keeps the deferred
    /// drops, the live handles, every stream id and every count, and only
    /// writes well-formed flags.
    proof fn lemma_wf_after_update(&self, prev: StreamOps)
        requires
            prev.wf(),
            self.pending_releases() == prev.pending_releases(),
            self.handles() == prev.handles(),
            self.items().dom() == prev.items().dom(),
            forall|id: usize| #[trigger]
                self.items().dom().contains(id) ==> self.items()[id].ref_count
                    == prev.items()[id].ref_count && self.items()[id].flags.wf(),
        ensures
            self.wf(),
    {
        assert forall|id: usize| #[trigger]
            self.items().dom().contains(id) implies self.items()[id].ref_count >= 1
                && self.items()[id].flags.wf() && self.items()[id].ref_count == self.live(id)
                + self.pending_for(id) by {
            assert(prev.items().dom().contains(id));
            assert(prev.pending_for(id) == self.pending_for(id));
        }
        assert forall|id: usize| #[trigger] self.live(id) > 0 implies self.items().dom().contains(
            id,
        ) by {
            assert(prev.live(id) > 0);
        }
        assert forall|id: usize| #[trigger] self.pending_for(id) > 0 implies self.items().dom().contains(
            id,
        ) && self.pending_for(id) <= self.items()[id].ref_count by {
            assert(prev.pending_for(id) == self.pending_for(id));
            assert(prev.items().dom().contains(id));
        }
    }

    /// Well-formedness carries over to an update of stream `id` alone, whose
    /// deferred drops are kept, when that stream's new state is itself
    /// consistent.
    proof fn lemma_wf_changed_one(&self, prev: StreamOps, id: usize)
        requires
            prev.wf(),
            self.pending_releases() == prev.pending_releases(),
            forall|j: usize| j != id ==> #[trigger] self.live(j) == prev.live(j),
            forall|j: usize| j != id ==> (#[trigger] self.items().dom().contains(j)
                == prev.items().dom().contains(j)),
            forall|j: usize| #![trigger self.items()[j]]
                j != id && prev.items().dom().contains(j) ==> self.items()[j] == prev.items()[j],
            self.items().dom().contains(id) ==> self.items()[id].ref_count >= 1
                && self.items()[id].flags.wf() && self.items()[id].ref_count == self.live(id)
                + self.pending_for(id),
            !self.items().dom().contains(id) ==> self.live(id) == 0 && self.pending_for(id) == 0,
        ensures
            self.wf(),
    {
        assert forall|j: usize| #[trigger]
            self.items().dom().contains(j) implies self.items()[j].ref_count >= 1
                && self.items()[j].flags.wf() && self.items()[j].ref_count == self.live(j)
                + self.pending_for(j) by {
            if j != id {
                assert(prev.items().dom().contains(j));
                assert(prev.pending_for(j) == self.pending_for(j));
            }
        }
        assert forall|j: usize| #[trigger] self.live(j) > 0 implies self.items().dom().contains(j) by {
            if j != id {
                assert(prev.live(j) > 0);
            }
        }
        assert forall|j: usize| #[trigger] self.pending_for(j) > 0 implies self.items().dom().contains(
            j,
        ) && self.pending_for(j) <= self.items()[j].ref_count by {
            assert(prev.pending_for(j) == self.pending_for(j));
            if j != id {
                assert(prev.items().dom().contains(j));
            }
        }
    }

    /// Well-formedness carries over to deferring a drop of stream `id`, whose
    /// handle stops being live while its count stays.
    proof fn lemma_wf_deferred_drop(&self, prev: StreamOps, id: usize)
        requires
            prev.wf(),
            prev.live(id) > 0,
            self.items() == prev.items(),
            self.pending_releases() == prev.pending_releases().push(id),
            self.handles() == prev.handles().insert(id, (prev.live(id) - 1) as nat),
        ensures
            self.wf(),
    {
        assert(prev.items().dom().contains(id));
        assert forall|j: usize| #[trigger]
            self.items().dom().contains(j) implies self.items()[j].ref_count >= 1
                && self.items()[j].flags.wf() && self.items()[j].ref_count == self.live(j)
                + self.pending_for(j) by {
            assert(prev.items().dom().contains(j));
        }
        assert forall|j: usize| #[trigger] self.live(j) > 0 implies self.items().dom().contains(j) by {
            if j != id {
                assert(prev.live(j) > 0);
            }
        }
        assert forall|j: usize| #[trigger] self.pending_for(j) > 0 implies self.items().dom().contains(
            j,
        ) && self.pending_for(j) <= self.items()[j].ref_count by {
            if j != id {
                assert(prev.pending_for(j) == self.pending_for(j));
                assert(prev.items().dom().contains(j));
            }
        }
    }

    /// With no deferred drop left, well-formedness holds when every stream's
    /// count is its live handles, at least one, its flags are well-formed,
    /// and every live handle names a stream; the handles are `prev`'s.
    proof fn lemma_wf_no_pending(&self, prev: StreamOps)
        requires
            self.pending_releases().len() == 0,
            self.handles() == prev.handles(),
            forall|j: usize| #[trigger]
                self.items().dom().contains(j) ==> self.items()[j].ref_count >= 1
                    && self.items()[j].flags.wf() && self.items()[j].ref_count == prev.live(j),
            forall|j: usize| #[trigger] prev.live(j) > 0 ==> self.items().dom().contains(j),
        ensures
            self.wf(),
    {
        assert(self.pending_releases() =~= Seq::<usize>::empty());
        assert forall|j: usize| #[trigger]
            self.items().dom().contains(j) implies self.items()[j].ref_count >= 1
                && self.items()[j].flags.wf() && self.items()[j].ref_count == self.live(j)
                + self.pending_for(j) by {}
        assert forall|j: usize| #[trigger] self.live(j) > 0 implies self.items().dom().contains(j) by {
            assert(prev.live(j) > 0);
        }
    }

    /// Well-formedness depends only on the items, the live handles and the
    /// deferred drops.
    proof fn lemma_wf_same(&self, prev: StreamOps)
        requires
            prev.wf(),
            self.items() == prev.items(),
            self.pending_releases() == prev.pending_releases(),
            self.handles() == prev.handles(),
        ensures
            self.wf(),
    {
        assert forall|id: usize| #[trigger]
            self.items().dom().contains(id) implies self.items()[id].ref_count >= 1
                && self.items()[id].flags.wf() && self.items()[id].ref_count == self.live(id)
                + self.pending_for(id) by {
            assert(prev.items().dom().contains(id));
            assert(prev.pending_for(id) == self.pending_for(id));
        }
        assert forall|id: usize| #[trigger] self.live(id) > 0 implies self.items().dom().contains(
            id,
        ) by {
            assert(prev.live(id) > 0);
        }
        assert forall|id: usize| #[trigger] self.pending_for(id) > 0 implies self.items().dom().contains(
            id,
        ) && self.pending_for(id) <= self.items()[id].ref_count by {
            assert(prev.pending_for(id) == self.pending_for(id));
        }
    }

    /// An empty registry: no stream, no event, no deferred drop.
    pub fn new() -> (r: StreamOps)
        ensures
            r.wf(),
            r.items().dom().is_empty(),
            r.changes().len() == 0,
            r.pending_releases().len() == 0,
            r.handles().dom().is_empty(),
            !r.busy(),
    {
        StreamOps {
            streams: slab_new(),
            feed: VecDeque::new(),
            released: VecDeque::new(),
            busy: false,
            handles: Ghost(Map::empty()),
        }
    }

    /// Registers a stream on `fd` with one handle, no interest and its I/O
    /// object in place; returns the id it was given, which was free.
    pub fn register(&mut self, fd: i32) -> (id: usize)
        requires
            old(self).wf(),
        ensures
            final(self).wf(),
            !old(self).items().dom().contains(id),
            final(self).items() == old(self).items().insert(id, StreamItem::fresh(fd)),
            final(self).changes() == old(self).changes(),
            final(self).pending_releases() == old(self).pending_releases(),
            final(self).handles() == old(self).handles().insert(id, 1),
            final(self).busy() == old(self).busy(),
    {
        let item = StreamItem { has_io: true, fd, flags: Flags::empty(), ref_count: 1 };
        let id = slab_insert(&mut self.streams, item);
        proof {
            assert(old(self).pending_for(id) == 0);
            assert(old(self).live(id) == 0);
            self.handles@ = self.handles@.insert(id, 1);
            self.lemma_wf_changed_one(*old(self), id);
        }
        id
    }

    /// Whether `id` names a registered stream.
    pub fn contains(&self, id: usize) -> (r: bool)
        ensures
            r == self.items().dom().contains(id),
    {
        slab_get(&self.streams, id).is_some()
    }

    /// The state of stream `id`, if it is registered.
    pub fn item(&self, id: usize) -> (r: Option<StreamItem>)
        ensures
            r == (if self.items().dom().contains(id) {
                Some(self.items()[id])
            } else {
                None
            }),
    {
        slab_get(&self.streams, id)
    }

    /// Reads the item of a registered stream.
    fn item_of(&self, id: usize) -> (r: StreamItem)
        requires
            self.items().dom().contains(id),
        ensures
            r == self.items()[id],
    {
        match slab_get(&self.streams, id) {
            Some(item) => item,
            None => {
                proof {
                    assert(false);
                }
                StreamItem { has_io: false, fd: 0, flags: Flags::empty(), ref_count: 0 }
            },
        }
    }

    /// A new handle to stream `id`: its count goes up by one.
    pub fn clone_ref(&mut self, id: usize)
        requires
            old(self).wf(),
            old(self).items().dom().contains(id),
            old(self).items()[id].ref_count < usize::MAX,
        ensures
            final(self).wf(),
            final(self).items() == old(self).items().insert(
                id,
                old(self).items()[id].with_ref_count((old(self).items()[id].ref_count + 1) as usize),
            ),
            final(self).changes() == old(self).changes(),
            final(self).pending_releases() == old(self).pending_releases(),
            final(self).handles() == old(self).handles().insert(id, old(self).live(id) + 1),
            final(self).busy() == old(self).busy(),
    {
        let item = self.item_of(id);
        let updated = StreamItem {
            has_io: item.has_io,
            fd: item.fd,
            flags: item.flags,
            ref_count: item.ref_count + 1,
        };
        slab_set(&mut self.streams, id, updated);
        proof {
            self.handles@ = self.handles@.insert(id, old(self).live(id) + 1);
            self.lemma_wf_changed_one(*old(self), id);
        }
    }

    /// Takes the I/O object of stream `id` out for closing: returns its fd if
    /// it was still there, `None` if it had already been taken.
    pub fn take_io(&mut self, id: usize) -> (r: Option<i32>)
        requires
            old(self).wf(),
            old(self).items().dom().contains(id),
        ensures
            final(self).wf(),
            r == (if old(self).items()[id].has_io {
                Some(old(self).items()[id].fd)
            } else {
                None
            }),
            final(self).items() == old(self).items().insert(
                id,
                StreamItem { has_io: false, ..old(self).items()[id] },
            ),
            final(self).changes() == old(self).changes(),
            final(self).pending_releases() == old(self).pending_releases(),
            final(self).handles() == old(self).handles(),
            final(self).busy() == old(self).busy(),
    {
        let item = self.item_of(id);
        let updated = StreamItem {
            has_io: false,
            fd: item.fd,
            flags: item.flags,
            ref_count: item.ref_count,
        };
        slab_set(&mut self.streams, id, updated);
        proof {
            assert(self.items().dom() =~= old(self).items().dom());
            self.lemma_wf_after_update(*old(self));
        }
        if item.has_io {
            Some(item.fd)
        } else {
            None
        }
    }

    /// Writes new flags into stream `id`, keeping the rest of its item.
    fn set_flags(&mut self, id: usize, item: StreamItem, flags: Flags)
        requires
            old(self).wf(),
            old(self).items().dom().contains(id),
            item == old(self).items()[id],
            flags.wf(),
        ensures
            final(self).wf(),
            final(self).items() == old(self).items().insert(id, item.with_flags(flags)),
            final(self).changes() == old(self).changes(),
            final(self).pending_releases() == old(self).pending_releases(),
            final(self).handles() == old(self).handles(),
            final(self).busy() == old(self).busy(),
    {
        let updated = StreamItem {
            has_io: item.has_io,
            fd: item.fd,
            flags,
            ref_count: item.ref_count,
        };
        slab_set(&mut self.streams, id, updated);
        proof {
            assert(self.items().dom() =~= old(self).items().dom());
            self.lemma_wf_after_update(*old(self));
        }
    }

    /// Pauses all I/O of stream `id`: if read or write interest is
    /// registered, both bits are cleared and every interest in its fd is
    /// withdrawn; otherwise nothing changes.
    pub fn pause_all(&mut self, id: usize) -> (r: Option<Action>)
        requires
            old(self).wf(),
            old(self).items().dom().contains(id),
        ensures
            final(self).wf(),
            (final(self).items(), r) == pause_all_outcome(old(self).items(), id),
            final(self).changes() == old(self).changes(),
            final(self).pending_releases() == old(self).pending_releases(),
            final(self).handles() == old(self).handles(),
            final(self).busy() == old(self).busy(),
    {
        let item = self.item_of(id);
        if item.flags.intersects(Flags::read_write()) {
            let mut flags = item.flags;
            flags.remove(Flags::read_write());
            self.set_flags(id, item, flags);
            Some(Action::UnregisterAll { fd: item.fd })
        } else {
            None
        }
    }

    /// Pauses reading of stream `id`: if read interest is registered, the bit
    /// is cleared and the read interest in its fd withdrawn; otherwise
    /// nothing changes.
    pub fn pause_read(&mut self, id: usize) -> (r: Option<Action>)
        requires
            old(self).wf(),
            old(self).items().dom().contains(id),
        ensures
            final(self).wf(),
            (final(self).items(), r) == pause_read_outcome(old(self).items(), id),
            final(self).changes() == old(self).changes(),
            final(self).pending_releases() == old(self).pending_releases(),
            final(self).handles() == old(self).handles(),
            final(self).busy() == old(self).busy(),
    {
        let item = self.item_of(id);
        if item.flags.contains(Flags::read_flag()) {
            let mut flags = item.flags;
            flags.remove(Flags::read_flag());
            self.set_flags(id, item, flags);
            Some(Action::Unregister { fd: item.fd, interest: Interest::Readable })
        } else {
            None
        }
    }

    /// Resumes reading of stream `id`: if read interest is not registered,
    /// the bit is set and read interest in its fd is registered under `id`;
    /// otherwise nothing changes.
    pub fn resume_read(&mut self, id: usize) -> (r: Option<Action>)
        requires
            old(self).wf(),
            old(self).items().dom().contains(id),
        ensures
            final(self).wf(),
            (final(self).items(), r) == resume_read_outcome(old(self).items(), id),
            final(self).changes() == old(self).changes(),
            final(self).pending_releases() == old(self).pending_releases(),
            final(self).handles() == old(self).handles(),
            final(self).busy() == old(self).busy(),
    {
        let item = self.item_of(id);
        if !item.flags.contains(Flags::read_flag()) {
            let mut flags = item.flags;
            flags.insert(Flags::read_flag());
            self.set_flags(id, item, flags);
            Some(Action::Register { fd: item.fd, id, interest: Interest::Readable })
        } else {
            None
        }
    }

    /// Resuming writes of stream `id` starts with a write attempt exactly
    /// when write interest is not registered; this tells which.
    pub fn resume_write(&self, id: usize) -> (r: bool)
        requires
            self.wf(),
            self.items().dom().contains(id),
        ensures
            r == !self.items()[id].flags.write(),
    {
        let item = self.item_of(id);
        !item.flags.contains(Flags::write_flag())
    }

    /// After a read attempt on stream `id`: when the read would block, the
    /// read bit is set and read interest in its fd is registered under `id`;
    /// otherwise nothing changes.
    pub fn read_done(&mut self, id: usize, pending: bool) -> (r: Option<Action>)
        requires
            old(self).wf(),
            old(self).items().dom().contains(id),
        ensures
            final(self).wf(),
            (final(self).items(), r) == read_done_outcome(old(self).items(), id, pending),
            final(self).changes() == old(self).changes(),
            final(self).pending_releases() == old(self).pending_releases(),
            final(self).handles() == old(self).handles(),
            final(self).busy() == old(self).busy(),
    {
        if pending {
            let item = self.item_of(id);
            let mut flags = item.flags;
            flags.insert(Flags::read_flag());
            self.set_flags(id, item, flags);
            Some(Action::Register { fd: item.fd, id, interest: Interest::Readable })
        } else {
            None
        }
    }

    /// After a write attempt on stream `id`: when the write would block, the
    /// write bit is set and write interest in its fd is registered under
    /// `id`; otherwise nothing changes.
    pub fn write_done(&mut self, id: usize, pending: bool) -> (r: Option<Action>)
        requires
            old(self).wf(),
            old(self).items().dom().contains(id),
        ensures
            final(self).wf(),
            (final(self).items(), r) == write_done_outcome(old(self).items(), id, pending),
            final(self).changes() == old(self).changes(),
            final(self).pending_releases() == old(self).pending_releases(),
            final(self).handles() == old(self).handles(),
            final(self).busy() == old(self).busy(),
    {
        if pending {
            let item = self.item_of(id);
            let mut flags = item.flags;
            flags.insert(Flags::write_flag());
            self.set_flags(id, item, flags);
            Some(Action::Register { fd: item.fd, id, interest: Interest::Writable })
        } else {
            None
        }
    }

    /// Queues a readiness event for the next commit.
    fn push_change(&mut self, id: usize, change: Change)
        requires
            old(self).wf(),
        ensures
            final(self).wf(),
            final(self).items() == old(self).items(),
            final(self).changes() == old(self).changes().push((id, change)),
            final(self).pending_releases() == old(self).pending_releases(),
            final(self).handles() == old(self).handles(),
            final(self).busy() == old(self).busy(),
    {
        self.feed.push_back((id, change));
        proof {
            self.lemma_wf_same(*old(self));
        }
    }

    /// The poller reports stream `id` readable: queued for the next commit.
    pub fn readable(&mut self, id: usize)
        requires
            old(self).wf(),
        ensures
            final(self).wf(),
            final(self).items() == old(self).items(),
            final(self).changes() == old(self).changes().push((id, Change::Readable)),
            final(self).pending_releases() == old(self).pending_releases(),
            final(self).handles() == old(self).handles(),
            final(self).busy() == old(self).busy(),
    {
        self.push_change(id, Change::Readable);
    }

    /// The poller reports stream `id` writable: queued for the next commit.
    pub fn writable(&mut self, id: usize)
        requires
            old(self).wf(),
        ensures
            final(self).wf(),
            final(self).items() == old(self).items(),
            final(self).changes() == old(self).changes().push((id, Change::Writable)),
            final(self).pending_releases() == old(self).pending_releases(),
            final(self).handles() == old(self).handles(),
            final(self).busy() == old(self).busy(),
    {
        self.push_change(id, Change::Writable);
    }

    /// The poller reports a failure of stream `id`: queued for the next
    /// commit under `token`, which names the error value the caller keeps.
    pub fn error(&mut self, id: usize, token: u64)
        requires
            old(self).wf(),
        ensures
            final(self).wf(),
            final(self).items() == old(self).items(),
            final(self).changes() == old(self).changes().push((id, Change::Error { token })),
            final(self).pending_releases() == old(self).pending_releases(),
            final(self).handles() == old(self).handles(),
            final(self).busy() == old(self).busy(),
    {
        self.push_change(id, Change::Error { token });
    }

    /// Starts a commit of the queued events. With no event queued there is
    /// nothing to commit: returns `false` and changes nothing. Otherwise the
    /// streams are held, so that handle drops are deferred, and it returns
    /// `true`. The streams must not be held already when there is work.
    pub fn begin_commit(&mut self) -> (r: bool)
        requires
            old(self).wf(),
            old(self).changes().len() > 0 ==> !old(self).busy(),
        ensures
            final(self).wf(),
            r == (old(self).changes().len() > 0),
            final(self).items() == old(self).items(),
            final(self).changes() == old(self).changes(),
            final(self).pending_releases() == old(self).pending_releases(),
            final(self).handles() == old(self).handles(),
            final(self).busy() == (r || old(self).busy()),
    {
        if self.feed.len() == 0 {
            false
        } else {
            self.busy = true;
            proof {
                self.lemma_wf_same(*old(self));
            }
            true
        }
    }

    /// Takes the oldest queued event, if any.
    pub fn next_change(&mut self) -> (r: Option<(usize, Change)>)
        requires
            old(self).wf(),
        ensures
            final(self).wf(),
            old(self).changes().len() == 0 ==> r.is_none()
                && final(self).changes() == old(self).changes(),
            old(self).changes().len() > 0 ==> r == Some(old(self).changes()[0])
                && final(self).changes() == old(self).changes().drop_first(),
            final(self).items() == old(self).items(),
            final(self).pending_releases() == old(self).pending_releases(),
            final(self).handles() == old(self).handles(),
            final(self).busy() == old(self).busy(),
    {
        let next = self.feed.pop_front();
        proof {
            self.lemma_wf_same(*old(self));
            if next is Some {
                assert(self.feed@ =~= old(self).feed@.drop_first());
            }
        }
        next
    }

    /// Handles a failure of stream `id`. A stream that is no longer
    /// registered calls for nothing. Otherwise its context is told that it
    /// stopped, and, the first time only, the error bit is set, both
    /// interest bits are cleared and every interest in its fd is withdrawn.
    pub fn on_error(&mut self, id: usize, token: u64) -> (r: Vec<Action>)
        requires
            old(self).wf(),
        ensures
            final(self).wf(),
            (final(self).items(), r@) == error_outcome(old(self).items(), id, token),
            final(self).changes() == old(self).changes(),
            final(self).pending_releases() == old(self).pending_releases(),
            final(self).handles() == old(self).handles(),
            final(self).busy() == old(self).busy(),
    {
        match slab_get(&self.streams, id) {
            None => {
                proof {
                    self.lemma_wf_same(*old(self));
                }
                Vec::new()
            },
            Some(item) => {
                assert(old(self).items().dom().contains(id));
                let mut actions: Vec<Action> = Vec::new();
                actions.push(Action::Stopped { id, token });
                if !item.flags.contains(Flags::error_flag()) {
                    let mut flags = item.flags;
                    flags.insert(Flags::error_flag());
                    flags.remove(Flags::read_write());
                    self.set_flags(id, item, flags);
                    actions.push(Action::UnregisterAll { fd: item.fd });
                }
                proof {
                    assert(actions@ =~= (if item.flags.error() {
                        seq![Action::Stopped { id, token }]
                    } else {
                        seq![Action::Stopped { id, token }, Action::UnregisterAll { fd: item.fd }]
                    }));
                }
                actions
            },
        }
    }

    /// Drops a live handle of stream `id`. While the streams are held the
    /// drop is deferred until the next commit ends, and nothing else
    /// changes. Otherwise the count goes down by one and, when it reaches
    /// zero, the stream is removed, its interests are withdrawn if it still
    /// has its I/O object, and it is disposed of. Either way the handle is
    /// no longer live.
    pub fn drop_ref(&mut self, id: usize) -> (r: Vec<Action>)
        requires
            old(self).wf(),
            old(self).live(id) > 0,
        ensures
            final(self).wf(),
            old(self).busy() ==> {
                &&& r@ == Seq::<Action>::empty()
                &&& final(self).items() == old(self).items()
                &&& final(self).pending_releases() == old(self).pending_releases().push(id)
            },
            !old(self).busy() ==> {
                &&& (final(self).items(), r@) == release_one(old(self).items(), id)
                &&& final(self).pending_releases() == old(self).pending_releases()
            },
            final(self).handles() == old(self).handles().insert(id, (old(self).live(id) - 1) as nat),
            final(self).changes() == old(self).changes(),
            final(self).busy() == old(self).busy(),
    {
        proof {
            assert(old(self).items().dom().contains(id));
        }
        if self.busy {
            self.released.push_back(id);
            proof {
                self.handles@ = self.handles@.insert(id, (old(self).live(id) - 1) as nat);
                self.lemma_wf_deferred_drop(*old(self), id);
            }
            Vec::new()
        } else {
            let actions = release_in(&mut self.streams, id);
            proof {
                self.handles@ = self.handles@.insert(id, (old(self).live(id) - 1) as nat);
                self.lemma_wf_changed_one(*old(self), id);
            }
            actions
        }
    }

    /// Ends a commit: every deferred drop is carried out, oldest
    /// first, as `drop_ref` on free streams would; returns all the actions
    /// they call for, in order, and frees the streams.
    pub fn end_commit(&mut self) -> (r: Vec<Action>)
        requires
            old(self).wf(),
        ensures
            final(self).wf(),
            (final(self).items(), r@) == release_all(
                old(self).items(),
                old(self).pending_releases(),
            ),
            final(self).pending_releases().len() == 0,
            final(self).handles() == old(self).handles(),
            !final(self).busy(),
            final(self).changes() == old(self).changes(),
    {
        let ghost items0 = old(self).items();
        let ghost ids = old(self).pending_releases();
        let mut actions: Vec<Action> = Vec::new();
        let n = self.released.len();
        let mut i: usize = 0;
        proof {
            assert(ids.skip(0) =~= ids);
            assert(ids.take(0) =~= Seq::<usize>::empty());
            assert forall|j: usize| #[trigger]
                items0.dom().contains(j) implies items0[j].ref_count >= 1 && items0[j].flags.wf()
                    && items0[j].ref_count == old(self).live(j) + ids.skip(0).to_multiset().count(
                    j,
                ) by {
                assert(old(self).items().dom().contains(j));
            }
            assert forall|j: usize| #[trigger]
                ids.skip(0).to_multiset().count(j) > 0 implies items0.dom().contains(j) by {
                assert(old(self).pending_for(j) > 0);
            }
        }
        while i < n
            invariant
                0 <= i <= n,
                n == ids.len(),
                self.released@ == ids,
                self.feed@ == old(self).feed@,
                self.handles@ == old(self).handles@,
                (slab_entries(self.streams), actions@) == release_all(items0, ids.take(i as int)),
                forall|j: usize| #[trigger]
                    slab_entries(self.streams).dom().contains(j) ==> slab_entries(
                        self.streams,
                    )[j].ref_count >= 1 && slab_entries(self.streams)[j].flags.wf()
                        && slab_entries(self.streams)[j].ref_count == old(self).live(j) + ids.skip(
                        i as int,
                    ).to_multiset().count(j),
                forall|j: usize| #[trigger]
                    ids.skip(i as int).to_multiset().count(j) > 0 ==> slab_entries(
                        self.streams,
                    ).dom().contains(j),
                forall|j: usize| #[trigger]
                    old(self).live(j) > 0 ==> slab_entries(self.streams).dom().contains(j),
            decreases n - i,
        {
            let id = self.released[i];
            let ghost rest = ids.skip(i as int);
            let ghost before = slab_entries(self.streams);
            proof {
                assert(rest[0] == id);
                assert(rest.contains(id));
                assert(rest.to_multiset().count(id) > 0);
                assert(before.dom().contains(id));
            }
            let mut acts = release_in(&mut self.streams, id);
            actions.append(&mut acts);
            proof {
                let after = slab_entries(self.streams);
                let next = ids.skip(i + 1);
                assert(next =~= rest.remove(0));
                assert(ids.take(i + 1).drop_last() =~= ids.take(i as int));
                assert(ids.take(i + 1).last() == id);
                assert forall|j: usize| #[trigger]
                    after.dom().contains(j) implies after[j].ref_count >= 1 && after[j].flags.wf()
                        && after[j].ref_count == old(self).live(j) + next.to_multiset().count(j) by {
                    assert(before.dom().contains(j));
                }
                assert forall|j: usize| #[trigger]
                    next.to_multiset().count(j) > 0 implies after.dom().contains(j) by {
                    assert(rest.to_multiset().count(j) > 0);
                    assert(before.dom().contains(j));
                }
                assert forall|j: usize| #[trigger]
                    old(self).live(j) > 0 implies after.dom().contains(j) by {
                    assert(before.dom().contains(j));
                }
            }
            i = i + 1;
        }
        proof {
            assert(ids.take(n as int) =~= ids);
            assert(ids.skip(n as int) =~= Seq::<usize>::empty());
        }
        self.released.clear();
        self.busy = false;
        proof {
            assert(self.released@ =~= ids.skip(n as int));
            self.lemma_wf_no_pending(*old(self));
        }
        actions
    }

    /// Whether the streams are held.
    pub fn is_busy(&self) -> (r: bool)
        ensures
            r == self.busy(),
    {
        self.busy
    }

    /// Holds the streams while outside work on them runs: handle drops made
    /// meanwhile are deferred. The streams must be free.
    pub fn hold(&mut self)
        requires
            old(self).wf(),
            !old(self).busy(),
        ensures
            final(self).wf(),
            final(self).busy(),
            final(self).items() == old(self).items(),
            final(self).changes() == old(self).changes(),
            final(self).pending_releases() == old(self).pending_releases(),
            final(self).handles() == old(self).handles(),
    {
        self.busy = true;
        proof {
            self.lemma_wf_same(*old(self));
        }
    }

    /// Frees held streams. Drops deferred meanwhile stay queued until the
    /// next commit ends.
    pub fn unhold(&mut self)
        requires
            old(self).wf(),
        ensures
            final(self).wf(),
            !final(self).busy(),
            final(self).items() == old(self).items(),
            final(self).changes() == old(self).changes(),
            final(self).pending_releases() == old(self).pending_releases(),
            final(self).handles() == old(self).handles(),
    {
        self.busy = false;
        proof {
            self.lemma_wf_same(*old(self));
        }
    }

    /// Whether readiness events are waiting for a commit.
    pub fn has_changes(&self) -> (r: bool)
        ensures
            r == (self.changes().len() > 0),
    {
        self.feed.len() > 0
    }

    /// How many deferred drops name stream `id`.
    pub fn pending_drops(&self, id: usize) -> (r: usize)
        ensures
            r == self.pending_for(id),
    {
        let ghost ids = self.released@;
        let mut count: usize = 0;
        let mut i: usize = 0;
        proof {
            assert(ids.take(0) =~= Seq::<usize>::empty());
        }
        while i < self.released.len()
            invariant
                ids == self.released@,
                0 <= i <= ids.len(),
                count == ids.take(i as int).to_multiset().count(id),
                count <= i,
            decreases ids.len() - i,
        {
            proof {
                assert(ids.take(i + 1) =~= ids.take(i as int).push(ids[i as int]));
            }
            if self.released[i] == id {
                count = count + 1;
            }
            i = i + 1;
        }
        proof {
            assert(ids.take(i as int) =~= ids);
        }
        count
    }

    /// How many live handles stream `id` has.
    pub fn live_handles(&self, id: usize) -> (r: usize)
        requires
            self.wf(),
        ensures
            r == self.live(id),
    {
        let pending = self.pending_drops(id);
        match slab_get(&self.streams, id) {
            Some(item) => {
                proof {
                    assert(self.items().dom().contains(id));
                    assert(item == self.items()[id]);
                    assert(pending == self.pending_for(id));
                    assert(item.ref_count == self.live(id) + self.pending_for(id));
                }
                item.ref_count - pending
            },
            None => {
                proof {
                    assert(!self.items().dom().contains(id));
                    if self.live(id) > 0 {
                        assert(self.items().dom().contains(id));
                    }
                }
                0
            },
        }
    }
}

} // verus!
