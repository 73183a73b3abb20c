use vstd::prelude::*;

use crate::driver::{
    StreamOps, error_outcome, read_done_outcome, write_done_outcome, pause_all_outcome, pause_read_outcome, release_all, release_one,
    resume_read_outcome, Action, Interest, StreamItem,
};
use crate::flags::Flags;

verus! {

broadcast use Flags::lemma_from_bools, vstd::seq_lib::group_to_multiset_ensures;

/// Taking a new handle of a stream and dropping it again, outside a commit,
/// leaves every stream as it was and calls for no action.
pub proof fn law_clone_then_drop(items: Map<usize, StreamItem>, id: usize)
    requires
        items.dom().contains(id),
        1 <= items[id].ref_count < usize::MAX,
    ensures
        release_one(
            items.insert(id, items[id].with_ref_count((items[id].ref_count + 1) as usize)),
            id,
        ) == (items, Seq::<Action>::empty()),
{
    let item = items[id];
    let bumped = items.insert(id, item.with_ref_count((item.ref_count + 1) as usize));
    assert(bumped[id].with_ref_count((bumped[id].ref_count - 1) as usize) == item);
    assert(bumped.insert(id, item) =~= items);
}

/// Dropping a handle removes the stream exactly when it was the last one;
/// the other streams are untouched either way.
pub proof fn law_removed_with_last_handle(items: Map<usize, StreamItem>, id: usize)
    requires
        items.dom().contains(id),
        items[id].ref_count >= 1,
    ensures
        release_one(items, id).0.dom().contains(id) <==> items[id].ref_count > 1,
        forall|j: usize|
            j != id ==> (#[trigger] release_one(items, id).0.dom().contains(j) <==> items.dom().contains(j)),
        forall|j: usize|
            j != id && items.dom().contains(j) ==> #[trigger] release_one(items, id).0[j] == items[j],
        items[id].ref_count > 1 ==> release_one(items, id).0[id].ref_count == items[id].ref_count
            - 1,
{
}

/// A drop deferred during a commit has, once the commit ends, the same effect
/// and calls for the same actions as the same drop done at once.
pub proof fn law_deferred_drop_as_immediate(items: Map<usize, StreamItem>, id: usize)
    ensures
        release_all(items, seq![id]) == release_one(items, id),
{
    let ids = seq![id];
    assert(ids.drop_last() =~= Seq::<usize>::empty());
    assert(release_all(items, Seq::<usize>::empty()) == (items, Seq::<Action>::empty()));
    let step = release_one(items, id);
    assert(Seq::<Action>::empty() + step.1 =~= step.1);
}

/// Carrying out deferred drops, whatever their order, lowers each stream's
/// handle count by the number of drops naming it and removes exactly the
/// streams whose count reaches zero; fd, flags and I/O state are untouched.
pub proof fn law_deferred_drops_count(items: Map<usize, StreamItem>, ids: Seq<usize>)
    requires
        forall|j: usize| #[trigger] items.dom().contains(j) ==> items[j].ref_count >= 1,
        forall|j: usize| #[trigger]
            ids.to_multiset().count(j) > 0 ==> items.dom().contains(j)
                && ids.to_multiset().count(j) <= items[j].ref_count,
    ensures
        forall|j: usize| #[trigger]
            release_all(items, ids).0.dom().contains(j) <==> (items.dom().contains(j)
                && items[j].ref_count > ids.to_multiset().count(j)),
        forall|j: usize| #[trigger]
            release_all(items, ids).0.dom().contains(j) ==> release_all(items, ids).0[j]
                == items[j].with_ref_count((items[j].ref_count - ids.to_multiset().count(j)) as usize),
    decreases ids.len(),
{
    if ids.len() == 0 {
        assert(ids.to_multiset() =~= vstd::multiset::Multiset::<usize>::empty());
        assert forall|j: usize| #[trigger]
            release_all(items, ids).0.dom().contains(j) implies release_all(items, ids).0[j]
                == items[j].with_ref_count((items[j].ref_count - ids.to_multiset().count(j)) as usize) by {
            assert(items[j].with_ref_count(items[j].ref_count) == items[j]);
        }
    } else {
        let prefix = ids.drop_last();
        let x = ids.last();
        assert(ids =~= prefix.push(x));
        assert(ids.to_multiset() =~= prefix.to_multiset().insert(x));
        assert forall|j: usize| #[trigger]
            prefix.to_multiset().count(j) > 0 implies items.dom().contains(j)
                && prefix.to_multiset().count(j) <= items[j].ref_count by {
            assert(ids.to_multiset().count(j) > 0);
        }
        law_deferred_drops_count(items, prefix);
        let m = release_all(items, prefix).0;
        assert(ids.to_multiset().count(x) > 0);
        assert(m.dom().contains(x));
        let out = release_all(items, ids).0;
        assert(out == release_one(m, x).0);
        assert forall|j: usize| #[trigger]
            out.dom().contains(j) <==> (items.dom().contains(j) && items[j].ref_count
                > ids.to_multiset().count(j)) by {
            if j != x {
                assert(m.dom().contains(j) == out.dom().contains(j));
            }
        }
        assert forall|j: usize| #[trigger]
            out.dom().contains(j) implies out[j] == items[j].with_ref_count(
                (items[j].ref_count - ids.to_multiset().count(j)) as usize,
            ) by {
            assert(m.dom().contains(j));
        }
    }
}

/// Resuming reads twice is resuming them once: the second call registers
/// nothing and changes nothing.
pub proof fn law_resume_read_idempotent(items: Map<usize, StreamItem>, id: usize)
    requires
        items.dom().contains(id),
        items[id].flags.wf(),
    ensures
        resume_read_outcome(resume_read_outcome(items, id).0, id) == (
            resume_read_outcome(items, id).0,
            None::<Action>,
        ),
{
}

/// Pausing reads right after resuming them, from a stream without read
/// interest, restores the stream and withdraws the interest just registered.
pub proof fn law_pause_undoes_resume(items: Map<usize, StreamItem>, id: usize)
    requires
        items.dom().contains(id),
        items[id].flags.wf(),
        !items[id].flags.read(),
    ensures
        resume_read_outcome(items, id).1 == Some(
            Action::Register { fd: items[id].fd, id, interest: Interest::Readable },
        ),
        pause_read_outcome(resume_read_outcome(items, id).0, id) == (
            items,
            Some(Action::Unregister { fd: items[id].fd, interest: Interest::Readable }),
        ),
{
    let item = items[id];
    Flags::lemma_from_parts(item.flags);
    let m = resume_read_outcome(items, id).0;
    assert(m[id].with_flags(crate::driver::without_read(m[id].flags)) == item);
    assert(m.insert(id, item) =~= items);
}

/// Resuming reads right after pausing them, from a stream with read
/// interest, restores the stream and registers the interest again.
pub proof fn law_resume_undoes_pause(items: Map<usize, StreamItem>, id: usize)
    requires
        items.dom().contains(id),
        items[id].flags.wf(),
        items[id].flags.read(),
    ensures
        resume_read_outcome(pause_read_outcome(items, id).0, id) == (
            items,
            Some(Action::Register { fd: items[id].fd, id, interest: Interest::Readable }),
        ),
{
    let item = items[id];
    Flags::lemma_from_parts(item.flags);
    let m = pause_read_outcome(items, id).0;
    assert(m[id].with_flags(crate::driver::with_read(m[id].flags)) == item);
    assert(m.insert(id, item) =~= items);
}

/// After pausing all I/O, pausing reads or all I/O again changes nothing and
/// withdraws nothing.
pub proof fn law_pause_all_settles(items: Map<usize, StreamItem>, id: usize)
    requires
        items.dom().contains(id),
        items[id].flags.wf(),
    ensures
        pause_read_outcome(pause_all_outcome(items, id).0, id) == (
            pause_all_outcome(items, id).0,
            None::<Action>,
        ),
        pause_all_outcome(pause_all_outcome(items, id).0, id) == (
            pause_all_outcome(items, id).0,
            None::<Action>,
        ),
{
}

/// A stream's interests are withdrawn on its first failure only: a second
/// failure just hands its own error to the context, and changes nothing.
pub proof fn law_error_withdraws_once(
    items: Map<usize, StreamItem>,
    id: usize,
    first: u64,
    second: u64,
)
    requires
        items.dom().contains(id),
    ensures
        error_outcome(error_outcome(items, id, first).0, id, second) == (
            error_outcome(items, id, first).0,
            seq![Action::Stopped { id, token: second }],
        ),
{
}

/// A stream's handle count is its live handles plus the drops of it still
/// deferred, and a stream is registered exactly while that sum is positive:
/// it is neither removed early nor kept after its last handle is gone. Every
/// registry operation keeps this (each keeps `wf`, and `register`,
/// `clone_ref` and `drop_ref` state how they change the live handles), so it
/// holds after any sequence of them.
pub proof fn law_handle_count(ops: StreamOps)
    requires
        ops.wf(),
    ensures
        forall|id: usize| #[trigger]
            ops.items().dom().contains(id) ==> ops.items()[id].ref_count == ops.live(id)
                + ops.pending_for(id),
        forall|id: usize| #[trigger]
            ops.items().dom().contains(id) <==> ops.live(id) + ops.pending_for(id) > 0,
{
    assert forall|id: usize| #[trigger]
        ops.items().dom().contains(id) <==> ops.live(id) + ops.pending_for(id) > 0 by {
        if !ops.items().dom().contains(id) {
            if ops.live(id) > 0 {
                assert(ops.items().dom().contains(id));
            }
            if ops.pending_for(id) > 0 {
                assert(ops.items().dom().contains(id));
            }
        }
    }
}

/// The other streams, and everything of stream `id` but its flags, are the
/// same in `after` as in `before`.
pub open spec fn only_flags_of_changed(
    before: Map<usize, StreamItem>,
    after: Map<usize, StreamItem>,
    id: usize,
) -> bool {
    &&& after.dom() == before.dom()
    &&& after[id].has_io == before[id].has_io
    &&& after[id].fd == before[id].fd
    &&& after[id].ref_count == before[id].ref_count
    &&& after[id].flags.wf()
    &&& forall|j: usize| j != id && before.dom().contains(j) ==> #[trigger] after[j] == before[j]
}

/// A read attempt that would block registers read interest in the stream's
/// fd under its id and sets the read bit, whatever the flags were before
/// (the poller's interest is one-shot, so it is asked for again each time);
/// the write and error bits stay. A read that does not block changes
/// nothing and asks for nothing.
pub proof fn law_blocked_read_registers(items: Map<usize, StreamItem>, id: usize)
    requires
        items.dom().contains(id),
        items[id].flags.wf(),
    ensures
        read_done_outcome(items, id, true).1 == Some(
            Action::Register { fd: items[id].fd, id, interest: Interest::Readable },
        ),
        only_flags_of_changed(items, read_done_outcome(items, id, true).0, id),
        read_done_outcome(items, id, true).0[id].flags.read(),
        read_done_outcome(items, id, true).0[id].flags.write() == items[id].flags.write(),
        read_done_outcome(items, id, true).0[id].flags.error() == items[id].flags.error(),
        read_done_outcome(items, id, false) == (items, None::<Action>),
{
    let m = read_done_outcome(items, id, true).0;
    assert(m.dom() =~= items.dom());
}

/// A write attempt that would block registers write interest in the
/// stream's fd under its id and sets the write bit, whatever the flags were
/// before; the read and error bits stay. A write that does not block
/// changes nothing and asks for nothing.
pub proof fn law_blocked_write_registers(items: Map<usize, StreamItem>, id: usize)
    requires
        items.dom().contains(id),
        items[id].flags.wf(),
    ensures
        write_done_outcome(items, id, true).1 == Some(
            Action::Register { fd: items[id].fd, id, interest: Interest::Writable },
        ),
        only_flags_of_changed(items, write_done_outcome(items, id, true).0, id),
        write_done_outcome(items, id, true).0[id].flags.write(),
        write_done_outcome(items, id, true).0[id].flags.read() == items[id].flags.read(),
        write_done_outcome(items, id, true).0[id].flags.error() == items[id].flags.error(),
        write_done_outcome(items, id, false) == (items, None::<Action>),
{
    let m = write_done_outcome(items, id, true).0;
    assert(m.dom() =~= items.dom());
}

/// Pausing all I/O leaves neither read nor write interest, keeps the error
/// bit, and withdraws every interest in the fd exactly when read or write
/// interest was registered before.
pub proof fn law_pause_all_clears_interest(items: Map<usize, StreamItem>, id: usize)
    requires
        items.dom().contains(id),
        items[id].flags.wf(),
    ensures
        !pause_all_outcome(items, id).0[id].flags.read(),
        !pause_all_outcome(items, id).0[id].flags.write(),
        pause_all_outcome(items, id).0[id].flags.error() == items[id].flags.error(),
        only_flags_of_changed(items, pause_all_outcome(items, id).0, id),
        pause_all_outcome(items, id).1 is Some <==> (items[id].flags.read()
            || items[id].flags.write()),
        pause_all_outcome(items, id).1 is Some ==> pause_all_outcome(items, id).1 == Some(
            Action::UnregisterAll { fd: items[id].fd },
        ),
{
    let m = pause_all_outcome(items, id).0;
    assert(m.dom() =~= items.dom());
}

/// Pausing reads leaves no read interest and never touches the write or the
/// error bit; it withdraws read interest, and nothing else, exactly when the
/// read bit was set.
pub proof fn law_pause_read_only_reads(items: Map<usize, StreamItem>, id: usize)
    requires
        items.dom().contains(id),
        items[id].flags.wf(),
    ensures
        !pause_read_outcome(items, id).0[id].flags.read(),
        pause_read_outcome(items, id).0[id].flags.write() == items[id].flags.write(),
        pause_read_outcome(items, id).0[id].flags.error() == items[id].flags.error(),
        only_flags_of_changed(items, pause_read_outcome(items, id).0, id),
        pause_read_outcome(items, id).1 is Some <==> items[id].flags.read(),
        pause_read_outcome(items, id).1 is Some ==> pause_read_outcome(items, id).1 == Some(
            Action::Unregister { fd: items[id].fd, interest: Interest::Readable },
        ),
{
    let m = pause_read_outcome(items, id).0;
    assert(m.dom() =~= items.dom());
}

/// Resuming reads leaves read interest set and never touches the write or
/// the error bit; it registers read interest under the stream's id, and
/// nothing else, exactly when the read bit was clear.
pub proof fn law_resume_read_only_reads(items: Map<usize, StreamItem>, id: usize)
    requires
        items.dom().contains(id),
        items[id].flags.wf(),
    ensures
        resume_read_outcome(items, id).0[id].flags.read(),
        resume_read_outcome(items, id).0[id].flags.write() == items[id].flags.write(),
        resume_read_outcome(items, id).0[id].flags.error() == items[id].flags.error(),
        only_flags_of_changed(items, resume_read_outcome(items, id).0, id),
        resume_read_outcome(items, id).1 is Some <==> !items[id].flags.read(),
        resume_read_outcome(items, id).1 is Some ==> resume_read_outcome(items, id).1 == Some(
            Action::Register { fd: items[id].fd, id, interest: Interest::Readable },
        ),
{
    let m = resume_read_outcome(items, id).0;
    assert(m.dom() =~= items.dom());
}

/// A newly registered stream has its I/O object, the given fd, exactly one
/// handle and no bit set.
pub proof fn law_fresh_stream(fd: i32)
    ensures
        StreamItem::fresh(fd).has_io,
        StreamItem::fresh(fd).fd == fd,
        StreamItem::fresh(fd).ref_count == 1,
        StreamItem::fresh(fd).flags.wf(),
        !StreamItem::fresh(fd).flags.error(),
        !StreamItem::fresh(fd).flags.read(),
        !StreamItem::fresh(fd).flags.write(),
{
}

/// A failure of a registered stream always hands its own error to the
/// stream's context first; it leaves the error bit set and no interest, and
/// withdraws every interest in the fd exactly when the error bit was clear.
/// A failure of an unknown id changes nothing and asks for nothing.
pub proof fn law_error_stops_stream(items: Map<usize, StreamItem>, id: usize, token: u64)
    ensures
        !items.dom().contains(id) ==> error_outcome(items, id, token) == (
            items,
            Seq::<Action>::empty(),
        ),
        items.dom().contains(id) ==> {
            let (m, acts) = error_outcome(items, id, token);
            &&& acts.len() >= 1
            &&& acts[0] == Action::Stopped { id, token }
            &&& acts.len() == 2 <==> !items[id].flags.error()
            &&& acts.len() <= 2
            &&& acts.len() == 2 ==> acts[1] == Action::UnregisterAll { fd: items[id].fd }
            &&& (!items[id].flags.error() ==> {
                &&& m[id].flags.error()
                &&& !m[id].flags.read()
                &&& !m[id].flags.write()
                &&& only_flags_of_changed(items, m, id)
            })
            &&& (items[id].flags.error() ==> m == items)
        },
{
    if items.dom().contains(id) {
        let m = error_outcome(items, id, token).0;
        assert(m.dom() =~= items.dom());
    }
}

/// Dropping the last handle of a stream removes it and asks, in this
/// order, to withdraw every interest in its fd (only if its I/O object is
/// still there) and to dispose of it; dropping another handle asks for
/// nothing and only lowers the count.
pub proof fn law_release_actions(items: Map<usize, StreamItem>, id: usize)
    requires
        items.dom().contains(id),
        items[id].ref_count >= 1,
    ensures
        items[id].ref_count == 1 ==> {
            let acts = release_one(items, id).1;
            &&& acts.len() >= 1
            &&& acts.last() == Action::Dispose { id }
            &&& acts.len() == 2 <==> items[id].has_io
            &&& acts.len() <= 2
            &&& acts.len() == 2 ==> acts[0] == Action::UnregisterAll { fd: items[id].fd }
        },
        items[id].ref_count > 1 ==> release_one(items, id).1.len() == 0
            && release_one(items, id).0[id].has_io == items[id].has_io
            && release_one(items, id).0[id].fd == items[id].fd
            && release_one(items, id).0[id].flags == items[id].flags,
{
}

} // verus!
