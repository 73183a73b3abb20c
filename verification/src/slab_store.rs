use vstd::prelude::*;

use crate::driver::StreamItem;
use slab::Slab;

verus! {

/// The `slab` crate's collection, carried opaquely through verified code.
#[verifier::external_type_specification]
#[verifier::external_body]
#[verifier::reject_recursive_types(T)]
pub struct ExSlab<T>(Slab<T>);

/// What a slab of stream items holds: each occupied key with its item.
pub uninterp spec fn slab_entries(s: Slab<StreamItem>) -> Map<usize, StreamItem>;

/// Calls `Slab::new`: the new slab holds nothing.
#[verifier::external_body]
pub(crate) fn slab_new() -> (created: Slab<StreamItem>)
    ensures
        slab_entries(created).dom().is_empty(),
{
    Slab::new()
}

/// Calls `Slab::insert`: the value is stored under a key that was vacant, and
/// every other entry stays as it was. The key it picks (the head of the slab's
/// free list) is left unsaid, and so is the panic on allocation failure.
#[verifier::external_body]
pub(crate) fn slab_insert(s: &mut Slab<StreamItem>, val: StreamItem) -> (key: usize)
    ensures
        !slab_entries(*old(s)).dom().contains(key),
        slab_entries(*final(s)) == slab_entries(*old(s)).insert(key, val),
{
    s.insert(val)
}

/// Calls `Slab::get`, copying the item out: `Some` of the item under `key`
/// when the key is occupied, `None` otherwise.
#[verifier::external_body]
pub(crate) fn slab_get(s: &Slab<StreamItem>, key: usize) -> (r: Option<StreamItem>)
    ensures
        r == (if slab_entries(*s).dom().contains(key) {
            Some(slab_entries(*s)[key])
        } else {
            None
        }),
{
    s.get(key).copied()
}

/// Writes through `Slab`'s `IndexMut` (`s[key] = val`), which panics on a
/// vacant key: the entry under `key` becomes `val`, nothing else changes.
#[verifier::external_body]
pub(crate) fn slab_set(s: &mut Slab<StreamItem>, key: usize, val: StreamItem)
    requires
        slab_entries(*old(s)).dom().contains(key),
    ensures
        slab_entries(*final(s)) == slab_entries(*old(s)).insert(key, val),
{
    s[key] = val;
}

/// Calls `Slab::remove`, which panics on a vacant key: returns the item under
/// `key` and vacates that key, nothing else changes.
#[verifier::external_body]
pub(crate) fn slab_remove(s: &mut Slab<StreamItem>, key: usize) -> (r: StreamItem)
    requires
        slab_entries(*old(s)).dom().contains(key),
    ensures
        r == slab_entries(*old(s))[key],
        slab_entries(*final(s)) == slab_entries(*old(s)).remove(key),
{
    s.remove(key)
}

} // verus!
