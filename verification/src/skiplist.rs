//! Trusted interface to the ordered containers of `crossbeam_skiplist`.
//!
//! The routing table keeps its acknowledgment bookkeeping in `SkipMap`s and
//! its set of locally subscribed channels in a `SkipSet`. Verus does not read
//! that crate, so the containers are declared opaque here, their abstract
//! contents are named by uninterpreted view functions, and each operation the
//! routing logic needs is wrapped with a contract over those views.

use crossbeam_skiplist::{SkipMap, SkipSet};
use vstd::prelude::*;

verus! {

#[verifier::external_type_specification]
#[verifier::external_body]
#[verifier::reject_recursive_types(K)]
#[verifier::reject_recursive_types(V)]
pub struct ExSkipMap<K, V>(SkipMap<K, V>);

#[verifier::external_type_specification]
#[verifier::external_body]
#[verifier::reject_recursive_types(T)]
pub struct ExSkipSet<T>(SkipSet<T>);

/// The key-value pairs held by a backward-correlation table
/// (packet identifier to the neighbor awaiting the answer).
pub uninterp spec fn sub_map_view(m: SkipMap<u128, u32>) -> Map<u128, u32>;

/// The key-value pairs held by a pending-acknowledgment count table
/// (packet identifier to the number of answers still outstanding).
pub uninterp spec fn ack_map_view(m: SkipMap<u128, usize>) -> Map<u128, usize>;

/// The elements held by a channel-interest set.
pub uninterp spec fn skip_set_view(s: SkipSet<u128>) -> Set<u128>;

/// The empty backward-correlation table.
pub open spec fn sub_map_empty() -> Map<u128, u32> {
    Map::empty()
}

/// The empty pending-acknowledgment count table.
pub open spec fn ack_map_empty() -> Map<u128, usize> {
    Map::empty()
}

/// Relies on crossbeam_skiplist::SkipMap::new: returns an empty map.
#[verifier::external_body]
pub(crate) fn sub_map_new() -> (m: SkipMap<u128, u32>)
    ensures
        sub_map_view(m) == sub_map_empty(),
{
    SkipMap::new()
}

/// Relies on crossbeam_skiplist::SkipMap::insert: stores the pair, replacing
/// any existing entry with the same key.
#[verifier::external_body]
pub(crate) fn sub_map_insert(m: &mut SkipMap<u128, u32>, key: u128, value: u32)
    ensures
        sub_map_view(*final(m)) == sub_map_view(*old(m)).insert(key, value),
{
    let _ = m.insert(key, value);
}

/// Relies on crossbeam_skiplist::SkipMap::remove: takes the entry with this
/// key out of the map and returns its value, or `None` if the key is absent.
#[verifier::external_body]
pub(crate) fn sub_map_remove(m: &mut SkipMap<u128, u32>, key: u128) -> (r: Option<u32>)
    ensures
        sub_map_view(*final(m)) == sub_map_view(*old(m)).remove(key),
        r == if sub_map_view(*old(m)).dom().contains(key) {
            Some(sub_map_view(*old(m))[key])
        } else {
            None::<u32>
        },
{
    m.remove(&key).map(|e| *e.value())
}

/// Relies on crossbeam_skiplist::SkipMap::new: returns an empty map.
#[verifier::external_body]
pub(crate) fn ack_map_new() -> (m: SkipMap<u128, usize>)
    ensures
        ack_map_view(m) == ack_map_empty(),
{
    SkipMap::new()
}

/// Relies on crossbeam_skiplist::SkipMap::insert: stores the pair, replacing
/// any existing entry with the same key.
#[verifier::external_body]
pub(crate) fn ack_map_insert(m: &mut SkipMap<u128, usize>, key: u128, value: usize)
    ensures
        ack_map_view(*final(m)) == ack_map_view(*old(m)).insert(key, value),
{
    let _ = m.insert(key, value);
}

/// Relies on crossbeam_skiplist::SkipMap::remove: takes the entry with this
/// key out of the map and returns its value, or `None` if the key is absent.
#[verifier::external_body]
pub(crate) fn ack_map_remove(m: &mut SkipMap<u128, usize>, key: u128) -> (r: Option<usize>)
    ensures
        ack_map_view(*final(m)) == ack_map_view(*old(m)).remove(key),
        r == if ack_map_view(*old(m)).dom().contains(key) {
            Some(ack_map_view(*old(m))[key])
        } else {
            None::<usize>
        },
{
    m.remove(&key).map(|e| *e.value())
}

/// Relies on crossbeam_skiplist::SkipSet::new: returns an empty set.
#[verifier::external_body]
pub(crate) fn skip_set_new() -> (s: SkipSet<u128>)
    ensures
        skip_set_view(s) == Set::<u128>::empty(),
{
    SkipSet::new()
}

/// Relies on crossbeam_skiplist::SkipSet::insert: adds the element.
#[verifier::external_body]
pub(crate) fn skip_set_insert(s: &mut SkipSet<u128>, x: u128)
    ensures
        skip_set_view(*final(s)) == skip_set_view(*old(s)).insert(x),
{
    let _ = s.insert(x);
}

/// Relies on crossbeam_skiplist::SkipSet::remove: takes the element out of
/// the set and reports whether it was present.
#[verifier::external_body]
pub(crate) fn skip_set_remove(s: &mut SkipSet<u128>, x: u128) -> (r: bool)
    ensures
        skip_set_view(*final(s)) == skip_set_view(*old(s)).remove(x),
        r == skip_set_view(*old(s)).contains(x),
{
    s.remove(&x).is_some()
}

/// Relies on crossbeam_skiplist::SkipSet::contains: membership test.
#[verifier::external_body]
pub(crate) fn skip_set_contains(s: &SkipSet<u128>, x: u128) -> (r: bool)
    ensures
        r == skip_set_view(*s).contains(x),
{
    s.contains(&x)
}

} // verus!
