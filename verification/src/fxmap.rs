//! Hash maps with the Fx hasher, keyed by integers.
use rustc_hash::{FxBuildHasher, FxHashMap};
use std::hash::Hash;
use vstd::prelude::*;

verus! {

/// The hasher of `rustc_hash`.
#[verifier::external_type_specification]
#[verifier::external_body]
pub struct ExFxBuildHasher(FxBuildHasher);

/// The keys used here: integers and tuples of integers, whose equality and hash std
/// documents.
pub trait FxKey {

}

impl FxKey for u16 {

}

impl FxKey for u32 {

}

impl FxKey for u64 {

}

impl FxKey for (usize, usize, u64) {

}

/// The map is empty.
pub open spec fn no_entries<K, V>(m: Map<K, V>) -> bool {
    m == Map::<K, V>::empty()
}

/// Calls `FxHashMap::default`, which makes an empty map.
#[verifier::external_body]
pub(crate) fn fx_new<K: FxKey + Copy + Eq + Hash, V>() -> (m: FxHashMap<K, V>)
    ensures
        no_entries(m@),
{
    FxHashMap::default()
}

/// Calls `HashMap::get` with the Fx hasher: the value stored under the key, if there
/// is one.
#[verifier::external_body]
pub(crate) fn fx_get<K: FxKey + Copy + Eq + Hash, V: Copy>(m: &FxHashMap<K, V>, k: K) -> (r: Option<V>)
    ensures
        r == (if m@.contains_key(k) {
            Some(m@[k])
        } else {
            None
        }),
{
    m.get(&k).copied()
}

/// Calls `HashMap::insert` with the Fx hasher: the value is stored under the key.
#[verifier::external_body]
pub(crate) fn fx_insert<K: FxKey + Copy + Eq + Hash, V>(m: &mut FxHashMap<K, V>, k: K, v: V)
    ensures
        final(m)@ == old(m)@.insert(k, v),
{
    m.insert(k, v);
}

/// Calls `HashMap::remove` with the Fx hasher: the key is gone, and the value that
/// was stored under it comes back.
#[verifier::external_body]
pub(crate) fn fx_remove<K: FxKey + Copy + Eq + Hash, V>(m: &mut FxHashMap<K, V>, k: K) -> (r: Option<V>)
    ensures
        final(m)@ == old(m)@.remove(k),
        r == (if old(m)@.contains_key(k) {
            Some(old(m)@[k])
        } else {
            None
        }),
{
    m.remove(&k)
}

/// Calls `HashMap::clear` with the Fx hasher: nothing is left.
#[verifier::external_body]
pub(crate) fn fx_clear<K: FxKey + Copy + Eq + Hash, V>(m: &mut FxHashMap<K, V>)
    ensures
        no_entries(final(m)@),
{
    m.clear();
}

/// Calls `HashMap::len` with the Fx hasher: the number of keys.
#[verifier::external_body]
pub(crate) fn fx_len<K: FxKey + Copy + Eq + Hash, V>(m: &FxHashMap<K, V>) -> (n: usize)
    ensures
        n == m@.len(),
{
    m.len()
}

/// Calls `HashMap::keys` with the Fx hasher: every key once. In which order they come
/// is left open.
#[verifier::external_body]
pub(crate) fn fx_keys<K: FxKey + Copy + Eq + Hash, V>(m: &FxHashMap<K, V>) -> (keys: Vec<K>)
    ensures
        keys@.no_duplicates(),
        forall|k: K| #[trigger] keys@.contains(k) <==> m@.contains_key(k),
{
    m.keys().copied().collect()
}

} // verus!
