//! The slots of a receive pool, kept in a slot map.
use slotmap::{DefaultKey, Key, KeyData, SlotMap};
use vstd::prelude::*;
use crate::fxmap::no_entries;
use super::kernel::RioBufferId;
use super::keys::SlotKey;

verus! {

/// A place of the receive pool from which a receive request is made.
#[derive(Debug, Clone, Copy, PartialEq, Eq, Structural)]
pub struct UdpRecvPoolSlot {
    /// The chunk that the next datagram goes to.
    pub current_idx: u32,
    /// The buffer that the sender's address goes to.
    pub addr_buf_id: RioBufferId,
    /// A request is under way.
    pub in_flight: bool,
    /// No further request is to be made once the one under way has ended.
    pub stop_requested: bool,
}

/// A slot map of `slotmap` that holds the slots of a receive pool. Its keys never
/// leave it but as `SlotKey`s.
#[verifier::external_body]
pub struct PoolSlots {
    map: SlotMap<DefaultKey, UdpRecvPoolSlot>,
}

/// The slots in the map, by key.
pub uninterp spec fn pool_slots(m: PoolSlots) -> Map<SlotKey, UdpRecvPoolSlot>;

impl PoolSlots {
    /// Calls `SlotMap::with_key`, which makes an empty map.
    #[verifier::external_body]
    pub(crate) fn new() -> (m: Self)
        ensures
            no_entries(pool_slots(m)),
    {
        PoolSlots { map: SlotMap::with_key() }
    }

    /// Calls `SlotMap::insert`, which stores a value under a key that is not in use. It
    /// panics only when the map is full, at close to 2^32 values.
    #[verifier::external_body]
    pub(crate) fn insert(&mut self, slot: UdpRecvPoolSlot) -> (key: SlotKey)
        requires
            pool_slots(*old(self)).len() < 0xffff_fffe,
        ensures
            !pool_slots(*old(self)).contains_key(key),
            pool_slots(*final(self)) == pool_slots(*old(self)).insert(key, slot),
    {
        SlotKey::from_raw(self.map.insert(slot).data().as_ffi())
    }

    /// Calls `SlotMap::remove`, which takes the value stored under a key out, if there
    /// is one.
    #[verifier::external_body]
    pub(crate) fn remove(&mut self, key: SlotKey) -> (r: Option<UdpRecvPoolSlot>)
        ensures
            pool_slots(*final(self)) == pool_slots(*old(self)).remove(key),
            r == (if pool_slots(*old(self)).contains_key(key) {
                Some(pool_slots(*old(self))[key])
            } else {
                None
            }),
    {
        self.map.remove(DefaultKey::from(KeyData::from_ffi(key.raw())))
    }

    /// Calls `SlotMap::get`, which finds the value stored under a key, if there is one.
    #[verifier::external_body]
    pub(crate) fn get(&self, key: SlotKey) -> (r: Option<UdpRecvPoolSlot>)
        ensures
            r == (if pool_slots(*self).contains_key(key) {
                Some(pool_slots(*self)[key])
            } else {
                None
            }),
    {
        self.map.get(DefaultKey::from(KeyData::from_ffi(key.raw()))).copied()
    }

    /// Calls `SlotMap::get_mut`, which gives access to the value stored under a key, if
    /// there is one.
    #[verifier::external_body]
    pub(crate) fn get_mut(&mut self, key: SlotKey) -> (r: Option<&mut UdpRecvPoolSlot>)
        ensures
            match r {
                Some(slot) => {
                    &&& pool_slots(*old(self)).contains_key(key)
                    &&& *slot == pool_slots(*old(self))[key]
                    &&& pool_slots(*final(self)) == pool_slots(*old(self)).insert(key, *final(slot))
                },
                None => {
                    &&& !pool_slots(*old(self)).contains_key(key)
                    &&& pool_slots(*final(self)) == pool_slots(*old(self))
                },
            },
    {
        self.map.get_mut(DefaultKey::from(KeyData::from_ffi(key.raw())))
    }

    /// Calls `SlotMap::len`: the number of values.
    #[verifier::external_body]
    pub(crate) fn len(&self) -> (n: usize)
        ensures
            n == pool_slots(*self).len(),
    {
        self.map.len()
    }

    /// Calls `SlotMap::keys`: every key in use, once. In which order they come is left
    /// open.
    #[verifier::external_body]
    pub(crate) fn keys(&self) -> (keys: Vec<SlotKey>)
        ensures
            keys@.no_duplicates(),
            forall|k: SlotKey| #[trigger] keys@.contains(k) <==> pool_slots(*self).contains_key(k),
    {
        self.map.keys().map(|k| SlotKey::from_raw(k.data().as_ffi())).collect()
    }

    /// Puts another value under a key that is in use.
    pub(crate) fn set(&mut self, key: SlotKey, slot: UdpRecvPoolSlot)
        requires
            pool_slots(*old(self)).contains_key(key),
        ensures
            pool_slots(*final(self)) == pool_slots(*old(self)).insert(key, slot),
    {
        if let Some(place) = self.get_mut(key) {
            *place = slot;
        }
    }
}

} // verus!
