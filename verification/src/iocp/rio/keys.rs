//! Keys of slot maps.
use vstd::prelude::*;

verus! {

/// A number that a slot map can give out as a key: its version, in the upper half, is
/// odd.
pub open spec fn is_key(raw: u64) -> bool {
    (raw / 0x1_0000_0000) % 2 == 1
}

/// Identifies a socket actor.
#[derive(Debug, Clone, Copy, PartialEq, Eq, Structural)]
pub struct ActorKey {
    raw: u64,
}

impl ActorKey {
    #[verifier::type_invariant]
    spec fn inv(self) -> bool {
        is_key(self.raw)
    }

    /// The number behind the key.
    pub closed spec fn number(self) -> u64 {
        self.raw
    }

    /// The key with the given number.
    pub(crate) fn from_raw(raw: u64) -> (k: Self)
        requires
            is_key(raw),
        ensures
            k.number() == raw,
    {
        ActorKey { raw }
    }

    /// The number behind the key.
    pub(crate) fn raw(&self) -> (raw: u64)
        ensures
            raw == self.number(),
    {
        self.raw
    }
}

impl Default for ActorKey {
    /// The key that belongs to no actor.
    fn default() -> (k: Self)
        ensures
            k.number() == 0x1_ffff_ffff,
    {
        ActorKey { raw: 0x1_ffff_ffff }
    }
}

/// Identifies a slot of a receive pool.
#[derive(Debug, Clone, Copy, PartialEq, Eq, Structural)]
pub struct SlotKey {
    raw: u64,
}

impl SlotKey {
    #[verifier::type_invariant]
    spec fn inv(self) -> bool {
        is_key(self.raw)
    }

    /// The number behind the key.
    pub closed spec fn number(self) -> u64 {
        self.raw
    }

    /// The key with the given number.
    pub(crate) fn from_raw(raw: u64) -> (k: Self)
        requires
            is_key(raw),
        ensures
            k.number() == raw,
    {
        SlotKey { raw }
    }

    /// The number behind the key.
    pub(crate) fn raw(&self) -> (raw: u64)
        ensures
            raw == self.number(),
    {
        self.raw
    }
}

} // verus!
