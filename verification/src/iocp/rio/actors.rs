//! Actors: what registered I/O keeps for each socket.
use slotmap::{DefaultKey, Key, KeyData, SlotMap};
use vstd::prelude::*;
use crate::fxmap::no_entries;
use super::kernel::RioRq;
use super::keys::ActorKey;
use super::pool::{PoolModel, UdpPoolManager};
use super::sockets::SocketKey;

verus! {

/// Whether an actor takes new requests.
#[derive(Debug, Clone, Copy, PartialEq, Eq, Structural)]
pub enum RioActorState {
    Active,
    Draining,
}

/// What registered I/O keeps for a socket: its request queue and its receive pool.
pub struct RioSocketActor {
    pub handle: SocketKey,
    pub rq: RioRq,
    pub pool_manager: UdpPoolManager,
    pub state: RioActorState,
}

/// An actor, as mathematical values.
#[verifier::ext_equal]
pub struct ActorModel {
    pub handle: SocketKey,
    pub rq: RioRq,
    pub pool: PoolModel,
    pub state: RioActorState,
}

impl RioSocketActor {
    /// The actor.
    pub open spec fn model(&self) -> ActorModel {
        ActorModel {
            handle: self.handle,
            rq: self.rq,
            pool: self.pool_manager.model(),
            state: self.state,
        }
    }

    /// The actor of a socket that has just got its request queue.
    pub fn new(handle: SocketKey, rq: RioRq) -> (a: Self)
        ensures
            a.handle == handle,
            a.rq == rq,
            a.state is Active,
            a.pool_manager.wf(),
            a.pool_manager.model() == PoolModel::untouched(),
    {
        RioSocketActor {
            handle,
            rq,
            pool_manager: UdpPoolManager::new(),
            state: RioActorState::Active,
        }
    }
}

/// A slot map of `slotmap` that holds the actors. Its keys never leave it but as
/// `ActorKey`s.
#[verifier::external_body]
pub struct Actors {
    map: SlotMap<DefaultKey, RioSocketActor>,
}

/// The actors in the map, by key.
pub uninterp spec fn actor_map(m: Actors) -> Map<ActorKey, RioSocketActor>;

impl Actors {
    /// Calls `SlotMap::with_key`, which makes an empty map.
    #[verifier::external_body]
    pub(crate) fn new() -> (m: Self)
        ensures
            no_entries(actor_map(m)),
    {
        Actors { map: SlotMap::with_key() }
    }

    /// Calls `SlotMap::insert`, which stores a value under a key that is not in use. It
    /// panics only when the map is full, at close to 2^32 values.
    #[verifier::external_body]
    pub(crate) fn insert(&mut self, actor: RioSocketActor) -> (key: ActorKey)
        requires
            actor_map(*old(self)).len() < 0xffff_fffe,
        ensures
            !actor_map(*old(self)).contains_key(key),
            actor_map(*final(self)) == actor_map(*old(self)).insert(key, actor),
    {
        ActorKey::from_raw(self.map.insert(actor).data().as_ffi())
    }

    /// Calls `SlotMap::remove`, which takes the value stored under a key out, if there
    /// is one.
    #[verifier::external_body]
    pub(crate) fn remove(&mut self, key: ActorKey) -> (r: Option<RioSocketActor>)
        ensures
            actor_map(*final(self)) == actor_map(*old(self)).remove(key),
            r == (if actor_map(*old(self)).contains_key(key) {
                Some(actor_map(*old(self))[key])
            } else {
                None
            }),
    {
        self.map.remove(DefaultKey::from(KeyData::from_ffi(key.raw())))
    }

    /// Calls `SlotMap::get`, which finds the value stored under a key, if there is one.
    #[verifier::external_body]
    pub(crate) fn get(&self, key: ActorKey) -> (r: Option<&RioSocketActor>)
        ensures
            r == (if actor_map(*self).contains_key(key) {
                Some(&actor_map(*self)[key])
            } else {
                None
            }),
    {
        self.map.get(DefaultKey::from(KeyData::from_ffi(key.raw())))
    }

    /// Calls `SlotMap::get_mut`, which gives access to the value stored under a key, if
    /// there is one.
    #[verifier::external_body]
    pub(crate) fn get_mut(&mut self, key: ActorKey) -> (r: Option<&mut RioSocketActor>)
        ensures
            match r {
                Some(actor) => {
                    &&& actor_map(*old(self)).contains_key(key)
                    &&& *actor == actor_map(*old(self))[key]
                    &&& actor_map(*final(self)) == actor_map(*old(self)).insert(key, *final(actor))
                },
                None => {
                    &&& !actor_map(*old(self)).contains_key(key)
                    &&& actor_map(*final(self)) == actor_map(*old(self))
                },
            },
    {
        self.map.get_mut(DefaultKey::from(KeyData::from_ffi(key.raw())))
    }

    /// Calls `SlotMap::len`: the number of values.
    #[verifier::external_body]
    pub(crate) fn len(&self) -> (n: usize)
        ensures
            n == actor_map(*self).len(),
    {
        self.map.len()
    }

    /// Calls `SlotMap::keys`: every key in use, once. In which order they come is left
    /// open.
    #[verifier::external_body]
    pub(crate) fn keys(&self) -> (keys: Vec<ActorKey>)
        ensures
            keys@.no_duplicates(),
            forall|k: ActorKey| #[trigger] keys@.contains(k) <==> actor_map(*self).contains_key(k),
    {
        self.map.keys().map(|k| ActorKey::from_raw(k.data().as_ffi())).collect()
    }

    /// Calls `SlotMap::clear`: nothing is left.
    #[verifier::external_body]
    pub(crate) fn clear(&mut self)
        ensures
            no_entries(actor_map(*final(self))),
    {
        self.map.clear();
    }
}

} // verus!
