//! The receive pool of a UDP socket: receive requests that are made ahead of the
//! operations that want the datagrams.
use std::collections::VecDeque;
use vstd::prelude::*;
use crate::iocp::error::RioError;
use crate::sockaddr::SocketAddr;
use super::kernel::RioBufferId;
use super::keys::SlotKey;
use super::pool_slots::{pool_slots, PoolSlots, UdpRecvPoolSlot};
use super::tokens::TokenRegistry;

verus! {

pub const UDP_RECV_POOL_MIN_CREDITS: usize = 2;

pub const UDP_RECV_POOL_INITIAL_CREDITS: usize = 4;

pub const UDP_RECV_POOL_MAX_CREDITS: usize = 16;

/// That many datagrams wait for an operation at most.
pub const UDP_RECV_POOL_QUEUE_CAP: usize = 256;

/// The smallest chunk.
pub const UDP_RECV_POOL_CHUNK_SIZE: usize = 2048;

/// One chunk for each slot and for each datagram that waits.
pub const UDP_RECV_POOL_SLAB_CHUNKS: u32 = 272;

/// After so many looks at an idle pool it shrinks.
pub const IDLE_HITS_TO_SHRINK: u32 = 64;

/// A refusal, with the system's error number where there is one.
#[derive(Debug, Clone, Copy, PartialEq, Eq)]
pub struct RioFailure {
    pub error: RioError,
    pub code: Option<i32>,
}

/// The system's answer to a request: 0 is a refusal.
#[derive(Debug, Clone, Copy, PartialEq, Eq, Structural)]
pub struct Answer {
    pub value: u64,
    pub error: i32,
}

/// The kind of operation that waits for a datagram.
#[derive(Debug, Clone, Copy, PartialEq, Eq, Structural)]
pub enum UdpWaiterKind {
    /// It is handed the buffer.
    Stream,
    /// It gets a copy of the data.
    Recv,
}

/// An operation that waits for a datagram.
#[derive(Debug, Clone, Copy, PartialEq, Eq, Structural)]
pub struct UdpWaiter {
    pub user_data: usize,
    pub generation: u32,
    pub kind: UdpWaiterKind,
}

/// A datagram that has come: the first `len` bytes of a chunk, and who sent it.
#[derive(Debug, Clone, Copy, PartialEq, Eq)]
pub struct UdpPoolPacket {
    pub chunk: u32,
    pub len: usize,
    pub peer: SocketAddr,
}

/// Datagrams that wait for an operation, and operations that wait for a datagram;
/// both in the order in which they came.
pub struct UdpMailbox {
    pub queue: VecDeque<UdpPoolPacket>,
    pub waiters: VecDeque<UdpWaiter>,
}

/// The memory of a pool, cut into chunks of equal size.
pub struct UdpBufferSlab {
    pub rio_id: RioBufferId,
    pub chunk_size: usize,
    /// The chunks that nobody holds. The first one is used first.
    pub free_indices: VecDeque<u32>,
}

/// The stages in the life of a pool.
#[derive(Debug, Clone, Copy, PartialEq, Eq, Structural)]
pub enum UdpPoolState {
    Uninitialized,
    Running,
    /// No more requests are made.
    Draining,
    /// No request is under way any more.
    Closed,
}

/// The slots from which receive requests are made.
pub struct UdpRecvPool {
    pub slots: PoolSlots,
    pub slab: Option<UdpBufferSlab>,
    /// So many requests should be under way.
    pub target_credits: usize,
    /// How often in a row the pool was found idle.
    pub idle_hits: u32,
    pub state: UdpPoolState,
}

/// The pool of one socket with its mailbox.
pub struct UdpPoolManager {
    pub pool: UdpRecvPool,
    pub registry: TokenRegistry,
    pub mailbox: UdpMailbox,
}

/// The memory of a pool, as mathematical values.
#[verifier::ext_equal]
pub struct SlabModel {
    pub rio_id: RioBufferId,
    pub chunk_size: usize,
    pub free: Seq<u32>,
}

/// A pool with its mailbox, as mathematical values.
#[verifier::ext_equal]
pub struct PoolModel {
    pub slots: Map<SlotKey, UdpRecvPoolSlot>,
    pub slab: Option<SlabModel>,
    pub target_credits: usize,
    pub idle_hits: u32,
    pub state: UdpPoolState,
    /// The tokens of the requests under way.
    pub tokens: Map<u32, SlotKey>,
    pub next_ctx: u32,
    pub queue: Seq<UdpPoolPacket>,
    pub waiters: Seq<UdpWaiter>,
}

impl PoolModel {
    /// A pool that nothing was asked of yet: it has no memory, makes no requests, and
    /// nothing waits at it. Its first token will be 1.
    pub open spec fn untouched() -> PoolModel {
        PoolModel {
            slots: Map::empty(),
            slab: None,
            target_credits: 0,
            idle_hits: 0,
            state: UdpPoolState::Uninitialized,
            tokens: Map::empty(),
            next_ctx: 1,
            queue: Seq::empty(),
            waiters: Seq::empty(),
        }
    }

    /// The chunks that nobody holds.
    pub open spec fn free(self) -> Seq<u32> {
        match self.slab {
            Some(slab) => slab.free,
            None => Seq::<u32>::empty(),
        }
    }

    /// The same pool with other free chunks.
    pub open spec fn with_free(self, free: Seq<u32>) -> PoolModel {
        PoolModel { slab: Some(SlabModel { free, ..self.slab->Some_0 }), ..self }
    }

    /// The same pool with another value in a slot.
    pub open spec fn with_slot(self, key: SlotKey, slot: UdpRecvPoolSlot) -> PoolModel {
        PoolModel { slots: self.slots.insert(key, slot), ..self }
    }

    /// Nobody in the pool holds chunk `c`.
    pub open spec fn unheld(self, c: u32) -> bool {
        &&& !self.free().contains(c)
        &&& forall|k: SlotKey| #[trigger] self.slots.contains_key(k) ==> self.slots[k].current_idx != c
        &&& forall|i: int| 0 <= i < self.queue.len() ==> (#[trigger] self.queue[i]).chunk != c
    }

    /// Each chunk is free, or belongs to one slot, or to one datagram, or to somebody
    /// outside the pool; it is never in two places.
    pub open spec fn chunks_exclusive(self) -> bool {
        &&& self.free().no_duplicates()
        &&& forall|k: SlotKey| #[trigger]
            self.slots.contains_key(k) ==> !self.free().contains(self.slots[k].current_idx)
        &&& forall|k1: SlotKey, k2: SlotKey|
            #![trigger self.slots.contains_key(k1), self.slots.contains_key(k2)]
            self.slots.contains_key(k1) && self.slots.contains_key(k2) && k1 != k2
                ==> self.slots[k1].current_idx != self.slots[k2].current_idx
        &&& forall|i: int|
            0 <= i < self.queue.len() ==> !self.free().contains((#[trigger] self.queue[i]).chunk)
        &&& forall|i: int, j: int|
            0 <= i < j < self.queue.len() ==> (#[trigger] self.queue[i]).chunk != (
            #[trigger] self.queue[j]).chunk
        &&& forall|i: int, k: SlotKey|
            #![trigger self.queue[i], self.slots.contains_key(k)]
            0 <= i < self.queue.len() && self.slots.contains_key(k) ==> self.queue[i].chunk
                != self.slots[k].current_idx
    }

    /// Every chunk that the pool holds exists.
    pub open spec fn chunks_exist(self) -> bool {
        &&& forall|i: int|
            0 <= i < self.free().len() ==> (#[trigger] self.free()[i]) < UDP_RECV_POOL_SLAB_CHUNKS
        &&& forall|k: SlotKey| #[trigger]
            self.slots.contains_key(k) ==> self.slots[k].current_idx < UDP_RECV_POOL_SLAB_CHUNKS
        &&& forall|i: int|
            0 <= i < self.queue.len() ==> (#[trigger] self.queue[i]).chunk
                < UDP_RECV_POOL_SLAB_CHUNKS
    }

    /// Each token stands for a request that is under way, and no two of them for the
    /// same one.
    pub open spec fn tokens_wf(self) -> bool {
        &&& self.tokens.dom().finite()
        &&& forall|t: u32| #[trigger]
            self.tokens.contains_key(t) ==> self.slots.contains_key(self.tokens[t])
                && self.slots[self.tokens[t]].in_flight
        &&& forall|t1: u32, t2: u32|
            #![trigger self.tokens.contains_key(t1), self.tokens.contains_key(t2)]
            self.tokens.contains_key(t1) && self.tokens.contains_key(t2) && t1 != t2
                ==> self.tokens[t1] != self.tokens[t2]
    }

    /// A running pool has memory and wants a number of requests within the bounds; any
    /// other pool wants none, and a closed one has none under way. No more slots exist
    /// than the bound allows.
    pub open spec fn wf(self) -> bool {
        &&& self.slots.dom().finite()
        &&& self.slots.len() <= UDP_RECV_POOL_MAX_CREDITS
        &&& self.state is Running ==> self.slab is Some && UDP_RECV_POOL_MIN_CREDITS
            <= self.target_credits <= UDP_RECV_POOL_MAX_CREDITS
        &&& !(self.state is Running) ==> self.target_credits == 0
        &&& self.state is Uninitialized ==> self.slots.len() == 0 && self.slab is None
            && self.queue.len() == 0
        &&& self.slab is None ==> self.slots.len() == 0
        &&& self.state is Closed ==> forall|k: SlotKey| #[trigger]
            self.slots.contains_key(k) ==> !self.slots[k].in_flight
        &&& self.slab matches Some(slab) ==> slab.chunk_size >= 1 && slab.chunk_size
            * UDP_RECV_POOL_SLAB_CHUNKS <= usize::MAX
        &&& self.queue.len() <= UDP_RECV_POOL_QUEUE_CAP
        &&& self.tokens_wf()
        &&& self.chunks_exist()
        &&& self.chunks_exclusive()
    }

    /// No more tokens are in use than there are slots.
    pub proof fn tokens_are_few(self)
        requires
            self.wf(),
        ensures
            self.tokens.len() <= UDP_RECV_POOL_MAX_CREDITS,
    {
        let f = |t: u32| self.tokens[t];
        assert forall|t: u32| #[trigger]
            self.tokens.dom().contains(t) implies self.slots.dom().contains(f(t)) by {
            assert(self.tokens.contains_key(t));
        }
        let image = self.tokens.dom().map(f);
        assert forall|k: SlotKey| image.contains(k) implies self.slots.dom().contains(k) by {
            let t = choose|t: u32| self.tokens.dom().contains(t) && k == f(t);
            assert(self.tokens.contains_key(t));
        }
        assert forall|t1: u32, t2: u32|
            self.tokens.dom().contains(t1) && self.tokens.dom().contains(t2) && #[trigger] f(t1)
                == #[trigger] f(t2) implies t1 == t2 by {
            assert(self.tokens.contains_key(t1) && self.tokens.contains_key(t2));
        }
        vstd::set_lib::lemma_map_size(self.tokens.dom(), image, f);
        vstd::set_lib::lemma_len_subset(image, self.slots.dom());
    }
}

impl UdpMailbox {
    /// Nothing waits.
    pub fn new() -> (m: Self)
        ensures
            m.queue@.len() == 0,
            m.waiters@.len() == 0,
    {
        UdpMailbox {
            queue: VecDeque::with_capacity(UDP_RECV_POOL_QUEUE_CAP),
            waiters: VecDeque::new(),
        }
    }
}

impl UdpBufferSlab {
    /// The memory of a pool.
    pub open spec fn model(&self) -> SlabModel {
        SlabModel {
            rio_id: self.rio_id,
            chunk_size: self.chunk_size,
            free: self.free_indices@,
        }
    }
}

impl UdpPoolManager {
    /// The pool and its mailbox.
    pub open spec fn model(&self) -> PoolModel {
        PoolModel {
            slots: pool_slots(self.pool.slots),
            slab: match self.pool.slab {
                Some(slab) => Some(slab.model()),
                None => None,
            },
            target_credits: self.pool.target_credits,
            idle_hits: self.pool.idle_hits,
            state: self.pool.state,
            tokens: self.registry.map@,
            next_ctx: self.registry.next_ctx,
            queue: self.mailbox.queue@,
            waiters: self.mailbox.waiters@,
        }
    }

    /// The pool is in order.
    pub open spec fn wf(&self) -> bool {
        self.model().wf()
    }

    /// A pool that nothing was asked of yet.
    pub fn new() -> (m: Self)
        ensures
            m.wf(),
            m.model() == PoolModel::untouched(),
    {
        let m = UdpPoolManager {
            pool: UdpRecvPool {
                slots: PoolSlots::new(),
                slab: None,
                target_credits: 0,
                idle_hits: 0,
                state: UdpPoolState::Uninitialized,
            },
            registry: TokenRegistry::new(),
            mailbox: UdpMailbox::new(),
        };
        assert(m.model().tokens.dom() =~= Set::<u32>::empty());
        assert(m.model().slots.dom() =~= Set::<SlotKey>::empty());
        assert(m.model() =~= PoolModel::untouched());
        m
    }
}

} // verus!
