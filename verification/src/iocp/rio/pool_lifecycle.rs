//! The end of a receive pool, and the return of chunks.
use vstd::prelude::*;
use super::kernel::RioBufferId;
use super::keys::SlotKey;
use super::pool::{
    PoolModel, SlabModel, UdpPoolManager, UdpPoolState, UDP_RECV_POOL_MAX_CREDITS,
    UDP_RECV_POOL_MIN_CREDITS, UDP_RECV_POOL_SLAB_CHUNKS,
};
use super::pool_slots::UdpRecvPoolSlot;

verus! {

/// A slot from which no further request is to be made.
pub open spec fn stopped(slot: UdpRecvPoolSlot) -> UdpRecvPoolSlot {
    if slot.in_flight {
        UdpRecvPoolSlot { stop_requested: true, ..slot }
    } else {
        slot
    }
}

impl PoolModel {
    /// The pool once it makes no more requests: nothing is wanted, no chunk is free,
    /// and each slot with a request under way stops after it.
    pub open spec fn draining(self) -> PoolModel {
        PoolModel {
            slots: self.slots.map_values(|slot: UdpRecvPoolSlot| stopped(slot)),
            slab: match self.slab {
                Some(slab) => Some(SlabModel { free: Seq::empty(), ..slab }),
                None => None,
            },
            target_credits: 0,
            state: if self.state is Running {
                UdpPoolState::Draining
            } else {
                self.state
            },
            ..self
        }
    }

    /// No request is under way.
    pub open spec fn idle(self) -> bool {
        forall|k: SlotKey| #[trigger] self.slots.contains_key(k) ==> !self.slots[k].in_flight
    }

    /// A draining pool without requests under way is closed.
    pub open spec fn drain_checked(self) -> PoolModel {
        if self.state is Draining && self.idle() {
            PoolModel { state: UdpPoolState::Closed, ..self }
        } else {
            self
        }
    }

    /// `keys` lists the slots, each once.
    pub open spec fn listed(self, keys: Seq<SlotKey>) -> bool {
        keys.no_duplicates() && keys.to_set() == self.slots.dom()
    }

    /// The registrations of the pool: the address buffers of the slots, in some order,
    /// and then the memory.
    pub open spec fn registrations(self, ids: Seq<RioBufferId>) -> bool {
        exists|keys: Seq<SlotKey>| #[trigger]
            self.listed(keys) && ids == self.addr_bufs(keys) + (match self.slab {
                Some(slab) => seq![slab.rio_id],
                None => Seq::<RioBufferId>::empty(),
            })
    }

    /// The pool without slots and memory.
    pub open spec fn emptied(self) -> PoolModel {
        PoolModel { slots: Map::empty(), slab: None, ..self }
    }
}

/// The state of a pool in figures.
#[derive(Debug, Clone, Copy, PartialEq, Eq, Structural)]
pub struct UdpRecvPoolDebugStats {
    pub min_credits: usize,
    pub max_credits: usize,
    pub target_credits: usize,
    pub waiters_len: usize,
}

impl UdpPoolManager {
    /// Makes no more requests from now on.
    pub fn shutdown_pool(&mut self)
        requires
            old(self).wf(),
        ensures
            final(self).wf(),
            final(self).model() == old(self).model().draining(),
    {
        let ghost m = self.model();
        if self.pool.state == UdpPoolState::Running {
            self.pool.state = UdpPoolState::Draining;
        }
        self.pool.target_credits = 0;
        if let Some(slab) = &mut self.pool.slab {
            slab.free_indices.clear();
        }
        let keys = self.pool.slots.keys();
        let mut i: usize = 0;
        while i < keys.len()
            invariant
                i <= keys@.len(),
                keys@.no_duplicates(),
                forall|k: SlotKey| #[trigger] keys@.contains(k) <==> m.slots.contains_key(k),
                self.model() == (PoolModel { slots: self.model().slots, ..m.draining() }),
                self.model().slots.dom() == m.slots.dom(),
                forall|j: int|
                    0 <= j < i ==> self.model().slots[#[trigger] keys@[j]] == stopped(
                        m.slots[keys@[j]],
                    ),
                forall|j: int|
                    i <= j < keys@.len() ==> self.model().slots[#[trigger] keys@[j]]
                        == m.slots[keys@[j]],
            decreases keys@.len() - i,
        {
            let key = keys[i];
            assert(keys@.contains(key));
            if let Some(slot) = self.pool.slots.get(key) {
                if slot.in_flight {
                    let ghost was = self.model().slots;
                    self.pool.slots.set(key, UdpRecvPoolSlot { stop_requested: true, ..slot });
                    assert(self.model().slots.dom() =~= was.dom());
                }
            }
            i = i + 1;
        }
        proof {
            let d = m.draining();
            assert forall|k: SlotKey| #[trigger]
                self.model().slots.contains_key(k) implies self.model().slots[k] == d.slots[k] by {
                assert(m.slots.contains_key(k));
                assert(keys@.contains(k));
                let j = keys@.index_of(k);
                assert(keys@[j] == k);
            }
            assert(self.model().slots =~= d.slots);
            assert(self.model() == d);
            assert(d.slots.dom() =~= m.slots.dom());
            assert(d.free() =~= Seq::<u32>::empty());
            assert forall|k: SlotKey| d.slots.contains_key(k) implies m.slots.contains_key(k)
                && d.slots[k] == stopped(m.slots[k]) by {}
            assert forall|t: u32| #[trigger]
                d.tokens.contains_key(t) implies d.slots.contains_key(d.tokens[t])
                && d.slots[d.tokens[t]].in_flight by {
                assert(m.tokens.contains_key(t));
            }
        }
    }

    /// Closes a draining pool when no request is under way any more.
    pub fn handle_drain_comp(&mut self)
        requires
            old(self).wf(),
        ensures
            final(self).wf(),
            final(self).model() == old(self).model().drain_checked(),
    {
        let ghost m = self.model();
        if self.pool.state != UdpPoolState::Draining {
            return ;
        }
        let keys = self.pool.slots.keys();
        let mut i: usize = 0;
        while i < keys.len()
            invariant
                i <= keys@.len(),
                self.model() == m,
                m == old(self).model(),
                m.wf(),
                m.state is Draining,
                forall|k: SlotKey| #[trigger] keys@.contains(k) <==> m.slots.contains_key(k),
                forall|j: int| 0 <= j < i ==> !m.slots[#[trigger] keys@[j]].in_flight,
            decreases keys@.len() - i,
        {
            assert(keys@.contains(keys@[i as int]));
            if let Some(slot) = self.pool.slots.get(keys[i]) {
                if slot.in_flight {
                    assert(!m.idle());
                    return ;
                }
            }
            i = i + 1;
        }
        proof {
            assert forall|k: SlotKey| #[trigger]
                m.slots.contains_key(k) implies !m.slots[k].in_flight by {
                assert(keys@.contains(k));
                let j = keys@.index_of(k);
                assert(keys@[j] == k);
            }
        }
        self.pool.state = UdpPoolState::Closed;
        proof {
            assert(self.model() == m.drain_checked());
            assert(self.model().free() == m.free());
        }
    }

    /// Empties a closed pool, and gives what the caller has to deregister. A pool that
    /// is not closed is left alone.
    pub fn cleanup_drained_pool(&mut self) -> (r: Option<Vec<RioBufferId>>)
        requires
            old(self).wf(),
        ensures
            final(self).wf(),
            match r {
                None => {
                    &&& !(old(self).pool.state is Closed)
                    &&& final(self).model() == old(self).model()
                },
                Some(ids) => {
                    &&& old(self).pool.state is Closed
                    &&& final(self).model() == old(self).model().emptied()
                    &&& old(self).model().registrations(ids@)
                },
            },
    {
        if self.pool.state != UdpPoolState::Closed {
            return None;
        }
        let ghost m = self.model();
        let keys = self.pool.slots.keys();
        let mut ids: Vec<RioBufferId> = Vec::new();
        let mut i: usize = 0;
        assert(keys@.take(0).to_set() =~= Set::<SlotKey>::empty());
        assert(m.slots.remove_keys(Set::<SlotKey>::empty()) =~= m.slots);
        while i < keys.len()
            invariant
                i <= keys@.len(),
                keys@.no_duplicates(),
                forall|k: SlotKey| #[trigger] keys@.contains(k) <==> m.slots.contains_key(k),
                self.model() == (PoolModel { slots: self.model().slots, ..m }),
                self.model().slots == m.slots.remove_keys(keys@.take(i as int).to_set()),
                ids@ == m.addr_bufs(keys@.take(i as int)),
            decreases keys@.len() - i,
        {
            let key = keys[i];
            let ghost front = keys@.take(i as int);
            let ghost more = keys@.take(i + 1);
            proof {
                assert(keys@.contains(key));
                assert(more =~= front.push(key));
                assert(!front.contains(key)) by {
                    if front.contains(key) {
                        let j = front.index_of(key);
                        assert(keys@[j] == key);
                    }
                }
                assert(more.to_set() =~= front.to_set().insert(key)) by {
                    assert forall|k: SlotKey| more.to_set().contains(k) implies front.to_set().insert(
                        key,
                    ).contains(k) by {
                        let j = more.index_of(k);
                        if j < front.len() {
                            assert(front[j] == k);
                        }
                    }
                    assert forall|k: SlotKey|
                        front.to_set().insert(key).contains(k) implies more.to_set().contains(k) by {
                        if k == key {
                            assert(more[front.len() as int] == key);
                        } else {
                            assert(more[front.index_of(k)] == k);
                        }
                    }
                }
            }
            if let Some(slot) = self.pool.slots.remove(key) {
                ids.push(slot.addr_buf_id);
            }
            i = i + 1;
            proof {
                assert(self.model().slots =~= m.slots.remove_keys(more.to_set()));
                assert(m.addr_bufs(more) =~= m.addr_bufs(front).push(m.slots[key].addr_buf_id));
            }
        }
        proof {
            assert(keys@.take(i as int) =~= keys@);
            assert forall|k: SlotKey| keys@.to_set().contains(k) <==> m.slots.dom().contains(k) by {
                assert(keys@.contains(k) <==> m.slots.contains_key(k));
            }
            assert(keys@.to_set() =~= m.slots.dom());
            assert(m.listed(keys@));
        }
        if let Some(slab) = self.pool.slab.take() {
            ids.push(slab.rio_id);
            assert(ids@ =~= m.addr_bufs(keys@) + seq![slab.rio_id]);
        } else {
            assert(ids@ =~= m.addr_bufs(keys@) + Seq::<RioBufferId>::empty());
        }
        proof {
            let a = self.model();
            assert(a.slots =~= Map::<SlotKey, UdpRecvPoolSlot>::empty());
            assert(a == m.emptied());
            assert(a.slots.dom() =~= Set::<SlotKey>::empty());
            assert(a.free() =~= Seq::<u32>::empty());
            assert forall|t: u32| #[trigger] a.tokens.contains_key(t) implies false by {
                assert(m.tokens.contains_key(t));
            }
        }
        Some(ids)
    }

    /// Forgets every request, stops the pool, and empties it if it is closed.
    pub fn forget_and_cleanup(&mut self) -> (r: Option<Vec<RioBufferId>>)
        requires
            old(self).wf(),
        ensures
            final(self).wf(),
            match r {
                None => !(old(self).pool.state is Closed) && final(self).model() == (PoolModel {
                    tokens: Map::empty(),
                    ..old(self).model()
                }).draining(),
                Some(ids) => old(self).pool.state is Closed && final(self).model() == (PoolModel {
                    tokens: Map::empty(),
                    ..old(self).model()
                }).draining().emptied() && (PoolModel {
                    tokens: Map::empty(),
                    ..old(self).model()
                }).draining().registrations(ids@),
            },
    {
        self.forget_requests();
        self.shutdown_pool();
        self.cleanup_drained_pool()
    }

    /// Forgets every request.
    pub fn forget_requests(&mut self)
        requires
            old(self).wf(),
        ensures
            final(self).wf(),
            final(self).model() == (PoolModel { tokens: Map::empty(), ..old(self).model() }),
    {
        let ghost m = self.model();
        self.registry.forget();
        proof {
            assert(self.model().free() == m.free());
            assert(self.model().tokens.dom() =~= Set::<u32>::empty());
        }
    }

    /// Takes a chunk back that its last holder is done with. A running pool uses it
    /// again; a chunk that the pool holds already is refused.
    pub fn recycle_chunk(&mut self, chunk: u32) -> (taken: bool)
        requires
            old(self).wf(),
        ensures
            final(self).wf(),
            taken <==> old(self).pool.state is Running && chunk < UDP_RECV_POOL_SLAB_CHUNKS && old(
                self,
            ).model().unheld(chunk),
            final(self).model() == (if taken {
                old(self).model().with_free(old(self).model().free().push(chunk))
            } else {
                old(self).model()
            }),
    {
        let ghost m = self.model();
        if self.pool.state != UdpPoolState::Running || chunk >= UDP_RECV_POOL_SLAB_CHUNKS {
            return false;
        }
        let keys = self.pool.slots.keys();
        let mut i: usize = 0;
        while i < keys.len()
            invariant
                i <= keys@.len(),
                self.model() == m,
                m == old(self).model(),
                m.wf(),
                forall|k: SlotKey| #[trigger] keys@.contains(k) <==> m.slots.contains_key(k),
                forall|j: int| 0 <= j < i ==> m.slots[#[trigger] keys@[j]].current_idx != chunk,
            decreases keys@.len() - i,
        {
            assert(keys@.contains(keys@[i as int]));
            if let Some(slot) = self.pool.slots.get(keys[i]) {
                if slot.current_idx == chunk {
                    return false;
                }
            }
            i = i + 1;
        }
        assert forall|k: SlotKey| #[trigger] m.slots.contains_key(k) implies m.slots[k].current_idx
            != chunk by {
            assert(keys@.contains(k));
            let j = keys@.index_of(k);
            assert(keys@[j] == k);
        }
        let mut i: usize = 0;
        while i < self.mailbox.queue.len()
            invariant
                i <= self.mailbox.queue@.len(),
                self.model() == m,
                m == old(self).model(),
                m.wf(),
                forall|j: int| 0 <= j < i ==> (#[trigger] m.queue[j]).chunk != chunk,
            decreases self.mailbox.queue@.len() - i,
        {
            if self.mailbox.queue[i].chunk == chunk {
                assert(m.queue[i as int].chunk == chunk);
                return false;
            }
            i = i + 1;
        }
        if let Some(slab) = &self.pool.slab {
            let mut i: usize = 0;
            while i < slab.free_indices.len()
                invariant
                    i <= slab.free_indices@.len(),
                    slab.free_indices@ == m.free(),
                    forall|j: int| 0 <= j < i ==> (#[trigger] m.free()[j]) != chunk,
                    m == old(self).model(),
                    self.model() == m,
                    m.wf(),
                decreases slab.free_indices@.len() - i,
            {
                if slab.free_indices[i] == chunk {
                    assert(m.free()[i as int] == chunk);
                    assert(m.free().contains(chunk));
                    return false;
                }
                i = i + 1;
            }
        }
        if let Some(slab) = &mut self.pool.slab {
            slab.free_indices.push_back(chunk);
        }
        proof {
            assert(m.unheld(chunk));
            assert(self.model() == m.with_free(m.free().push(chunk)));
            appending_chunk(m, chunk);
        }
        true
    }

    /// The state of the pool in figures, once it is set up.
    pub fn udp_pool_debug_stats(&self) -> (r: Option<UdpRecvPoolDebugStats>)
        ensures
            r == (if self.pool.state is Uninitialized {
                None
            } else {
                Some(
                    UdpRecvPoolDebugStats {
                        min_credits: UDP_RECV_POOL_MIN_CREDITS,
                        max_credits: UDP_RECV_POOL_MAX_CREDITS,
                        target_credits: self.pool.target_credits,
                        waiters_len: self.mailbox.waiters@.len() as usize,
                    },
                )
            }),
    {
        if self.pool.state == UdpPoolState::Uninitialized {
            return None;
        }
        Some(
            UdpRecvPoolDebugStats {
                min_credits: UDP_RECV_POOL_MIN_CREDITS,
                max_credits: UDP_RECV_POOL_MAX_CREDITS,
                target_credits: self.pool.target_credits,
                waiters_len: self.mailbox.waiters.len(),
            },
        )
    }
}

/// Putting a chunk that nobody holds behind the free ones keeps the pool in order.
proof fn appending_chunk(m: PoolModel, c: u32)
    requires
        m.wf(),
        m.slab is Some,
        m.unheld(c),
        c < UDP_RECV_POOL_SLAB_CHUNKS,
    ensures
        m.with_free(m.free().push(c)).wf(),
{
    let f = m.free().push(c);
    let a = m.with_free(f);
    assert(a.free() == f);
    assert forall|d: u32| f.contains(d) implies d == c || m.free().contains(d) by {
        let i = f.index_of(d);
        if i < m.free().len() {
            assert(m.free()[i] == d);
        }
    }
    assert forall|i: int, j: int| 0 <= i < j < f.len() implies f[i] != f[j] by {
        assert(m.free().contains(m.free()[i]));
    }
    assert forall|i: int| 0 <= i < f.len() implies (#[trigger] f[i]) < UDP_RECV_POOL_SLAB_CHUNKS by {
        if i < m.free().len() {
            assert(m.free()[i] == f[i]);
        }
    }
}

} // verus!
