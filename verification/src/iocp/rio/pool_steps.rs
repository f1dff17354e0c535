//! The work of a receive pool, step by step. Where the system has to do something the
//! work stops, says what is asked, and goes on with the answer.
use std::collections::VecDeque;
use vstd::prelude::*;
use crate::iocp::error::RioError;
use super::contexts::{RequestContexts, RioCompletionKind};
use super::kernel::{RioBuf, RioBufferId};
use super::keys::{ActorKey, SlotKey};
use super::pool::{
    Answer, PoolModel, RioFailure, SlabModel, UdpBufferSlab, UdpPoolManager, UdpPoolPacket,
    UdpPoolState, UdpWaiter, IDLE_HITS_TO_SHRINK, UDP_RECV_POOL_CHUNK_SIZE,
    UDP_RECV_POOL_INITIAL_CREDITS, UDP_RECV_POOL_MAX_CREDITS, UDP_RECV_POOL_MIN_CREDITS,
    UDP_RECV_POOL_SLAB_CHUNKS,
};
use super::pool_slots::{pool_slots, UdpRecvPoolSlot};
use super::tokens::{free_token, steps};

verus! {

/// The size of the buffer for a sender's address.
pub const ADDR_BUF_LEN: u32 = 128;

/// What is asked of the system.
#[derive(Debug, Clone, Copy, PartialEq, Eq, Structural)]
#[allow(inconsistent_fields)]
pub enum PoolAsk {
    /// Allocate so many bytes; the answer is their address.
    AllocateSlab { len: usize },
    /// Hand the memory to `RIORegisterBuffer`.
    RegisterSlab { ptr: u64, len: usize },
    /// Allocate a buffer for an address and hand it to `RIORegisterBuffer`.
    RegisterAddr { len: u32 },
    /// Call `RIOReceiveEx`.
    Receive { data: RioBuf, addr: RioBuf, context: u64 },
}

/// A piece of work.
#[derive(Debug, Clone, Copy, PartialEq, Eq, Structural)]
pub enum Stage {
    /// Waits for the memory of the pool.
    SlabAllocated { chunk_size: usize },
    /// Waits for the registration of that memory.
    SlabRegistered { chunk_size: usize },
    /// Make slots until there are `target`.
    Grow { target: usize },
    /// Waits for the address buffer of a new slot.
    AddrRegistered { chunk: u32, target: usize },
    /// Waits for the answer to a receive request. `growth` is set for the first request
    /// of a new slot.
    Received { key: SlotKey, token: u32, context: u64, growth: Option<usize> },
    /// Make another request from a slot.
    Resubmit { key: SlotKey },
    /// Adapt the number of requests to the demand.
    Rebalance,
    /// Give up slots beyond the number wanted.
    Trim,
    /// The requests made since then do not count.
    RestoreCount { submissions: usize },
    /// Give an operation a datagram, or let it wait for one.
    Serve { waiter: UdpWaiter },
    /// Give datagrams that wait to operations that wait.
    Dispatch,
}

/// Work under way: what remains to be done, the next piece last, and what came of it
/// so far.
#[derive(Debug)]
pub struct PoolTask {
    pub todo: Vec<Stage>,
    /// The requests made.
    pub submissions: usize,
    /// The datagram for the operation that asked.
    pub served: Option<UdpPoolPacket>,
    /// Buffers that the caller has to deregister.
    pub released: Vec<RioBufferId>,
}

/// Where the work stands.
#[derive(Debug)]
#[allow(inconsistent_fields)]
pub enum PoolStep {
    /// The system is asked for something; the work goes on with `answer`.
    Ask { ask: PoolAsk, task: PoolTask },
    /// The work goes on with `advance`.
    Next { task: PoolTask },
    /// Everything is done.
    Done { task: PoolTask },
    /// The work was given up.
    Failed { failure: RioFailure, task: PoolTask },
}

/// A piece of work that needs no answer.
pub open spec fn runs_by_itself(s: Stage) -> bool {
    !(s is SlabAllocated) && !(s is SlabRegistered) && !(s is AddrRegistered) && !(s is Received)
}

/// A piece of work that can wait for its turn.
pub open spec fn can_wait(s: Stage) -> bool {
    &&& runs_by_itself(s)
    &&& !(s is Resubmit)
    &&& s matches Stage::Grow { target } ==> target <= UDP_RECV_POOL_MAX_CREDITS
}

/// A chunk size for which the memory of a pool can be addressed.
pub open spec fn chunk_size_ok(chunk_size: usize) -> bool {
    chunk_size >= 1 && chunk_size * UDP_RECV_POOL_SLAB_CHUNKS <= usize::MAX
}

impl PoolTask {
    /// Nothing has come of the task yet.
    pub open spec fn untouched(&self) -> bool {
        self.submissions == 0 && self.served is None && self.released@.len() == 0
    }

    /// The pool is to make as many requests as it should, and nothing else.
    pub open spec fn rebalances(&self) -> bool {
        self.todo@ == seq![Stage::Rebalance] && self.untouched()
    }

    /// The task can go on with a pool in the state `m`.
    pub open spec fn fits(&self, m: PoolModel) -> bool {
        &&& forall|i: int|
            0 <= i < self.todo@.len() - 1 ==> can_wait(#[trigger] self.todo@[i])
        &&& self.todo@.len() > 0 ==> match self.todo@.last() {
            Stage::SlabAllocated { chunk_size } => m.state is Uninitialized && chunk_size_ok(
                chunk_size,
            ),
            Stage::SlabRegistered { chunk_size } => m.state is Uninitialized && chunk_size_ok(
                chunk_size,
            ),
            Stage::Grow { target } => target <= UDP_RECV_POOL_MAX_CREDITS,
            Stage::AddrRegistered { chunk, target } => {
                &&& m.state is Running
                &&& chunk < UDP_RECV_POOL_SLAB_CHUNKS
                &&& m.unheld(chunk)
                &&& m.slots.len() < target <= UDP_RECV_POOL_MAX_CREDITS
            },
            Stage::Received { key, token, growth, .. } => {
                &&& m.tokens.contains_key(token)
                &&& m.tokens[token] == key
                &&& growth matches Some(target) ==> target <= UDP_RECV_POOL_MAX_CREDITS
                &&& growth is Some ==> m.state is Running
            },
            Stage::Resubmit { key } => {
                &&& m.state is Running
                &&& m.slots.contains_key(key)
                &&& !m.slots[key].in_flight
            },
            _ => true,
        }
    }

    /// What remains after the next piece of work.
    pub open spec fn rest(&self) -> Seq<Stage> {
        self.todo@.drop_last()
    }

    /// The same task with other work to do.
    pub open spec fn doing(&self, after: &PoolTask, todo: Seq<Stage>) -> bool {
        &&& after.todo@ == todo
        &&& after.submissions == self.submissions
        &&& after.served == self.served
        &&& after.released@ == self.released@
    }

    /// A task with nothing to do.
    pub fn empty() -> (t: Self)
        ensures
            t.todo@.len() == 0,
            t.untouched(),
    {
        PoolTask { todo: Vec::new(), submissions: 0, served: None, released: Vec::new() }
    }
}

impl PoolStep {
    /// The step can be taken with a pool in the state `m`.
    pub open spec fn fits(&self, m: PoolModel) -> bool {
        match self {
            PoolStep::Ask { ask, task } => {
                &&& task.fits(m)
                &&& task.todo@.len() > 0
                &&& !runs_by_itself(task.todo@.last())
            },
            PoolStep::Next { task } => {
                &&& task.fits(m)
                &&& task.todo@.len() > 0 ==> runs_by_itself(task.todo@.last())
            },
            PoolStep::Done { task } => task.todo@.len() == 0,
            PoolStep::Failed { .. } => true,
        }
    }
}

/// The request to receive into the chunk of a slot.
pub open spec fn receive_ask(slab: SlabModel, slot: UdpRecvPoolSlot, context: u64) -> PoolAsk {
    PoolAsk::Receive {
        data: RioBuf {
            buffer_id: slab.rio_id,
            offset: (slot.current_idx * slab.chunk_size) as u32,
            length: slab.chunk_size as u32,
        },
        addr: RioBuf { buffer_id: slot.addr_buf_id, offset: 0, length: ADDR_BUF_LEN },
        context,
    }
}

/// No room for another request.
pub open spec fn no_room() -> RioFailure {
    RioFailure { error: RioError::ResourceExhaustion, code: None }
}

impl PoolModel {
    /// `token` is the next one that is free.
    pub open spec fn next_token(self, token: u32) -> bool {
        &&& token != 0
        &&& !self.tokens.contains_key(token)
        &&& forall|t: u32| #[trigger]
            free_token(self.tokens, t) ==> steps(self.next_ctx, token) <= steps(self.next_ctx, t)
    }

    /// A slot with a request under way.
    pub open spec fn submitted(self, key: SlotKey, token: u32) -> PoolModel {
        PoolModel {
            slots: self.slots.insert(
                key,
                UdpRecvPoolSlot { in_flight: true, stop_requested: false, ..self.slots[key] },
            ),
            tokens: self.tokens.insert(token, key),
            next_ctx: token.wrapping_add(1),
            ..self
        }
    }

    /// The request of a slot was refused.
    pub open spec fn refused(self, key: SlotKey, token: u32) -> PoolModel {
        PoolModel {
            slots: self.slots.insert(
                key,
                UdpRecvPoolSlot { in_flight: false, stop_requested: false, ..self.slots[key] },
            ),
            tokens: self.tokens.remove(token),
            ..self
        }
    }

    /// The number of requests that are wanted, and how often the pool was found idle,
    /// after a look at the demand: up by one for each waiting operation, four at most,
    /// and down by one when the pool was idle for a while.
    pub open spec fn demand(self) -> (usize, u32) {
        if self.waiters.len() > 0 {
            let bump = if self.waiters.len() > 4 {
                4int
            } else {
                self.waiters.len() as int
            };
            (
                (if self.target_credits + bump > UDP_RECV_POOL_MAX_CREDITS {
                    UDP_RECV_POOL_MAX_CREDITS as int
                } else {
                    self.target_credits + bump
                }) as usize,
                0,
            )
        } else if self.queue.len() == 0 {
            let hits = if self.idle_hits == u32::MAX {
                u32::MAX
            } else {
                (self.idle_hits + 1) as u32
            };
            if hits >= IDLE_HITS_TO_SHRINK && self.target_credits > UDP_RECV_POOL_MIN_CREDITS {
                ((self.target_credits - 1) as usize, 0)
            } else {
                (self.target_credits, hits)
            }
        } else {
            (self.target_credits, 0)
        }
    }

    /// The pool after a look at the demand.
    pub open spec fn rebalanced(self) -> PoolModel {
        if self.state is Running {
            PoolModel { target_credits: self.demand().0, idle_hits: self.demand().1, ..self }
        } else {
            self
        }
    }

    /// The slots `gone`, none of which has a request under way, were given up, as many
    /// as can be while more exist than are wanted.
    pub open spec fn trimmed_by(self, after: PoolModel, gone: Seq<SlotKey>) -> bool {
        &&& gone.no_duplicates()
        &&& forall|i: int|
            0 <= i < gone.len() ==> self.slots.contains_key(#[trigger] gone[i])
                && !self.slots[gone[i]].in_flight
        &&& after == (PoolModel { slots: self.slots.remove_keys(gone.to_set()), ..self })
        &&& {
            ||| self.state is Running && after.slots.len() <= self.target_credits
            ||| forall|k: SlotKey| #[trigger]
                after.slots.contains_key(k) ==> after.slots[k].in_flight
        }
        &&& self.state is Running && gone.len() > 0 ==> after.slots.len() >= self.target_credits
    }

    /// The address buffers of the given slots.
    pub open spec fn addr_bufs(self, keys: Seq<SlotKey>) -> Seq<RioBufferId> {
        keys.map_values(|k: SlotKey| self.slots[k].addr_buf_id)
    }

    /// What making slots leads to: a new slot takes the first free chunk and asks for
    /// an address buffer; nothing happens when there are enough slots or no chunks.
    pub open spec fn grown(
        self,
        after: PoolModel,
        task: &PoolTask,
        target: usize,
        step: PoolStep,
    ) -> bool {
        if self.state is Running && self.slots.len() < target && self.free().len() > 0 {
            &&& after == self.with_free(self.free().drop_first())
            &&& step matches PoolStep::Ask { ask, task: t }
            &&& ask == (PoolAsk::RegisterAddr { len: ADDR_BUF_LEN })
            &&& task.doing(
                &t,
                task.rest().push(Stage::AddrRegistered { chunk: self.free()[0], target }),
            )
        } else {
            &&& after == self
            &&& step matches PoolStep::Next { task: t }
            &&& task.doing(&t, task.rest())
        }
    }

    /// What a look at the demand leads to.
    pub open spec fn looked_at(self, after: PoolModel, task: &PoolTask, step: PoolStep) -> bool {
        &&& after == self.rebalanced()
        &&& step matches PoolStep::Next { task: t }
        &&& task.doing(
            &t,
            if self.state is Running {
                task.rest().push(Stage::Trim).push(Stage::Grow { target: after.target_credits })
            } else {
                task.rest().push(Stage::Trim)
            },
        )
    }

    /// What giving up slots leads to. Their address buffers are released.
    pub open spec fn trimmed(self, after: PoolModel, task: &PoolTask, step: PoolStep) -> bool {
        &&& step matches PoolStep::Next { task: t }
        &&& t.todo@ == task.rest()
        &&& t.submissions == task.submissions
        &&& t.served == task.served
        &&& exists|gone: Seq<SlotKey>| #[trigger]
            self.trimmed_by(after, gone) && t.released@ == task.released@ + self.addr_bufs(gone)
    }

    /// What serving an operation leads to: it gets the oldest datagram, or it waits
    /// behind all others. Only a running pool serves.
    pub open spec fn served(
        self,
        after: PoolModel,
        task: &PoolTask,
        waiter: UdpWaiter,
        step: PoolStep,
    ) -> bool {
        if !(self.state is Running) {
            &&& after == self
            &&& step matches PoolStep::Failed { failure, task: t }
            &&& failure == (RioFailure { error: RioError::Internal, code: None })
            &&& task.doing(&t, task.rest())
        } else if self.queue.len() > 0 {
            &&& after == (PoolModel { queue: self.queue.drop_first(), ..self })
            &&& step matches PoolStep::Next { task: t }
            &&& t.todo@ == task.rest().push(Stage::Rebalance)
            &&& t.submissions == task.submissions
            &&& t.served == Some(self.queue[0])
            &&& t.released@ == task.released@
        } else {
            &&& after == (PoolModel { waiters: self.waiters.push(waiter), ..self })
            &&& step matches PoolStep::Next { task: t }
            &&& task.doing(
                &t,
                if self.slots.len() == 0 {
                    task.rest().push(Stage::Rebalance).push(
                        Stage::RestoreCount { submissions: task.submissions },
                    ).push(Stage::Rebalance)
                } else {
                    task.rest().push(Stage::Rebalance)
                },
            )
        }
    }

    /// What another request from a slot leads to: a fresh token stands for it, and a
    /// fresh context identifies it.
    pub open spec fn resubmitted(
        self,
        after: PoolModel,
        before_contexts: &RequestContexts,
        after_contexts: &RequestContexts,
        actor: ActorKey,
        task: &PoolTask,
        key: SlotKey,
        growth: Option<usize>,
        step: PoolStep,
    ) -> bool {
        &&& step matches PoolStep::Ask { ask, task: t }
        &&& t.todo@.len() > 0
        &&& t.todo@.last() matches Stage::Received { key: k, token, context, growth: g }
        &&& k == key
        &&& g == growth
        &&& self.next_token(token)
        &&& after == self.submitted(key, token)
        &&& before_contexts.opened(
            after_contexts,
            context,
            RioCompletionKind::Pool { actor_key: actor, generation: token },
        )
        &&& ask == receive_ask(self.slab->Some_0, self.slots[key], context)
        &&& task.doing(&t, task.rest().push(t.todo@.last()))
    }
    /// What the answer to a request of the pool leads to.
    pub open spec fn answered(
        self,
        after: PoolModel,
        before_contexts: &RequestContexts,
        after_contexts: &RequestContexts,
        actor: ActorKey,
        task: &PoolTask,
        answer: Answer,
        step: PoolStep,
    ) -> bool {
        match task.todo@.last() {
            Stage::SlabAllocated { chunk_size } => {
                &&& after == self
                &&& after_contexts == before_contexts
                &&& if answer.value == 0 {
                    &&& step matches PoolStep::Failed { failure, task: t }
                    &&& failure == (RioFailure { error: RioError::Internal, code: None })
                    &&& task.doing(&t, task.rest())
                } else {
                    &&& step matches PoolStep::Ask { ask, task: t }
                    &&& ask == (PoolAsk::RegisterSlab {
                        ptr: answer.value,
                        len: (chunk_size * UDP_RECV_POOL_SLAB_CHUNKS) as usize,
                    })
                    &&& task.doing(&t, task.rest().push(Stage::SlabRegistered { chunk_size }))
                }
            },
            Stage::SlabRegistered { chunk_size } => {
                &&& after_contexts == before_contexts
                &&& if answer.value == 0 {
                    &&& after == self
                    &&& step matches PoolStep::Failed { failure, task: t }
                    &&& failure == register_failure(answer)
                    &&& task.doing(&t, task.rest())
                } else {
                    &&& after == (PoolModel {
                        slab: Some(
                            SlabModel {
                                rio_id: RioBufferId { id: answer.value },
                                chunk_size,
                                free: all_chunks(),
                            },
                        ),
                        target_credits: UDP_RECV_POOL_INITIAL_CREDITS,
                        idle_hits: 0,
                        state: UdpPoolState::Running,
                        ..self
                    })
                    &&& step matches PoolStep::Next { task: t }
                    &&& task.doing(
                        &t,
                        task.rest().push(Stage::Grow { target: UDP_RECV_POOL_INITIAL_CREDITS }),
                    )
                }
            },
            Stage::AddrRegistered { chunk, target } => {
                if answer.value == 0 {
                    &&& after == self.with_free(seq![chunk] + self.free())
                    &&& after_contexts == before_contexts
                    &&& step matches PoolStep::Failed { failure, task: t }
                    &&& failure == register_failure(answer)
                    &&& task.doing(&t, task.rest())
                } else if !before_contexts.has_room() {
                    &&& after == self.with_free(seq![chunk] + self.free())
                    &&& after_contexts == before_contexts
                    &&& step matches PoolStep::Failed { failure, task: t }
                    &&& failure == no_room()
                    &&& t.todo@ == task.rest()
                    &&& t.submissions == task.submissions
                    &&& t.served == task.served
                    &&& t.released@ == task.released@.push(RioBufferId { id: answer.value })
                } else {
                    &&& step matches PoolStep::Ask { ask, task: t }
                    &&& t.todo@.len() > 0
                    &&& t.todo@.last() matches Stage::Received { key, .. }
                    &&& !self.slots.contains_key(key)
                    &&& self.with_slot(
                        key,
                        UdpRecvPoolSlot {
                            current_idx: chunk,
                            addr_buf_id: RioBufferId { id: answer.value },
                            in_flight: false,
                            stop_requested: false,
                        },
                    ).resubmitted(
                        after,
                        before_contexts,
                        after_contexts,
                        actor,
                        task,
                        key,
                        Some(target),
                        step,
                    )
                }
            },
            Stage::Received { key, token, context, growth } => {
                if answer.value != 0 {
                    &&& after == self
                    &&& after_contexts == before_contexts
                    &&& step matches PoolStep::Next { task: t }
                    &&& t.todo@ == (match growth {
                        Some(target) => task.rest().push(Stage::Grow { target }),
                        None => task.rest(),
                    })
                    &&& t.submissions == task.submissions + 1
                    &&& t.served == task.served
                    &&& t.released@ == task.released@
                } else {
                    &&& before_contexts.closed(after_contexts, context)
                    &&& step matches PoolStep::Failed { failure, task: t }
                    &&& failure == (RioFailure {
                        error: RioError::Datapath,
                        code: Some(answer.error),
                    })
                    &&& t.todo@ == task.rest()
                    &&& t.submissions == task.submissions
                    &&& t.served == task.served
                    &&& if growth is Some {
                        &&& after == self.ungrown(key, token)
                        &&& t.released@ == task.released@.push(self.slots[key].addr_buf_id)
                    } else {
                        &&& after == self.refused(key, token)
                        &&& t.released@ == task.released@
                    }
                }
            },
            _ => false,
        }
    }

    /// The first request of a new slot was refused: the slot is gone, and its chunk is
    /// the first free one again.
    pub open spec fn ungrown(self, key: SlotKey, token: u32) -> PoolModel {
        PoolModel {
            slots: self.slots.remove(key),
            tokens: self.tokens.remove(token),
            ..self.with_free(seq![self.slots[key].current_idx] + self.free())
        }
    }
}

/// A registration was refused.
pub open spec fn register_failure(answer: Answer) -> RioFailure {
    RioFailure { error: RioError::BufferRegistration, code: Some(answer.error) }
}

/// The chunks of a pool in order.
pub open spec fn all_chunks() -> Seq<u32> {
    Seq::new(UDP_RECV_POOL_SLAB_CHUNKS as nat, |i: int| i as u32)
}

/// The chunk size for a request: what is asked for, but not less than the smallest.
pub open spec fn chunk_size_for(requested: usize) -> usize {
    if requested > UDP_RECV_POOL_CHUNK_SIZE {
        requested
    } else {
        UDP_RECV_POOL_CHUNK_SIZE
    }
}

impl UdpPoolManager {
    /// Starts to serve an operation. The first one sets the pool up.
    pub fn try_submit_recv(&mut self, waiter: UdpWaiter, requested_chunk_size: usize) -> (step:
        PoolStep)
        requires
            old(self).wf(),
        ensures
            final(self).wf(),
            final(self).model() == old(self).model(),
            step.fits(final(self).model()),
            if !(old(self).pool.state is Uninitialized) {
                &&& step matches PoolStep::Next { task }
                &&& task.todo@ == seq![Stage::Serve { waiter }]
                &&& task.untouched()
            } else if chunk_size_ok(chunk_size_for(requested_chunk_size)) {
                let chunk_size = chunk_size_for(requested_chunk_size);
                &&& step matches PoolStep::Ask { ask, task }
                &&& ask == (PoolAsk::AllocateSlab {
                    len: (chunk_size * UDP_RECV_POOL_SLAB_CHUNKS) as usize,
                })
                &&& task.todo@ == seq![
                    Stage::Serve { waiter },
                    Stage::SlabAllocated { chunk_size },
                ]
                &&& task.untouched()
            } else {
                &&& step matches PoolStep::Failed { failure, task }
                &&& failure == (RioFailure { error: RioError::Internal, code: None })
                &&& task.todo@ == seq![Stage::Serve { waiter }]
                &&& task.untouched()
            },
    {
        let mut task = PoolTask::empty();
        task.todo.push(Stage::Serve { waiter });
        if self.pool.state != UdpPoolState::Uninitialized {
            assert(task.todo@ =~= seq![Stage::Serve { waiter }]);
            return PoolStep::Next { task };
        }
        let chunk_size: usize = if requested_chunk_size > UDP_RECV_POOL_CHUNK_SIZE {
            requested_chunk_size
        } else {
            UDP_RECV_POOL_CHUNK_SIZE
        };
        match chunk_size.checked_mul(UDP_RECV_POOL_SLAB_CHUNKS as usize) {
            Some(len) => {
                task.todo.push(Stage::SlabAllocated { chunk_size });
                assert(task.todo@ =~= seq![
                    Stage::Serve { waiter },
                    Stage::SlabAllocated { chunk_size },
                ]);
                PoolStep::Ask { ask: PoolAsk::AllocateSlab { len }, task }
            },
            None => PoolStep::Failed {
                failure: RioFailure { error: RioError::Internal, code: None },
                task,
            },
        }
    }

    /// Makes a slot, if one is wanted and a chunk is free.
    pub(crate) fn grow(&mut self, mut task: PoolTask, target: usize) -> (step: PoolStep)
        requires
            old(self).wf(),
            task.fits(old(self).model()),
            task.todo@.len() > 0,
            task.todo@.last() == (Stage::Grow { target }),
        ensures
            final(self).wf(),
            step.fits(final(self).model()),
            old(self).model().grown(final(self).model(), &task, target, step),
    {
        let ghost before = self.model();
        let _ = task.todo.pop();
        if self.pool.state == UdpPoolState::Running && self.pool.slots.len() < target {
            if let Some(slab) = &mut self.pool.slab {
                if let Some(chunk) = slab.free_indices.pop_front() {
                    task.todo.push(Stage::AddrRegistered { chunk, target });
                    proof {
                        assert(before.free()[0] == chunk);
                        assert(self.model() == before.with_free(before.free().drop_first()));
                        dropping_first_chunk(before);
                    }
                    return PoolStep::Ask {
                        ask: PoolAsk::RegisterAddr { len: ADDR_BUF_LEN },
                        task,
                    };
                }
            }
        }
        assert(self.model() == before);
        PoolStep::Next { task }
    }
    /// Looks at the demand and sets the number of requests that are wanted.
    pub(crate) fn rebalance(&mut self, mut task: PoolTask) -> (step: PoolStep)
        requires
            old(self).wf(),
            task.fits(old(self).model()),
            task.todo@.len() > 0,
            task.todo@.last() == Stage::Rebalance,
        ensures
            final(self).wf(),
            step.fits(final(self).model()),
            old(self).model().looked_at(final(self).model(), &task, step),
    {
        let ghost before = self.model();
        let _ = task.todo.pop();
        if self.pool.state != UdpPoolState::Running {
            task.todo.push(Stage::Trim);
            return PoolStep::Next { task };
        }
        let waiting: usize = self.mailbox.waiters.len();
        if waiting > 0 {
            let bump: usize = if waiting > 4 {
                4
            } else {
                waiting
            };
            let wanted: usize = self.pool.target_credits + bump;
            self.pool.target_credits = if wanted > UDP_RECV_POOL_MAX_CREDITS {
                UDP_RECV_POOL_MAX_CREDITS
            } else {
                wanted
            };
            self.pool.idle_hits = 0;
        } else if self.mailbox.queue.len() == 0 {
            self.pool.idle_hits = self.pool.idle_hits.saturating_add(1);
            if self.pool.idle_hits >= IDLE_HITS_TO_SHRINK && self.pool.target_credits
                > UDP_RECV_POOL_MIN_CREDITS {
                self.pool.target_credits = self.pool.target_credits - 1;
                self.pool.idle_hits = 0;
            }
        } else {
            self.pool.idle_hits = 0;
        }
        task.todo.push(Stage::Trim);
        task.todo.push(Stage::Grow { target: self.pool.target_credits });
        proof {
            let after = self.model();
            assert(after == before.rebalanced());
            assert(after.free() == before.free());
        }
        PoolStep::Next { task }
    }

    /// A slot without a request under way, if there is one.
    fn find_idle(&self) -> (r: Option<SlotKey>)
        ensures
            match r {
                Some(k) => pool_slots(self.pool.slots).contains_key(k) && !pool_slots(
                    self.pool.slots,
                )[k].in_flight,
                None => forall|k: SlotKey| #[trigger]
                    pool_slots(self.pool.slots).contains_key(k) ==> pool_slots(
                        self.pool.slots,
                    )[k].in_flight,
            },
    {
        let keys = self.pool.slots.keys();
        let mut i: usize = 0;
        while i < keys.len()
            invariant
                i <= keys@.len(),
                forall|k: SlotKey|
                    #[trigger] keys@.contains(k) <==> pool_slots(self.pool.slots).contains_key(k),
                forall|j: int|
                    0 <= j < i ==> pool_slots(self.pool.slots)[#[trigger] keys@[j]].in_flight,
            decreases keys@.len() - i,
        {
            assert(keys@.contains(keys@[i as int]));
            if let Some(slot) = self.pool.slots.get(keys[i]) {
                if !slot.in_flight {
                    return Some(keys[i]);
                }
            }
            i = i + 1;
        }
        assert forall|k: SlotKey| #[trigger]
            pool_slots(self.pool.slots).contains_key(k) implies pool_slots(
            self.pool.slots,
        )[k].in_flight by {
            assert(keys@.contains(k));
            let j = keys@.index_of(k);
            assert(keys@[j] == k);
        }
        None
    }

    /// Gives up slots beyond the number wanted, as far as no request is under way from
    /// them.
    pub(crate) fn trim_tail(&mut self, mut task: PoolTask) -> (step: PoolStep)
        requires
            old(self).wf(),
            task.fits(old(self).model()),
            task.todo@.len() > 0,
            task.todo@.last() == Stage::Trim,
        ensures
            final(self).wf(),
            step.fits(final(self).model()),
            old(self).model().trimmed(final(self).model(), &task, step),
    {
        let ghost m = self.model();
        let ghost start = task;
        let ghost mut gone: Seq<SlotKey> = Seq::empty();
        let _ = task.todo.pop();
        proof {
            assert(m.slots.remove_keys(gone.to_set()) =~= m.slots);
            assert(task.released@ =~= start.released@ + m.addr_bufs(gone));
        }
        loop
            invariant_except_break
                m.state is Running && gone.len() > 0 ==> self.model().slots.len()
                    >= m.target_credits,
            invariant
                m == old(self).model(),
                m.wf(),
                self.wf(),
                self.model() == (PoolModel { slots: self.model().slots, ..m }),
                self.model().slots == m.slots.remove_keys(gone.to_set()),
                gone.no_duplicates(),
                forall|i: int|
                    0 <= i < gone.len() ==> m.slots.contains_key(#[trigger] gone[i])
                        && !m.slots[gone[i]].in_flight,
                task.todo@ == start.rest(),
                task.submissions == start.submissions,
                task.served == start.served,
                task.released@ == start.released@ + m.addr_bufs(gone),
            ensures
                m.trimmed_by(self.model(), gone),
            decreases self.model().slots.len(),
        {
            if self.pool.state == UdpPoolState::Running && self.pool.slots.len()
                <= self.pool.target_credits {
                break;
            }
            match self.find_idle() {
                Some(key) => {
                    let ghost here = self.model();
                    if let Some(slot) = self.pool.slots.remove(key) {
                        task.released.push(slot.addr_buf_id);
                    }
                    proof {
                        assert(!gone.contains(key)) by {
                            if gone.contains(key) {
                                assert(gone.to_set().contains(key));
                            }
                        }
                        let more = gone.push(key);
                        assert(more.to_set() =~= gone.to_set().insert(key)) by {
                            assert forall|k: SlotKey| more.to_set().contains(k) implies gone.to_set().insert(
                                key,
                            ).contains(k) by {
                                let i = more.index_of(k);
                                if i < gone.len() {
                                    assert(gone[i] == k);
                                    assert(gone.contains(k));
                                }
                            }
                            assert forall|k: SlotKey|
                                gone.to_set().insert(key).contains(k) implies more.to_set().contains(
                                k,
                            ) by {
                                if k == key {
                                    assert(more[gone.len() as int] == key);
                                } else {
                                    let i = gone.index_of(k);
                                    assert(more[i] == k);
                                }
                            }
                        }
                        assert(self.model().slots =~= m.slots.remove_keys(more.to_set()));
                        assert(m.addr_bufs(more) =~= m.addr_bufs(gone).push(
                            m.slots[key].addr_buf_id,
                        ));
                        assert(start.released@ + m.addr_bufs(more) =~= (start.released@
                            + m.addr_bufs(gone)).push(m.slots[key].addr_buf_id));
                        removing_idle_slot(here, key);
                        gone = more;
                    }
                },
                None => {
                    break;
                },
            }
        }
        assert(m.trimmed_by(self.model(), gone));
        PoolStep::Next { task }
    }

    /// Gives an operation the oldest datagram, or lets it wait.
    pub(crate) fn serve(&mut self, mut task: PoolTask, waiter: UdpWaiter) -> (step: PoolStep)
        requires
            old(self).wf(),
            task.fits(old(self).model()),
            task.todo@.len() > 0,
            task.todo@.last() == (Stage::Serve { waiter }),
        ensures
            final(self).wf(),
            step.fits(final(self).model()),
            old(self).model().served(final(self).model(), &task, waiter, step),
    {
        let ghost before = self.model();
        let _ = task.todo.pop();
        if self.pool.state != UdpPoolState::Running {
            return PoolStep::Failed {
                failure: RioFailure { error: RioError::Internal, code: None },
                task,
            };
        }
        if let Some(packet) = self.mailbox.queue.pop_front() {
            task.served = Some(packet);
            task.todo.push(Stage::Rebalance);
            proof {
                assert(self.mailbox.queue@ =~= before.queue.drop_first());
                assert(self.model().free() == before.free());
                assert forall|i: int| 0 <= i < self.model().queue.len() implies (
                #[trigger] self.model().queue[i]) == before.queue[i + 1] by {}
            }
            return PoolStep::Next { task };
        }
        assert(self.mailbox.queue@ =~= before.queue);
        self.mailbox.waiters.push_back(waiter);
        assert(self.model() == (PoolModel { waiters: before.waiters.push(waiter), ..before }));
        assert(self.model().free() == before.free());
        task.todo.push(Stage::Rebalance);
        if self.pool.slots.len() == 0 {
            task.todo.push(Stage::RestoreCount { submissions: task.submissions });
            task.todo.push(Stage::Rebalance);
        }
        PoolStep::Next { task }
    }

    /// Makes a request from a slot.
    pub(crate) fn submit_slot(
        &mut self,
        mut task: PoolTask,
        key: SlotKey,
        growth: Option<usize>,
        actor: ActorKey,
        contexts: &mut RequestContexts,
    ) -> (step: PoolStep)
        requires
            old(self).wf(),
            old(self).pool.state is Running,
            old(self).model().slots.contains_key(key),
            !old(self).model().slots[key].in_flight,
            growth matches Some(target) ==> target <= UDP_RECV_POOL_MAX_CREDITS,
            forall|i: int| 0 <= i < task.todo@.len() ==> can_wait(#[trigger] task.todo@[i]),
            old(contexts).wf(),
            old(contexts).has_room(),
        ensures
            final(self).wf(),
            step.fits(final(self).model()),
            step matches PoolStep::Ask { ask, task: t } && t.todo@.len() > 0 && (
            t.todo@.last() matches Stage::Received { key: k, token, context, growth: g } && {
                &&& k == key
                &&& g == growth
                &&& old(self).model().next_token(token)
                &&& final(self).model() == old(self).model().submitted(key, token)
                &&& old(contexts).opened(
                    final(contexts),
                    context,
                    RioCompletionKind::Pool { actor_key: actor, generation: token },
                )
                &&& ask == receive_ask(
                    old(self).model().slab->Some_0,
                    old(self).model().slots[key],
                    context,
                )
                &&& t.todo@ == task.todo@.push(t.todo@.last())
                &&& t.submissions == task.submissions
                &&& t.served == task.served
                &&& t.released@ == task.released@
            }),
    {
        let ghost before = self.model();
        proof {
            before.tokens_are_few();
        }
        let token: u32 = self.registry.take(key);
        let mut idx: u32 = 0;
        let mut addr_buf_id = RioBufferId::invalid();
        if let Some(slot) = self.pool.slots.get(key) {
            idx = slot.current_idx;
            addr_buf_id = slot.addr_buf_id;
            self.pool.slots.set(
                key,
                UdpRecvPoolSlot { in_flight: true, stop_requested: false, ..slot },
            );
        }
        let mut chunk_size: usize = 1;
        let mut rio_id = RioBufferId::invalid();
        if let Some(slab) = &self.pool.slab {
            chunk_size = slab.chunk_size;
            rio_id = slab.rio_id;
        }
        let context = contexts.encode_pool_req_ctx(actor, token);
        assert(idx * chunk_size <= usize::MAX) by (nonlinear_arith)
            requires
                idx < UDP_RECV_POOL_SLAB_CHUNKS,
                chunk_size * UDP_RECV_POOL_SLAB_CHUNKS <= usize::MAX,
                UDP_RECV_POOL_SLAB_CHUNKS == 272u32,
        ;
        let start: usize = (idx as usize) * chunk_size;
        let data = RioBuf {
            buffer_id: rio_id,
            offset: #[verifier::truncate]
            (start as u32),
            length: #[verifier::truncate]
            (chunk_size as u32),
        };
        let addr = RioBuf { buffer_id: addr_buf_id, offset: 0, length: ADDR_BUF_LEN };
        task.todo.push(Stage::Received { key, token, context, growth });
        proof {
            assert(self.model().slots == before.submitted(key, token).slots);
            submitting_keeps_order(before, key, token);
        }
        PoolStep::Ask { ask: PoolAsk::Receive { data, addr, context }, task }
    }
    /// Goes on with the system's answer.
    pub fn answer(
        &mut self,
        mut task: PoolTask,
        answer: Answer,
        actor: ActorKey,
        contexts: &mut RequestContexts,
    ) -> (step: PoolStep)
        requires
            old(self).wf(),
            task.fits(old(self).model()),
            task.todo@.len() > 0,
            !runs_by_itself(task.todo@.last()),
            task.submissions < usize::MAX,
            old(contexts).wf(),
        ensures
            final(self).wf(),
            final(contexts).wf(),
            step.fits(final(self).model()),
            old(self).model().answered(
                final(self).model(),
                old(contexts),
                final(contexts),
                actor,
                &task,
                answer,
                step,
            ),
    {
        let ghost before = self.model();
        let top = task.todo.pop();
        match top {
            Some(Stage::SlabAllocated { chunk_size }) => {
                if answer.value == 0 {
                    return PoolStep::Failed {
                        failure: RioFailure { error: RioError::Internal, code: None },
                        task,
                    };
                }
                let len: usize = chunk_size * (UDP_RECV_POOL_SLAB_CHUNKS as usize);
                task.todo.push(Stage::SlabRegistered { chunk_size });
                PoolStep::Ask { ask: PoolAsk::RegisterSlab { ptr: answer.value, len }, task }
            },
            Some(Stage::SlabRegistered { chunk_size }) => {
                if answer.value == 0 {
                    return PoolStep::Failed {
                        failure: RioFailure {
                            error: RioError::BufferRegistration,
                            code: Some(answer.error),
                        },
                        task,
                    };
                }
                let free_indices = chunk_list();
                self.pool.slab = Some(
                    UdpBufferSlab {
                        rio_id: RioBufferId { id: answer.value },
                        chunk_size,
                        free_indices,
                    },
                );
                self.pool.target_credits = UDP_RECV_POOL_INITIAL_CREDITS;
                self.pool.idle_hits = 0;
                self.pool.state = UdpPoolState::Running;
                task.todo.push(Stage::Grow { target: UDP_RECV_POOL_INITIAL_CREDITS });
                proof {
                    assert(before.slots.dom() =~= Set::<SlotKey>::empty());
                    assert forall|k: SlotKey| #[trigger]
                        self.model().slots.contains_key(k) implies false by {
                        assert(before.slots.dom().contains(k));
                    }
                }
                PoolStep::Next { task }
            },
            Some(Stage::AddrRegistered { chunk, target }) => {
                if answer.value == 0 || !contexts.can_open() {
                    if answer.value != 0 {
                        task.released.push(RioBufferId { id: answer.value });
                    }
                    if let Some(slab) = &mut self.pool.slab {
                        slab.free_indices.push_front(chunk);
                    }
                    proof {
                        assert(self.model().free() =~= seq![chunk] + before.free());
                        assert(self.model() == before.with_free(seq![chunk] + before.free()));
                        returning_chunk(before, chunk);
                    }
                    let failure = if answer.value == 0 {
                        RioFailure { error: RioError::BufferRegistration, code: Some(answer.error) }
                    } else {
                        RioFailure { error: RioError::ResourceExhaustion, code: None }
                    };
                    return PoolStep::Failed { failure, task };
                }
                let slot = UdpRecvPoolSlot {
                    current_idx: chunk,
                    addr_buf_id: RioBufferId { id: answer.value },
                    in_flight: false,
                    stop_requested: false,
                };
                let key = self.pool.slots.insert(slot);
                proof {
                    assert(self.model() == before.with_slot(key, slot));
                    adding_slot(before, key, slot);
                }
                self.submit_slot(task, key, Some(target), actor, contexts)
            },
            Some(Stage::Received { key, token, context, growth }) => {
                if answer.value != 0 {
                    task.submissions = task.submissions + 1;
                    if let Some(target) = growth {
                        task.todo.push(Stage::Grow { target });
                    }
                    return PoolStep::Next { task };
                }
                let _ = contexts.close(context);
                self.registry.reclaim(token);
                let found = self.pool.slots.get(key);
                if let Some(slot) = found {
                    if growth.is_some() {
                        let _ = self.pool.slots.remove(key);
                        task.released.push(slot.addr_buf_id);
                        if let Some(slab) = &mut self.pool.slab {
                            slab.free_indices.push_front(slot.current_idx);
                        }
                        proof {
                            assert(self.model().free() =~= seq![slot.current_idx]
                                + before.free());
                            assert(self.model() == before.ungrown(key, token));
                            ungrowing(before, key, token);
                        }
                    } else {
                        self.pool.slots.set(
                            key,
                            UdpRecvPoolSlot { in_flight: false, stop_requested: false, ..slot },
                        );
                        proof {
                            assert(self.model() == before.refused(key, token));
                            refusing(before, key, token);
                        }
                    }
                }
                PoolStep::Failed {
                    failure: RioFailure { error: RioError::Datapath, code: Some(answer.error) },
                    task,
                }
            },
            _ => PoolStep::Next { task },
        }
    }
}

/// The chunks of a pool in order.
fn chunk_list() -> (l: VecDeque<u32>)
    ensures
        l@ == all_chunks(),
{
    let mut l: VecDeque<u32> = VecDeque::new();
    let mut i: u32 = 0;
    while i < UDP_RECV_POOL_SLAB_CHUNKS
        invariant
            i <= UDP_RECV_POOL_SLAB_CHUNKS,
            l@ == Seq::new(i as nat, |j: int| j as u32),
        decreases UDP_RECV_POOL_SLAB_CHUNKS - i,
    {
        l.push_back(i);
        i = i + 1;
        assert(l@ =~= Seq::new(i as nat, |j: int| j as u32));
    }
    l
}

/// Putting a chunk that nobody holds in front of the free ones keeps the pool in order.
pub(crate) proof fn returning_chunk(m: PoolModel, c: u32)
    requires
        m.wf(),
        m.slab is Some,
        m.unheld(c),
        c < UDP_RECV_POOL_SLAB_CHUNKS,
    ensures
        m.with_free(seq![c] + m.free()).wf(),
{
    let f = seq![c] + m.free();
    let a = m.with_free(f);
    assert(a.free() == f);
    assert forall|d: u32| f.contains(d) implies d == c || m.free().contains(d) by {
        let i = f.index_of(d);
        if i > 0 {
            assert(m.free()[i - 1] == d);
        }
    }
    assert forall|i: int, j: int| 0 <= i < j < f.len() implies f[i] != f[j] by {
        if i == 0 {
            assert(m.free()[j - 1] == f[j]);
            assert(m.free().contains(f[j]));
        } else {
            assert(m.free()[i - 1] == f[i] && m.free()[j - 1] == f[j]);
        }
    }
    assert forall|i: int| 0 <= i < f.len() implies (#[trigger] f[i]) < UDP_RECV_POOL_SLAB_CHUNKS by {
        if i > 0 {
            assert(m.free()[i - 1] == f[i]);
        }
    }
}

/// A new slot with a chunk that nobody holds keeps the pool in order.
proof fn adding_slot(m: PoolModel, key: SlotKey, slot: UdpRecvPoolSlot)
    requires
        m.wf(),
        m.slab is Some,
        m.unheld(slot.current_idx),
        slot.current_idx < UDP_RECV_POOL_SLAB_CHUNKS,
        m.slots.len() < UDP_RECV_POOL_MAX_CREDITS,
        m.state is Running,
        !m.slots.contains_key(key),
    ensures
        m.with_slot(key, slot).wf(),
{
    let a = m.with_slot(key, slot);
    assert(a.free() == m.free());
    assert(a.slots.dom() =~= m.slots.dom().insert(key));
    assert forall|k: SlotKey| a.slots.contains_key(k) implies k == key || m.slots.contains_key(k) by {}
}

/// Undoing a new slot keeps the pool in order.
proof fn ungrowing(m: PoolModel, key: SlotKey, token: u32)
    requires
        m.wf(),
        m.state is Running,
        m.tokens.contains_key(token),
        m.tokens[token] == key,
    ensures
        m.ungrown(key, token).wf(),
{
    let r = m.refused(key, token);
    refusing(m, key, token);
    removing_idle_slot(r, key);
    let s = PoolModel { slots: r.slots.remove(key), ..r };
    let c = m.slots[key].current_idx;
    assert(s.slots =~= m.slots.remove(key));
    assert(s.free() == m.free());
    assert(s.unheld(c)) by {
        assert(m.slots.contains_key(key));
        assert forall|k: SlotKey| #[trigger] s.slots.contains_key(k) implies s.slots[k].current_idx
            != c by {
            assert(m.slots.contains_key(k));
        }
    }
    returning_chunk(s, c);
    assert(s.with_free(seq![c] + s.free()) == m.ungrown(key, token));
}

/// The end of a request keeps the pool in order.
pub(crate) proof fn refusing(m: PoolModel, key: SlotKey, token: u32)
    requires
        m.wf(),
        m.tokens.contains_key(token),
        m.tokens[token] == key,
    ensures
        m.refused(key, token).wf(),
{
    let a = m.refused(key, token);
    assert(a.free() == m.free());
    assert(m.slots.contains_key(key));
    assert(a.slots.dom() =~= m.slots.dom());
    assert(a.tokens.dom() =~= m.tokens.dom().remove(token));
    assert forall|k: SlotKey| a.slots.contains_key(k) implies m.slots.contains_key(k) by {}
    assert forall|t: u32| #[trigger]
        a.tokens.contains_key(t) implies a.slots.contains_key(a.tokens[t])
        && a.slots[a.tokens[t]].in_flight by {
        assert(m.tokens.contains_key(t));
    }
    assert forall|t1: u32, t2: u32|
        #![trigger a.tokens.contains_key(t1), a.tokens.contains_key(t2)]
        a.tokens.contains_key(t1) && a.tokens.contains_key(t2) && t1 != t2 implies a.tokens[t1]
        != a.tokens[t2] by {
        assert(m.tokens.contains_key(t1) && m.tokens.contains_key(t2));
    }
}

/// A request from a slot keeps the pool in order.
proof fn submitting_keeps_order(m: PoolModel, key: SlotKey, token: u32)
    requires
        m.wf(),
        m.state is Running,
        m.slots.contains_key(key),
        !m.slots[key].in_flight,
        !m.tokens.contains_key(token),
    ensures
        m.submitted(key, token).wf(),
{
    let a = m.submitted(key, token);
    assert(a.free() == m.free());
    assert(a.slots.dom() =~= m.slots.dom());
    assert forall|k: SlotKey| a.slots.contains_key(k) implies m.slots.contains_key(k) by {}
}

/// Giving up a slot without a request under way keeps the pool in order.
proof fn removing_idle_slot(m: PoolModel, key: SlotKey)
    requires
        m.wf(),
        m.slots.contains_key(key),
        !m.slots[key].in_flight,
    ensures
        (PoolModel { slots: m.slots.remove(key), ..m }).wf(),
        m.slots.remove(key).len() == m.slots.len() - 1,
{
    let a = PoolModel { slots: m.slots.remove(key), ..m };
    assert(a.free() == m.free());
    assert(a.slots.dom() =~= m.slots.dom().remove(key));
    assert forall|k: SlotKey| a.slots.contains_key(k) implies m.slots.contains_key(k) by {}
}

/// Taking the first free chunk keeps the pool in order, and nobody holds the chunk.
pub(crate) proof fn dropping_first_chunk(m: PoolModel)
    requires
        m.wf(),
        m.slab is Some,
        m.free().len() > 0,
    ensures
        m.with_free(m.free().drop_first()).wf(),
        m.with_free(m.free().drop_first()).unheld(m.free()[0]),
{
    let a = m.with_free(m.free().drop_first());
    assert(a.free() == m.free().drop_first());
    assert forall|c: u32| a.free().contains(c) implies m.free().contains(c) by {
        let i = a.free().index_of(c);
        assert(m.free()[i + 1] == c);
    }
    assert(!a.free().contains(m.free()[0])) by {
        if a.free().contains(m.free()[0]) {
            let i = a.free().index_of(m.free()[0]);
            assert(m.free()[i + 1] == m.free()[0]);
        }
    }
    assert(m.free().contains(m.free()[0]));
}

} // verus!
