//! Requests of operations through registered I/O, step by step. Where the system has
//! to do something the work stops, says what is asked, and goes on with the answer.
use vstd::prelude::*;
use crate::iocp::buffer::{IocpBuffer, MemoryRange};
use crate::iocp::config::IocpHandle;
use crate::iocp::error::RioError;
use crate::iocp::net::AF_INET6;
use crate::iocp::op::{actor_key, socket_key_spec};
use crate::iocp::table::{OpTable, TableModel};
use crate::sockaddr::{SocketAddr, AF_INET};
use super::actors::{actor_map, ActorModel};
use super::contexts::{RequestContexts, RioCompletionKind};
use super::kernel::{RioBuf, RioBufferId, RioRq};
use super::keys::ActorKey;
use super::pool::{Answer, PoolModel, RioFailure, UdpPoolPacket, UdpWaiter, UdpWaiterKind};
use super::pool_steps::{
    chunk_size_for, chunk_size_ok, no_room, runs_by_itself, PoolAsk, PoolStep, PoolTask, Stage,
};
use super::registry::{Lookup, Registrand, RioRegistry, RioRqConfig, SlabPage};
use super::state::{fresh_actor, RioState};

verus! {

/// The size of a `SOCKADDR_INET`, which is what registered I/O takes for an address.
pub const SOCKADDR_INET_LEN: u32 = 28;

/// The part of a buffer that a transfer uses, from `buf_offset` on, and the memory of
/// the buffer's chunk, if anybody can tell.
#[derive(Debug, Clone, Copy, PartialEq, Eq, Structural)]
pub struct RioTransfer {
    pub buf: IocpBuffer,
    pub buf_offset: usize,
    pub chunk: Option<MemoryRange>,
}

/// What is wanted.
#[derive(Debug, Clone, Copy)]
#[allow(inconsistent_fields)]
pub enum RioRequest {
    Recv { transfer: RioTransfer },
    Send { transfer: RioTransfer },
    /// The address lies at `addr_ptr`, in page `page_idx`, whose memory is `page`.
    SendTo {
        transfer: RioTransfer,
        addr: SocketAddr,
        addr_ptr: usize,
        page_idx: usize,
        page: Option<MemoryRange>,
    },
    /// A datagram of the receive pool.
    Pool { kind: UdpWaiterKind, chunk_size: usize },
}

/// Which operation on which socket it is wanted for.
#[derive(Debug, Clone, Copy, PartialEq, Eq, Structural)]
pub struct RioTarget {
    pub handle: IocpHandle,
    pub user_data: usize,
    pub generation: u32,
}

/// What is asked of the system.
#[derive(Debug, Clone, Copy, PartialEq, Eq, Structural)]
#[allow(inconsistent_fields)]
pub enum RioAsk {
    /// Call `RIOCreateRequestQueue`.
    CreateRq { config: RioRqConfig },
    /// Hand the memory to `RIORegisterBuffer`.
    Register { range: MemoryRange },
    /// Call `RIOReceive`.
    Receive { rq: RioRq, buf: RioBuf, context: u64 },
    /// Call `RIOSend`.
    Send { rq: RioRq, buf: RioBuf, context: u64 },
    /// Call `RIOSendEx`.
    SendEx { rq: RioRq, data: RioBuf, addr: RioBuf, context: u64 },
    /// Do what a receive pool asks for.
    Pool { rq: RioRq, ask: PoolAsk },
}

/// How far a request has come.
#[derive(Debug)]
#[allow(inconsistent_fields)]
pub enum RioStage {
    /// The actor of the socket has to be found.
    FindActor,
    /// Waits for the request queue of a new actor.
    RqCreated,
    /// The actor is known.
    WithActor { actor: ActorKey, rq: RioRq },
    /// Waits for the registration of the buffer.
    DataRegistered { rq: RioRq, what: Registrand },
    /// The registration of the buffer is known.
    WithData { rq: RioRq, id: RioBufferId },
    /// Waits for the registration of the page with the address.
    PageRegistered { rq: RioRq, id: RioBufferId, index: usize, range: MemoryRange },
    /// Everything is known.
    Ready { rq: RioRq, data: RioBuf, addr: Option<RioBuf> },
    /// Waits for the answer to the request.
    Requested { context: u64 },
    /// The receive pool works on it.
    Pool { actor: ActorKey, rq: RioRq, task: PoolTask },
}

/// A request under way.
#[derive(Debug)]
pub struct RioWork {
    pub target: RioTarget,
    pub request: RioRequest,
    pub stage: RioStage,
}

/// Where a request stands.
#[derive(Debug)]
#[allow(inconsistent_fields)]
pub enum RioStep {
    /// The system is asked for something; the request goes on with `answer`.
    Ask { ask: RioAsk, work: RioWork },
    /// The request goes on with `advance`.
    Next { work: RioWork },
    /// The request is made, or the operation has its datagram already. The buffers have
    /// to be deregistered.
    Done { served: Option<UdpPoolPacket>, released: Vec<RioBufferId> },
    /// The request was given up. The buffers have to be deregistered.
    Failed { failure: RioFailure, released: Vec<RioBufferId> },
}

impl RioRequest {
    /// A transfer can start where the request says.
    pub open spec fn wf(self) -> bool {
        match self {
            RioRequest::Recv { transfer } => transfer.buf.reaches(transfer.buf_offset),
            RioRequest::Send { transfer } => transfer.buf.reaches(transfer.buf_offset),
            RioRequest::SendTo { transfer, page_idx, .. } => transfer.buf.reaches(
                transfer.buf_offset,
            ) && page_idx < usize::MAX,
            RioRequest::Pool { .. } => true,
        }
    }

    /// The transfer of a request that makes one.
    pub open spec fn transfer(self) -> RioTransfer {
        match self {
            RioRequest::Recv { transfer } => transfer,
            RioRequest::Send { transfer } => transfer,
            RioRequest::SendTo { transfer, .. } => transfer,
            RioRequest::Pool { .. } => arbitrary(),
        }
    }

    /// How many bytes are transferred: into all that is left of the buffer, or all that
    /// is filled.
    pub open spec fn length(self) -> u32 {
        match self {
            RioRequest::Recv { transfer } => transfer.buf.room_after(transfer.buf_offset),
            _ => self.transfer().buf.filled_after(self.transfer().buf_offset),
        }
    }

    /// The range of the registered buffer that is used.
    pub open spec fn data_buf(self, id: RioBufferId) -> RioBuf {
        RioBuf {
            buffer_id: id,
            offset: ((self.transfer().buf.offset as u32) + (
            self.transfer().buf_offset as u32)) as u32,
            length: self.length(),
        }
    }

    /// What is said when the function table is missing.
    pub open spec fn unsupported(self) -> RioError {
        if self is Recv || self is Send {
            RioError::NotSupported
        } else {
            RioError::Internal
        }
    }
}

/// The length of the kernel layout of an address.
pub open spec fn kernel_len(addr: SocketAddr) -> i32 {
    if addr is V4 {
        16
    } else {
        28
    }
}

/// Where an address lies in its page, if registered I/O can take it from there: the
/// family is known, the length suffices, and it lies inside the page.
pub open spec fn addr_place(
    addr_ptr: usize,
    family: u16,
    addr_len: i32,
    page: MemoryRange,
) -> Option<usize> {
    let slab_end = if page.ptr + page.len > usize::MAX {
        usize::MAX as int
    } else {
        page.ptr + page.len
    };
    let addr_end = if addr_ptr + SOCKADDR_INET_LEN > usize::MAX {
        usize::MAX as int
    } else {
        addr_ptr + SOCKADDR_INET_LEN
    };
    if addr_ptr == 0 || (family != AF_INET && family != AF_INET6) || 0 <= addr_len < (if family
        == AF_INET {
        16int
    } else {
        28int
    }) || addr_ptr < page.ptr || addr_end > slab_end {
        None
    } else {
        Some((addr_ptr - page.ptr) as usize)
    }
}

/// Checks that registered I/O can take an address from a page, and gives its length
/// there and its place.
pub fn validate_rio_addr(addr_ptr: usize, family: u16, addr_len: i32, page: MemoryRange) -> (r:
    Result<(u32, u32), RioError>)
    ensures
        match addr_place(addr_ptr, family, addr_len, page) {
            Some(place) => r == Ok::<(u32, u32), RioError>((SOCKADDR_INET_LEN, place as u32)),
            None => r == Err::<(u32, u32), RioError>(RioError::Internal),
        },
{
    if addr_ptr == 0 {
        return Err(RioError::Internal);
    }
    let min_len: i32 = if family == AF_INET {
        16
    } else if family == AF_INET6 {
        28
    } else {
        return Err(RioError::Internal);
    };
    if 0 <= addr_len && addr_len < min_len {
        return Err(RioError::Internal);
    }
    let slab_end: usize = page.ptr.saturating_add(page.len);
    let addr_end: usize = addr_ptr.saturating_add(SOCKADDR_INET_LEN as usize);
    if addr_ptr < page.ptr || addr_end > slab_end {
        return Err(RioError::Internal);
    }
    let place: usize = addr_ptr - page.ptr;
    Ok(
        (
            SOCKADDR_INET_LEN,
            #[verifier::truncate]
            (place as u32),
        ),
    )
}

impl RioWork {
    /// The same request at another stage.
    pub open spec fn at(&self, after: &RioWork, stage: RioStage) -> bool {
        after.target == self.target && after.request == self.request && after.stage == stage
    }

    /// The request can go on with registered I/O in the state `s`.
    pub open spec fn fits(&self, s: &RioState) -> bool {
        &&& self.request.wf()
        &&& match self.stage {
            RioStage::RqCreated => !s.index().contains_key(socket_key_spec(self.target.handle)),
            RioStage::WithActor { actor, .. } => s.actors_model().contains_key(actor),
            RioStage::DataRegistered { what, .. } => match what {
                Registrand::Chunk { id } => s.registry.chunk_registry@.len() > id,
                Registrand::Heap { .. } => true,
                Registrand::Page { .. } => false,
            },
            RioStage::PageRegistered { index, .. } => s.registry.slab_rio_pages@.len() > index,
            RioStage::Pool { actor, task, .. } => {
                &&& s.actors_model().contains_key(actor)
                &&& task.fits(s.actors_model()[actor].pool)
                &&& quiet(task.todo@)
            },
            _ => true,
        } && match self.stage {
            RioStage::WithActor { .. } => true,
            RioStage::Pool { .. } => self.request is Pool,
            RioStage::FindActor => true,
            RioStage::RqCreated => true,
            RioStage::Requested { .. } => true,
            _ => !(self.request is Pool),
        } && (self.stage is PageRegistered ==> self.request is SendTo) && (
        self.stage matches RioStage::Ready { addr, .. } ==> (addr is Some <==> self.request is SendTo))
    }

    /// The request waits for an answer.
    pub open spec fn waits(&self) -> bool {
        match self.stage {
            RioStage::RqCreated => true,
            RioStage::DataRegistered { .. } => true,
            RioStage::PageRegistered { .. } => true,
            RioStage::Requested { .. } => true,
            RioStage::Pool { task, .. } => task.todo@.len() > 0 && !runs_by_itself(
                task.todo@.last(),
            ),
            _ => false,
        }
    }
}

impl RioStep {
    /// The step can be taken with registered I/O in the state `s`.
    pub open spec fn fits(&self, s: &RioState) -> bool {
        match self {
            RioStep::Ask { work, .. } => work.fits(s) && work.waits(),
            RioStep::Next { work } => work.fits(s) && !work.waits(),
            _ => true,
        }
    }

    /// The step is about the same request of the same operation.
    pub open spec fn keeps(&self, work: &RioWork) -> bool {
        match self {
            RioStep::Ask { work: w, .. } => w.target == work.target && w.request == work.request,
            RioStep::Next { work: w } => w.target == work.target && w.request == work.request,
            _ => true,
        }
    }

    /// The request was given up, with nothing to deregister.
    pub open spec fn failed_with(&self, e: RioFailure) -> bool {
        self matches RioStep::Failed { failure, released } && failure == e && released@.len() == 0
    }

    /// The request goes on at another stage.
    pub open spec fn goes_on(&self, work: &RioWork, stage: RioStage) -> bool {
        self matches RioStep::Next { work: w } && work.at(&w, stage)
    }

    /// The system is asked for something, and the request goes on at another stage.
    pub open spec fn asks(&self, work: &RioWork, a: RioAsk, stage: RioStage) -> bool {
        self matches RioStep::Ask { ask, work: w } && ask == a && work.at(&w, stage)
    }
}

/// A failure without a system error.
pub open spec fn plain(error: RioError) -> RioFailure {
    RioFailure { error, code: None }
}

impl RioState {
    /// Nothing but registrations, contexts, actors and counts differs.
    pub open spec fn same_setup(&self, before: &Self) -> bool {
        &&& self.kernel == before.kernel
        &&& self.registration_mode == before.registration_mode
        &&& self.sockets == before.sockets
    }

    /// Nothing differs.
    pub open spec fn unchanged(&self, before: &Self) -> bool {
        &&& self.same_setup(before)
        &&& self.registry == before.registry
        &&& self.actors == before.actors
        &&& self.actor_by_handle == before.actor_by_handle
        &&& self.contexts == before.contexts
        &&& self.outstanding_count == before.outstanding_count
    }

    /// What looking for the actor of the socket leads to. A socket without one needs a
    /// request queue first.
    pub open spec fn actor_sought(&self, after: &Self, work: &RioWork, step: &RioStep) -> bool {
        let handle = work.target.handle;
        &&& after.unchanged(self)
        &&& if !self.kernel.dispatch {
            step.failed_with(plain(work.request.unsupported()))
        } else {
            match self.actor_of(socket_key_spec(handle)) {
                Some((actor, rq)) => step.goes_on(work, RioStage::WithActor { actor, rq }),
                None => step.asks(
                    work,
                    RioAsk::CreateRq {
                        config: RioRqConfig {
                            socket: handle.handle_spec(),
                            max_outstanding_recvs: self.registry.rq_depth,
                            max_receive_data_buffers: 1,
                            max_outstanding_sends: self.registry.rq_depth,
                            max_send_data_buffers: 1,
                            recv_cq: self.kernel.cq,
                            send_cq: self.kernel.cq,
                        },
                    },
                    RioStage::RqCreated,
                ),
            }
        }
    }

    /// What follows once the actor is known. An operation that wants a datagram turns
    /// to the receive pool. A socket that has left registered I/O is refused, but for
    /// sends to an address; the buffer's registration is looked up.
    pub open spec fn data_sought(
        &self,
        after: &Self,
        work: &RioWork,
        actor: ActorKey,
        rq: RioRq,
        now: u64,
        step: &RioStep,
    ) -> bool {
        match work.request {
            RioRequest::Pool { kind, chunk_size } => {
                let waiter = UdpWaiter {
                    user_data: work.target.user_data,
                    generation: work.target.generation,
                    kind,
                };
                let size = chunk_size_for(chunk_size);
                &&& after.same_setup(self)
                &&& after.registry == self.registry
                &&& after.contexts == self.contexts
                &&& after.outstanding_count == self.outstanding_count
                &&& after.index() == self.index()
                &&& after.actors_model() == self.actors_model()
                &&& if !(self.actors_model()[actor].pool.state is Uninitialized) {
                    &&& step matches RioStep::Next { work: w }
                    &&& w.stage matches RioStage::Pool { actor: a, rq: q, task }
                    &&& work.at(&w, w.stage) && a == actor && q == rq
                    &&& task.todo@ == seq![Stage::Serve { waiter }]
                    &&& task.untouched()
                } else if chunk_size_ok(size) {
                    &&& step matches RioStep::Ask { ask, work: w }
                    &&& ask == (RioAsk::Pool {
                        rq,
                        ask: PoolAsk::AllocateSlab {
                            len: (size * super::pool::UDP_RECV_POOL_SLAB_CHUNKS) as usize,
                        },
                    })
                    &&& w.stage matches RioStage::Pool { actor: a, rq: q, task }
                    &&& work.at(&w, w.stage) && a == actor && q == rq
                    &&& task.todo@ == seq![
                        Stage::Serve { waiter },
                        Stage::SlabAllocated { chunk_size: size },
                    ]
                    &&& task.untouched()
                } else {
                    step.failed_with(plain(RioError::Internal))
                }
            },
            _ => {
                if (work.request is Recv || work.request is Send) && self.sockets.of(
                    socket_key_spec(work.target.handle),
                ).fallback {
                    &&& after.unchanged(self)
                    &&& step.failed_with(plain(RioError::NotSupported))
                } else {
                    &&& after.same_but_registry(self)
                    &&& exists|found: Lookup| #[trigger]
                        self.registry.resolved(
                            &after.registry,
                            work.request.transfer().buf,
                            work.request.transfer().chunk,
                            now,
                            found,
                        ) && match found {
                            Lookup::Known(id) => step.goes_on(work, RioStage::WithData { rq, id }),
                            Lookup::Register { what, range } => step.asks(
                                work,
                                RioAsk::Register { range },
                                RioStage::DataRegistered { rq, what },
                            ),
                            Lookup::Failed(e) => step.failed_with(plain(e)),
                        }
                }
            },
        }
    }

    /// What follows once the buffer's registration is known. A send to an address needs
    /// the registration of the page with the address, and a valid place there.
    pub open spec fn address_sought(
        &self,
        after: &Self,
        work: &RioWork,
        rq: RioRq,
        id: RioBufferId,
        step: &RioStep,
    ) -> bool {
        let data = work.request.data_buf(id);
        match work.request {
            RioRequest::SendTo { addr, addr_ptr, page_idx, page, .. } => {
                &&& after.same_but_registry(self)
                &&& after.registry.same_but_pages(&self.registry)
                &&& forall|k: int| after.registry.page(k) == self.registry.page(k)
                &&& match (self.registry.page(page_idx as int), page) {
                    (Some(p), _) => match addr_place(
                        addr_ptr,
                        if addr is V4 {
                            AF_INET
                        } else {
                            AF_INET6
                        },
                        kernel_len(addr),
                        p.range,
                    ) {
                        Some(place) => step.goes_on(
                            work,
                            RioStage::Ready {
                                rq,
                                data,
                                addr: Some(
                                    RioBuf {
                                        buffer_id: p.id,
                                        offset: place as u32,
                                        length: SOCKADDR_INET_LEN,
                                    },
                                ),
                            },
                        ),
                        None => step.failed_with(plain(RioError::Internal)),
                    },
                    (None, Some(range)) => step.asks(
                        work,
                        RioAsk::Register { range },
                        RioStage::PageRegistered { rq, id, index: page_idx, range },
                    ),
                    (None, None) => step.failed_with(plain(RioError::Internal)),
                }
            },
            _ => {
                &&& after.unchanged(self)
                &&& step.goes_on(work, RioStage::Ready { rq, data, addr: None })
            },
        }
    }

    /// What follows once everything is known: the request is made under a fresh
    /// context.
    pub open spec fn requested(
        &self,
        after: &Self,
        work: &RioWork,
        rq: RioRq,
        data: RioBuf,
        addr: Option<RioBuf>,
        step: &RioStep,
    ) -> bool {
        if !self.contexts.has_room() {
            &&& after.unchanged(self)
            &&& step.failed_with(no_room())
        } else {
            &&& after.same_setup(self)
            &&& after.registry == self.registry
            &&& after.actors == self.actors
            &&& after.actor_by_handle == self.actor_by_handle
            &&& after.outstanding_count == self.outstanding_count
            &&& step matches RioStep::Ask { ask, work: w }
            &&& w.stage matches RioStage::Requested { context }
            &&& work.at(&w, w.stage)
            &&& self.contexts.opened(
                &after.contexts,
                context,
                RioCompletionKind::Op {
                    user_data: work.target.user_data,
                    generation: work.target.generation,
                },
            )
            &&& ask == (match addr {
                Some(addr) => RioAsk::SendEx { rq, data, addr, context },
                None => if work.request is Recv {
                    RioAsk::Receive { rq, buf: data, context }
                } else {
                    RioAsk::Send { rq, buf: data, context }
                },
            })
        }
    }
}

/// No operation but the one that asked is concerned by the work.
pub open spec fn quiet(todo: Seq<Stage>) -> bool {
    forall|i: int| 0 <= i < todo.len() ==> !(#[trigger] todo[i] is Dispatch)
}

/// The task of a step is quiet.
pub open spec fn quiet_step(step: PoolStep) -> bool {
    match step {
        PoolStep::Ask { task, .. } => quiet(task.todo@),
        PoolStep::Next { task } => quiet(task.todo@),
        _ => true,
    }
}

/// Quiet work leaves the operations alone and stays quiet.
proof fn quiet_work_stays_quiet<P>(
    pool: PoolModel,
    after: PoolModel,
    before_table: TableModel<P>,
    after_table: TableModel<P>,
    before_contexts: &RequestContexts,
    after_contexts: &RequestContexts,
    actor: ActorKey,
    task: &PoolTask,
    step: PoolStep,
)
    requires
        quiet(task.todo@),
        pool.advanced(
            after,
            before_table,
            after_table,
            before_contexts,
            after_contexts,
            actor,
            task,
            step,
        ),
    ensures
        after_table == before_table,
        quiet_step(step),
{
    if task.todo@.len() > 0 {
        assert(quiet(task.rest()));
        assert(!(task.todo@[task.todo@.len() - 1] is Dispatch));
    }
}

/// An answer to quiet work leads to quiet work.
proof fn answered_work_stays_quiet(
    pool: PoolModel,
    after: PoolModel,
    before_contexts: &RequestContexts,
    after_contexts: &RequestContexts,
    actor: ActorKey,
    task: &PoolTask,
    answer: Answer,
    step: PoolStep,
)
    requires
        task.todo@.len() > 0,
        quiet(task.todo@),
        pool.answered(after, before_contexts, after_contexts, actor, task, answer, step),
    ensures
        quiet_step(step),
{
    assert(quiet(task.rest()));
}

impl RioState {
    /// Looks for the actor of the socket.
    fn find_actor_step(&mut self, work: RioWork) -> (step: RioStep)
        requires
            old(self).wf(),
            work.fits(old(self)),
            work.stage is FindActor,
        ensures
            final(self).wf(),
            step.fits(final(self)),
            old(self).actor_sought(final(self), &work, &step),
    {
        if !self.kernel.dispatch {
            let error = match work.request {
                RioRequest::Recv { .. } => RioError::NotSupported,
                RioRequest::Send { .. } => RioError::NotSupported,
                _ => RioError::Internal,
            };
            return RioStep::Failed {
                failure: RioFailure { error, code: None },
                released: Vec::new(),
            };
        }
        match self.find_actor(actor_key(work.target.handle)) {
            Some((actor, rq)) => {
                assert(actor_map(self.actors).contains_key(actor));
                RioStep::Next {
                    work: RioWork {
                        target: work.target,
                        request: work.request,
                        stage: RioStage::WithActor { actor, rq },
                    },
                }
            },
            None => {
                let config = self.registry.create_rq(
                    work.target.handle.as_socket(),
                    self.kernel.cq,
                );
                RioStep::Ask {
                    ask: RioAsk::CreateRq { config },
                    work: RioWork {
                        target: work.target,
                        request: work.request,
                        stage: RioStage::RqCreated,
                    },
                }
            },
        }
    }

    /// Looks the buffer's registration up, or turns to the receive pool.
    fn find_data_step(&mut self, work: RioWork, actor: ActorKey, rq: RioRq, now: u64) -> (step:
        RioStep)
        requires
            old(self).wf(),
            work.fits(old(self)),
            work.stage == (RioStage::WithActor { actor, rq }),
        ensures
            final(self).wf(),
            step.fits(final(self)),
            old(self).data_sought(final(self), &work, actor, rq, now, &step),
    {
        let transfer = match work.request {
            RioRequest::Recv { transfer } => transfer,
            RioRequest::Send { transfer } => transfer,
            RioRequest::SendTo { transfer, .. } => transfer,
            RioRequest::Pool { kind, chunk_size } => {
                let waiter = UdpWaiter {
                    user_data: work.target.user_data,
                    generation: work.target.generation,
                    kind,
                };
                return self.begin_pool(work, actor, rq, waiter, chunk_size);
            },
        };
        let may_leave: bool = match work.request {
            RioRequest::Recv { .. } => true,
            RioRequest::Send { .. } => true,
            _ => false,
        };
        if may_leave && self.sockets.is_iocp_fallback(actor_key(work.target.handle)) {
            return RioStep::Failed {
                failure: RioFailure { error: RioError::NotSupported, code: None },
                released: Vec::new(),
            };
        }
        let found = self.registry.resolve_buffer_id(&transfer.buf, transfer.chunk, now);
        assert(old(self).registry.resolved(
            &self.registry,
            work.request.transfer().buf,
            work.request.transfer().chunk,
            now,
            found,
        ));
        match found {
            Lookup::Known(id) => RioStep::Next {
                work: RioWork {
                    target: work.target,
                    request: work.request,
                    stage: RioStage::WithData { rq, id },
                },
            },
            Lookup::Register { what, range } => RioStep::Ask {
                ask: RioAsk::Register { range },
                work: RioWork {
                    target: work.target,
                    request: work.request,
                    stage: RioStage::DataRegistered { rq, what },
                },
            },
            Lookup::Failed(error) => RioStep::Failed {
                failure: RioFailure { error, code: None },
                released: Vec::new(),
            },
        }
    }

    /// Turns to the receive pool.
    fn begin_pool(
        &mut self,
        work: RioWork,
        actor: ActorKey,
        rq: RioRq,
        waiter: UdpWaiter,
        chunk_size: usize,
    ) -> (step: RioStep)
        requires
            old(self).wf(),
            work.fits(old(self)),
            work.stage == (RioStage::WithActor { actor, rq }),
            work.request == (RioRequest::Pool { kind: waiter.kind, chunk_size }),
            waiter.user_data == work.target.user_data,
            waiter.generation == work.target.generation,
        ensures
            final(self).wf(),
            step.fits(final(self)),
            old(self).data_sought(final(self), &work, actor, rq, 0, &step),
    {
        let ghost before = self.actors_model();
        let ghost all = actor_map(self.actors);
        assert(all.contains_key(actor));
        match self.actors.get_mut(actor) {
            Some(a) => {
                let pool_step = a.pool_manager.try_submit_recv(waiter, chunk_size);
                proof {
                    let now = actor_map(self.actors)[actor];
                    assert(now.model() == before[actor]);
                    assert(self.actors_model() =~= before);
                    self.index_survives(*old(self), actor);
                }
                match pool_step {
                    PoolStep::Ask { ask, task } => RioStep::Ask {
                        ask: RioAsk::Pool { rq, ask },
                        work: RioWork {
                            target: work.target,
                            request: work.request,
                            stage: RioStage::Pool { actor, rq, task },
                        },
                    },
                    PoolStep::Next { task } => RioStep::Next {
                        work: RioWork {
                            target: work.target,
                            request: work.request,
                            stage: RioStage::Pool { actor, rq, task },
                        },
                    },
                    _ => RioStep::Failed {
                        failure: RioFailure { error: RioError::Internal, code: None },
                        released: Vec::new(),
                    },
                }
            },
            None => RioStep::Failed {
                failure: RioFailure { error: RioError::Internal, code: None },
                released: Vec::new(),
            },
        }
    }

    /// Looks the registration of the page with the address up, where one is needed.
    fn find_address_step(&mut self, work: RioWork, rq: RioRq, id: RioBufferId) -> (step: RioStep)
        requires
            old(self).wf(),
            work.fits(old(self)),
            work.stage == (RioStage::WithData { rq, id }),
        ensures
            final(self).wf(),
            step.fits(final(self)),
            old(self).address_sought(final(self), &work, rq, id, &step),
    {
        match work.request {
            RioRequest::SendTo { transfer, addr, addr_ptr, page_idx, page } => {
                let data = RioRegistry::prepare_submission(
                    id,
                    &transfer.buf,
                    transfer.buf_offset,
                    transfer.buf.remaining_len(transfer.buf_offset),
                );
                let found = self.registry.ensure_page_reg(page_idx, page);
                match found {
                    Lookup::Known(_) => {
                        assert(self.registry.page(page_idx as int) == old(self).registry.page(
                            page_idx as int,
                        ));
                        let p = self.registry.slab_rio_pages[page_idx];
                        let (family, len): (u16, i32) = match addr {
                            SocketAddr::V4(_) => (AF_INET, 16),
                            SocketAddr::V6(_) => (AF_INET6, 28),
                        };
                        match p {
                            Some(p) => match validate_rio_addr(addr_ptr, family, len, p.range) {
                                Ok((length, offset)) => RioStep::Next {
                                    work: RioWork {
                                        target: work.target,
                                        request: work.request,
                                        stage: RioStage::Ready {
                                            rq,
                                            data,
                                            addr: Some(
                                                RioBuf { buffer_id: p.id, offset, length },
                                            ),
                                        },
                                    },
                                },
                                Err(error) => RioStep::Failed {
                                    failure: RioFailure { error, code: None },
                                    released: Vec::new(),
                                },
                            },
                            None => RioStep::Failed {
                                failure: RioFailure { error: RioError::Internal, code: None },
                                released: Vec::new(),
                            },
                        }
                    },
                    Lookup::Register { range, .. } => RioStep::Ask {
                        ask: RioAsk::Register { range },
                        work: RioWork {
                            target: work.target,
                            request: work.request,
                            stage: RioStage::PageRegistered { rq, id, index: page_idx, range },
                        },
                    },
                    Lookup::Failed(error) => RioStep::Failed {
                        failure: RioFailure { error, code: None },
                        released: Vec::new(),
                    },
                }
            },
            RioRequest::Recv { transfer } => {
                let data = RioRegistry::prepare_submission(
                    id,
                    &transfer.buf,
                    transfer.buf_offset,
                    transfer.buf.remaining_capacity(transfer.buf_offset),
                );
                RioStep::Next {
                    work: RioWork {
                        target: work.target,
                        request: work.request,
                        stage: RioStage::Ready { rq, data, addr: None },
                    },
                }
            },
            RioRequest::Send { transfer } => {
                let data = RioRegistry::prepare_submission(
                    id,
                    &transfer.buf,
                    transfer.buf_offset,
                    transfer.buf.remaining_len(transfer.buf_offset),
                );
                RioStep::Next {
                    work: RioWork {
                        target: work.target,
                        request: work.request,
                        stage: RioStage::Ready { rq, data, addr: None },
                    },
                }
            },
            RioRequest::Pool { .. } => RioStep::Next { work },
        }
    }

    /// Makes the request.
    fn request_step(&mut self, work: RioWork, rq: RioRq, data: RioBuf, addr: Option<RioBuf>) -> (step:
        RioStep)
        requires
            old(self).wf(),
            work.fits(old(self)),
            work.stage == (RioStage::Ready { rq, data, addr }),
        ensures
            final(self).wf(),
            step.fits(final(self)),
            old(self).requested(final(self), &work, rq, data, addr, &step),
    {
        if !self.contexts.can_open() {
            return RioStep::Failed {
                failure: RioFailure { error: RioError::ResourceExhaustion, code: None },
                released: Vec::new(),
            };
        }
        let context = self.contexts.encode_req_ctx(work.target.user_data, work.target.generation);
        let ask = match addr {
            Some(addr) => RioAsk::SendEx { rq, data, addr, context },
            None => match work.request {
                RioRequest::Recv { .. } => RioAsk::Receive { rq, buf: data, context },
                _ => RioAsk::Send { rq, buf: data, context },
            },
        };
        RioStep::Ask {
            ask,
            work: RioWork {
                target: work.target,
                request: work.request,
                stage: RioStage::Requested { context },
            },
        }
    }
}

/// Where a request stands after a step of the receive pool. When the pool is done, the
/// requests that it made are outstanding.
pub open spec fn pool_came_to(
    before: &RioState,
    after: &RioState,
    work: &RioWork,
    actor: ActorKey,
    rq: RioRq,
    pool_step: PoolStep,
    step: &RioStep,
) -> bool {
    match pool_step {
        PoolStep::Ask { ask, task } => {
            &&& after.outstanding_count == before.outstanding_count
            &&& step.asks(work, RioAsk::Pool { rq, ask }, RioStage::Pool { actor, rq, task })
        },
        PoolStep::Next { task } => {
            &&& after.outstanding_count == before.outstanding_count
            &&& step.goes_on(work, RioStage::Pool { actor, rq, task })
        },
        PoolStep::Done { task } => {
            &&& after.outstanding_count == before.outstanding_count + task.submissions
            &&& *step == (RioStep::Done { served: task.served, released: task.released })
        },
        PoolStep::Failed { failure, task } => {
            &&& after.outstanding_count == before.outstanding_count
            &&& *step == (RioStep::Failed {
                failure: RioFailure { error: RioError::Internal, code: failure.code },
                released: task.released,
            })
        },
    }
}

impl RioState {
    /// What a step of the receive pool that needs no answer leads to.
    pub open spec fn pool_advanced<P>(
        &self,
        after: &Self,
        before_table: TableModel<P>,
        after_table: TableModel<P>,
        work: &RioWork,
        actor: ActorKey,
        rq: RioRq,
        task: PoolTask,
        step: &RioStep,
    ) -> bool {
        &&& after.same_setup(self)
        &&& after.registry == self.registry
        &&& after.index() == self.index()
        &&& after.actors_model().contains_key(actor)
        &&& after.actors_model() == self.actors_model().insert(
            actor,
            ActorModel {
                pool: after.actors_model()[actor].pool,
                ..self.actors_model()[actor]
            },
        )
        &&& exists|pool_step: PoolStep| #[trigger]
            self.actors_model()[actor].pool.advanced(
                after.actors_model()[actor].pool,
                before_table,
                after_table,
                &self.contexts,
                &after.contexts,
                actor,
                &task,
                pool_step,
            ) && pool_came_to(self, after, work, actor, rq, pool_step, step)
    }

    /// What an answer to the receive pool leads to.
    pub open spec fn pool_answered(
        &self,
        after: &Self,
        work: &RioWork,
        actor: ActorKey,
        rq: RioRq,
        task: PoolTask,
        answer: Answer,
        step: &RioStep,
    ) -> bool {
        &&& after.same_setup(self)
        &&& after.registry == self.registry
        &&& after.index() == self.index()
        &&& after.actors_model().contains_key(actor)
        &&& after.actors_model() == self.actors_model().insert(
            actor,
            ActorModel {
                pool: after.actors_model()[actor].pool,
                ..self.actors_model()[actor]
            },
        )
        &&& exists|pool_step: PoolStep| #[trigger]
            self.actors_model()[actor].pool.answered(
                after.actors_model()[actor].pool,
                &self.contexts,
                &after.contexts,
                actor,
                &task,
                answer,
                pool_step,
            ) && pool_came_to(self, after, work, actor, rq, pool_step, step)
    }

    /// What a piece of work that needs no answer leads to.
    pub open spec fn advanced<P>(
        &self,
        after: &Self,
        before_table: TableModel<P>,
        after_table: TableModel<P>,
        work: &RioWork,
        now: u64,
        step: &RioStep,
    ) -> bool {
        match work.stage {
            RioStage::FindActor => {
                &&& after_table == before_table
                &&& self.actor_sought(after, work, step)
            },
            RioStage::WithActor { actor, rq } => {
                &&& after_table == before_table
                &&& self.data_sought(after, work, actor, rq, now, step)
            },
            RioStage::WithData { rq, id } => {
                &&& after_table == before_table
                &&& self.address_sought(after, work, rq, id, step)
            },
            RioStage::Ready { rq, data, addr } => {
                &&& after_table == before_table
                &&& self.requested(after, work, rq, data, addr, step)
            },
            RioStage::Pool { actor, rq, task } => self.pool_advanced(
                after,
                before_table,
                after_table,
                work,
                actor,
                rq,
                task,
                step,
            ),
            _ => false,
        }
    }

    /// What an answer leads to.
    pub open spec fn answered(
        &self,
        after: &Self,
        work: &RioWork,
        answer: Answer,
        now: u64,
        step: &RioStep,
    ) -> bool {
        match work.stage {
            RioStage::RqCreated => {
                let handle = socket_key_spec(work.target.handle);
                &&& after.same_but_actors(self)
                &&& if answer.value == 0 {
                    &&& after.actors == self.actors
                    &&& after.index() == self.index()
                    &&& step.failed_with(
                        RioFailure { error: RioError::RqCreation, code: Some(answer.error) },
                    )
                } else if actor_map(self.actors).len() >= 0xffff_fffe {
                    &&& after.actors == self.actors
                    &&& after.index() == self.index()
                    &&& step.failed_with(plain(RioError::ResourceExhaustion))
                } else {
                    &&& step matches RioStep::Next { work: w }
                    &&& w.stage matches RioStage::WithActor { actor, rq }
                    &&& work.at(&w, w.stage)
                    &&& rq == (RioRq { id: answer.value })
                    &&& !self.actors_model().contains_key(actor)
                    &&& after.index() == self.index().insert(handle, actor)
                    &&& after.actors_model().contains_key(actor)
                    &&& fresh_actor(after.actors_model()[actor], handle, rq)
                    &&& after.actors_model() == self.actors_model().insert(
                        actor,
                        after.actors_model()[actor],
                    )
                }
            },
            RioStage::DataRegistered { rq, what } => {
                &&& after.same_but_registry(self)
                &&& self.registry.registration_noted(&after.registry, what, answer, now)
                &&& if answer.value == 0 {
                    step.failed_with(
                        RioFailure {
                            error: RioError::BufferRegistration,
                            code: Some(answer.error),
                        },
                    )
                } else {
                    step.goes_on(
                        work,
                        RioStage::WithData { rq, id: RioBufferId { id: answer.value } },
                    )
                }
            },
            RioStage::PageRegistered { rq, id, index, range } => {
                &&& after.same_but_registry(self)
                &&& after.registry.same_but_pages(&self.registry)
                &&& if answer.value == 0 {
                    &&& after.registry.slab_rio_pages@ == self.registry.slab_rio_pages@
                    &&& step.failed_with(
                        RioFailure {
                            error: RioError::BufferRegistration,
                            code: Some(answer.error),
                        },
                    )
                } else {
                    &&& after.registry.slab_rio_pages@ == self.registry.slab_rio_pages@.update(
                        index as int,
                        Some(SlabPage { id: RioBufferId { id: answer.value }, range }),
                    )
                    &&& step.goes_on(work, RioStage::WithData { rq, id })
                }
            },
            RioStage::Requested { context } => {
                &&& after.same_setup(self)
                &&& after.registry == self.registry
                &&& after.actors == self.actors
                &&& after.actor_by_handle == self.actor_by_handle
                &&& if answer.value != 0 {
                    &&& after.contexts == self.contexts
                    &&& after.outstanding_count == self.outstanding_count + 1
                    &&& step matches RioStep::Done { served, released }
                    &&& served is None
                    &&& released@.len() == 0
                } else {
                    &&& after.outstanding_count == self.outstanding_count
                    &&& context % 2 == 0 ==> self.contexts.closed(&after.contexts, context)
                    &&& context % 2 != 0 ==> after.contexts == self.contexts
                    &&& step.failed_with(
                        RioFailure { error: RioError::Datapath, code: Some(answer.error) },
                    )
                }
            },
            RioStage::Pool { actor, rq, task } => self.pool_answered(
                after,
                work,
                actor,
                rq,
                task,
                answer,
                step,
            ),
            _ => false,
        }
    }

    fn take_pool_step(
        &mut self,
        target: RioTarget,
        request: RioRequest,
        actor: ActorKey,
        rq: RioRq,
        pool_step: PoolStep,
    ) -> (step: RioStep)
        requires
            old(self).wf(),
            request is Pool,
            old(self).actors_model().contains_key(actor),
            pool_step.fits(old(self).actors_model()[actor].pool),
            quiet_step(pool_step),
            pool_step matches PoolStep::Done { task } ==> old(self).outstanding_count
                + task.submissions <= usize::MAX,
        ensures
            final(self).wf(),
            step.fits(final(self)),
            final(self).same_but_counts(old(self)),
            forall|work: &RioWork|
                work.target == target && work.request == request ==> #[trigger] pool_came_to(
                    old(self),
                    final(self),
                    work,
                    actor,
                    rq,
                    pool_step,
                    &step,
                ),
    {
        match pool_step {
            PoolStep::Ask { ask, task } => RioStep::Ask {
                ask: RioAsk::Pool { rq, ask },
                work: RioWork { target, request, stage: RioStage::Pool { actor, rq, task } },
            },
            PoolStep::Next { task } => RioStep::Next {
                work: RioWork { target, request, stage: RioStage::Pool { actor, rq, task } },
            },
            PoolStep::Done { task } => {
                self.outstanding_count = self.outstanding_count + task.submissions;
                RioStep::Done { served: task.served, released: task.released }
            },
            PoolStep::Failed { failure, task } => RioStep::Failed {
                failure: RioFailure { error: RioError::Internal, code: failure.code },
                released: task.released,
            },
        }
    }

    /// Goes on with the next piece of work.
    pub fn advance<P>(&mut self, work: RioWork, table: &mut OpTable<P>, now: u64) -> (step: RioStep)
        requires
            old(self).wf(),
            old(table).wf(),
            work.fits(old(self)),
            !work.waits(),
            work.stage matches RioStage::Pool { task, .. } ==> old(self).outstanding_count
                + task.submissions <= usize::MAX,
        ensures
            final(self).wf(),
            final(table).wf(),
            final(table).model() == old(table).model(),
            step.fits(final(self)),
            step.keeps(&work),
            old(self).advanced(
                final(self),
                old(table).model(),
                final(table).model(),
                &work,
                now,
                &step,
            ),
    {
        let target = work.target;
        let request = work.request;
        match work.stage {
            RioStage::FindActor => self.find_actor_step(
                RioWork { target, request, stage: RioStage::FindActor },
            ),
            RioStage::WithActor { actor, rq } => self.find_data_step(
                RioWork { target, request, stage: RioStage::WithActor { actor, rq } },
                actor,
                rq,
                now,
            ),
            RioStage::WithData { rq, id } => self.find_address_step(
                RioWork { target, request, stage: RioStage::WithData { rq, id } },
                rq,
                id,
            ),
            RioStage::Ready { rq, data, addr } => self.request_step(
                RioWork { target, request, stage: RioStage::Ready { rq, data, addr } },
                rq,
                data,
                addr,
            ),
            RioStage::Pool { actor, rq, task } => {
                let pool_step = self.pool_advance(actor, task, table);
                let ghost mid = *self;
                proof {
                    quiet_work_stays_quiet(
                        old(self).actors_model()[actor].pool,
                        self.actors_model()[actor].pool,
                        old(table).model(),
                        table.model(),
                        &old(self).contexts,
                        &self.contexts,
                        actor,
                        &task,
                        pool_step,
                    );
                    assert(pool_step matches PoolStep::Done { task: t } ==> t.submissions
                        == task.submissions);
                }
                let step = self.take_pool_step(target, request, actor, rq, pool_step);
                proof {
                    assert(pool_came_to(&mid, self, &work, actor, rq, pool_step, &step));
                    assert(pool_came_to(old(self), self, &work, actor, rq, pool_step, &step));
                    assert(old(self).actors_model()[actor].pool.advanced(
                        self.actors_model()[actor].pool,
                        old(table).model(),
                        table.model(),
                        &old(self).contexts,
                        &self.contexts,
                        actor,
                        &task,
                        pool_step,
                    ));
                }
                step
            },
            stage => RioStep::Next { work: RioWork { target, request, stage } },
        }
    }

    /// Goes on with the system's answer.
    pub fn answer(&mut self, work: RioWork, answer: Answer, now: u64) -> (step: RioStep)
        requires
            old(self).wf(),
            work.fits(old(self)),
            work.waits(),
            old(self).outstanding_count < usize::MAX,
            work.stage matches RioStage::Pool { task, .. } ==> task.submissions < usize::MAX,
        ensures
            final(self).wf(),
            step.fits(final(self)),
            step.keeps(&work),
            old(self).answered(final(self), &work, answer, now, &step),
    {
        let target = work.target;
        let request = work.request;
        match work.stage {
            RioStage::RqCreated => match self.insert_actor(actor_key(target.handle), answer) {
                Ok((actor, rq)) => RioStep::Next {
                    work: RioWork { target, request, stage: RioStage::WithActor { actor, rq } },
                },
                Err(failure) => RioStep::Failed { failure, released: Vec::new() },
            },
            RioStage::DataRegistered { rq, what } => {
                let noted = match what {
                    Registrand::Chunk { id } => self.registry.finish_register_chunk(
                        id,
                        answer.value,
                        now,
                    ),
                    Registrand::Heap { key } => self.registry.finish_register_heap(
                        key,
                        answer.value,
                        now,
                    ),
                    Registrand::Page { .. } => Err(RioError::Internal),
                };
                match noted {
                    Ok(id) => RioStep::Next {
                        work: RioWork { target, request, stage: RioStage::WithData { rq, id } },
                    },
                    Err(error) => RioStep::Failed {
                        failure: RioFailure { error, code: Some(answer.error) },
                        released: Vec::new(),
                    },
                }
            },
            RioStage::PageRegistered { rq, id, index, range } => {
                match self.registry.finish_register_page(index, range, answer.value) {
                    Ok(_) => RioStep::Next {
                        work: RioWork { target, request, stage: RioStage::WithData { rq, id } },
                    },
                    Err(error) => RioStep::Failed {
                        failure: RioFailure { error, code: Some(answer.error) },
                        released: Vec::new(),
                    },
                }
            },
            RioStage::Requested { context } => {
                if answer.value != 0 {
                    self.outstanding_count = self.outstanding_count + 1;
                    return RioStep::Done { served: None, released: Vec::new() };
                }
                self.contexts.free_op_req_ctx(context);
                RioStep::Failed {
                    failure: RioFailure { error: RioError::Datapath, code: Some(answer.error) },
                    released: Vec::new(),
                }
            },
            RioStage::Pool { actor, rq, task } => {
                let pool_step = self.pool_answer(actor, task, answer);
                let ghost mid = *self;
                proof {
                    answered_work_stays_quiet(
                        old(self).actors_model()[actor].pool,
                        self.actors_model()[actor].pool,
                        &old(self).contexts,
                        &self.contexts,
                        actor,
                        &task,
                        answer,
                        pool_step,
                    );
                }
                let step = self.take_pool_step(target, request, actor, rq, pool_step);
                proof {
                    assert(pool_came_to(&mid, self, &work, actor, rq, pool_step, &step));
                    assert(pool_came_to(old(self), self, &work, actor, rq, pool_step, &step));
                    assert(old(self).actors_model()[actor].pool.answered(
                        self.actors_model()[actor].pool,
                        &old(self).contexts,
                        &self.contexts,
                        actor,
                        &task,
                        answer,
                        pool_step,
                    ));
                }
                step
            },
            stage => RioStep::Next { work: RioWork { target, request, stage } },
        }
    }
}

} // verus!
