//! What holds of transfers through registered I/O.
use vstd::prelude::*;
use crate::iocp::buffer::MemoryRange;
use crate::iocp::config::IocpHandle;
use crate::iocp::driver::IocpDriver;
use crate::iocp::op::IocpOp;
use crate::iocp::submit::{OpStep, SubmitHead, SubmitStage};
use crate::iocp::submit_laws::{is_number, reaches_up_to};
use crate::iocp::table::TableModel;
use crate::slots::SlotState;
use crate::uring::op::PoolKind;
use super::contexts::RioCompletionKind;
use super::kernel::{RioBuf, RioBufferId, RioResult, RioRq};
use super::pool::Answer;
use super::registry::{Lookup, Registrand, RioRegistry, SlabPage};
use super::state::RioState;
use super::submit::{RioAsk, RioRequest, RioStage, RioStep, RioTransfer, RioWork};

verus! {

/// A request stays what it is while it goes on by itself: it is about the same operation
/// and wants the same.
pub proof fn requests_stay_the_same<P>(
    before: RioState,
    after: RioState,
    before_table: TableModel<P>,
    after_table: TableModel<P>,
    work: RioWork,
    now: u64,
    step: RioStep,
)
    requires
        before.advanced(&after, before_table, after_table, &work, now, &step),
    ensures
        step matches RioStep::Ask { work: w, .. } ==> w.target == work.target && w.request
            == work.request,
        step matches RioStep::Next { work: w } ==> w.target == work.target && w.request
            == work.request,
        after.sockets == before.sockets,
{
}

/// A request stays what it is when the system answers.
pub proof fn answered_requests_stay_the_same(
    before: RioState,
    after: RioState,
    work: RioWork,
    answer: Answer,
    now: u64,
    step: RioStep,
)
    requires
        before.answered(&after, &work, answer, now, &step),
    ensures
        step matches RioStep::Ask { work: w, .. } ==> w.target == work.target && w.request
            == work.request,
        step matches RioStep::Next { work: w } ==> w.target == work.target && w.request
            == work.request,
{
}

/// The range that is sent starts at the offset and ends where the filled part of the buffer
/// ends; nothing is sent when the offset lies beyond that. A place in the region is a
/// 32-bit number.
pub open spec fn covers_the_filled_part(t: RioTransfer, data: RioBuf) -> bool {
    &&& t.buf.offset + t.buf_offset <= u32::MAX ==> data.offset == t.buf.offset + t.buf_offset
    &&& t.buf_offset > t.buf.len ==> data.length == 0
    &&& t.buf_offset <= t.buf.len && t.buf.len - t.buf_offset <= u32::MAX ==> data.length
        == t.buf.len - t.buf_offset
}

/// The range that is received into starts at the offset and ends where the buffer ends.
pub open spec fn covers_the_room(t: RioTransfer, data: RioBuf) -> bool {
    &&& t.buf.offset + t.buf_offset <= u32::MAX ==> data.offset == t.buf.offset + t.buf_offset
    &&& t.buf_offset > t.buf.capacity ==> data.length == 0
    &&& t.buf_offset <= t.buf.capacity && t.buf.capacity - t.buf_offset <= u32::MAX ==> data.length
        == t.buf.capacity - t.buf_offset
}

/// Once the registration of its buffer is known, a send covers exactly what is filled of
/// the buffer from the offset on, and a receive what there is room for, both inside that
/// registration. An address is sent with a send to an address alone, from where it lies in
/// its registered page, in full.
pub proof fn ranges_cover_what_is_transferred<P>(
    before: RioState,
    after: RioState,
    before_table: TableModel<P>,
    after_table: TableModel<P>,
    work: RioWork,
    rq: RioRq,
    id: RioBufferId,
    now: u64,
    step: RioStep,
)
    requires
        work.stage == (RioStage::WithData { rq, id }),
        !(work.request is Pool),
        before.advanced(&after, before_table, after_table, &work, now, &step),
    ensures
        work.request is Send || work.request is Recv ==> (step matches RioStep::Next { work: w }
            && w.stage is Ready),
        step matches RioStep::Next { work: w } ==> {
            &&& w.stage matches RioStage::Ready { rq: q, data, addr }
            &&& q == rq
            &&& data.buffer_id == id
            &&& addr is Some <==> work.request is SendTo
            &&& work.request matches RioRequest::Send { transfer } ==> covers_the_filled_part(
                transfer,
                data,
            )
            &&& work.request matches RioRequest::Recv { transfer } ==> covers_the_room(
                transfer,
                data,
            )
            &&& work.request matches RioRequest::SendTo { transfer, addr_ptr, page_idx, .. } ==> {
                &&& covers_the_filled_part(transfer, data)
                &&& before.registry.slab_rio_pages@[page_idx as int] matches Some(p)
                &&& addr matches Some(place)
                &&& place.buffer_id == p.id && place.length == 28
                &&& p.range.ptr <= addr_ptr
                &&& p.range.ptr + p.range.len < usize::MAX ==> addr_ptr + 28 <= p.range.ptr
                    + p.range.len
                &&& addr_ptr - p.range.ptr <= u32::MAX ==> p.range.ptr + place.offset == addr_ptr
            }
        },
        step matches RioStep::Ask { ask, .. } ==> work.request is SendTo && ask is Register,
{
}

/// What is sent never goes past the filled part of the buffer, wherever the buffer lies in
/// its region.
pub proof fn nothing_is_sent_past_the_filled_part<P>(
    before: RioState,
    after: RioState,
    before_table: TableModel<P>,
    after_table: TableModel<P>,
    work: RioWork,
    transfer: RioTransfer,
    rq: RioRq,
    id: RioBufferId,
    now: u64,
    next: RioWork,
    data: RioBuf,
    addr: Option<RioBuf>,
)
    requires
        work.stage == (RioStage::WithData { rq, id }),
        work.request is Send || work.request is SendTo,
        work.request.transfer() == transfer,
        before.advanced(
            &after,
            before_table,
            after_table,
            &work,
            now,
            &RioStep::Next { work: next },
        ),
        next.stage == (RioStage::Ready { rq, data, addr }),
        transfer.buf.offset + transfer.buf.len <= u32::MAX,
        transfer.buf_offset <= transfer.buf.len,
    ensures
        data.offset == transfer.buf.offset + transfer.buf_offset,
        data.offset + data.length == transfer.buf.offset + transfer.buf.len,
{
    ranges_cover_what_is_transferred(
        before,
        after,
        before_table,
        after_table,
        work,
        rq,
        id,
        now,
        RioStep::Next { work: next },
    );
}

/// Requests follow the direction of what is wanted: receives are asked for by receives
/// alone, sends by sends, and sends to an address with the address. They go to the request
/// queue of the socket, and their context leads back to the operation.
pub proof fn requests_follow_the_direction<P>(
    before: RioState,
    after: RioState,
    before_table: TableModel<P>,
    after_table: TableModel<P>,
    work: RioWork,
    rq: RioRq,
    data: RioBuf,
    addr: Option<RioBuf>,
    now: u64,
    step: RioStep,
)
    requires
        work.stage == (RioStage::Ready { rq, data, addr }),
        addr is Some <==> work.request is SendTo,
        !(work.request is Pool),
        before.advanced(&after, before_table, after_table, &work, now, &step),
    ensures
        step matches RioStep::Ask { ask, work: w } ==> {
            &&& work.request is Recv ==> (ask matches RioAsk::Receive { rq: q, buf, .. } && q == rq
                && buf == data)
            &&& work.request is Send ==> (ask matches RioAsk::Send { rq: q, buf, .. } && q == rq
                && buf == data)
            &&& work.request is SendTo ==> (ask matches RioAsk::SendEx { rq: q, data: d, addr: a, .. }
                && q == rq && d == data && Some(a) == addr)
            &&& w.stage matches RioStage::Requested { context }
            &&& match ask {
                RioAsk::Receive { context: c, .. } => c == context,
                RioAsk::Send { context: c, .. } => c == context,
                RioAsk::SendEx { context: c, .. } => c == context,
                _ => false,
            }
            &&& after.contexts.lookup(context) == Some(
                RioCompletionKind::Op {
                    user_data: work.target.user_data,
                    generation: work.target.generation,
                },
            )
            &&& before.contexts.lookup(context) is None
        },
        before.contexts.has_room() ==> step is Ask,
{
}

/// From an operation on a socket to the request that is made for it. A send covers exactly
/// what is filled of the operation's buffer from its offset on, and is a send, to the
/// address given where there is one; a receive covers the room that there is, and is a
/// receive.
pub proof fn transfers_are_requested_as_given<P>(
    d: IocpDriver<P>,
    begun: IocpDriver<P>,
    head: SubmitHead,
    first: OpStep,
    start: RioWork,
    no_buffers: Vec<RioBufferId>,
    r1: RioState,
    r2: RioState,
    r3: RioState,
    r4: RioState,
    t1: TableModel<P>,
    t2: TableModel<P>,
    work: RioWork,
    rq: RioRq,
    id: RioBufferId,
    now: u64,
    next: RioWork,
    later: u64,
    ask: RioAsk,
    last: RioWork,
)
    requires
        head.op is Send || head.op is UdpSend || head.op is SendTo || head.op is Recv,
        d.begun(&begun, head, &first),
        first == (OpStep::Next { stage: SubmitStage::Rio { work: start }, released: no_buffers }),
        work.target == start.target && work.request == start.request,
        work.stage == (RioStage::WithData { rq, id }),
        r1.advanced(&r2, t1, t1, &work, now, &RioStep::Next { work: next }),
        r3.advanced(&r4, t2, t2, &next, later, &RioStep::Ask { ask, work: last }),
    ensures
        head.op matches IocpOp::Send { buf, buf_offset, .. } ==> {
            &&& ask matches RioAsk::Send { rq: q, buf: data, .. }
            &&& q == rq && data.buffer_id == id
            &&& buf.offset + buf_offset <= u32::MAX ==> data.offset == buf.offset + buf_offset
            &&& reaches_up_to(buf_offset, data.length, buf.len)
        },
        head.op matches IocpOp::UdpSend { buf, buf_offset, .. } ==> {
            &&& ask matches RioAsk::Send { rq: q, buf: data, .. }
            &&& q == rq && data.buffer_id == id
            &&& buf.offset + buf_offset <= u32::MAX ==> data.offset == buf.offset + buf_offset
            &&& reaches_up_to(buf_offset, data.length, buf.len)
        },
        head.op matches IocpOp::SendTo { buf, buf_offset, .. } ==> {
            &&& ask matches RioAsk::SendEx { rq: q, data, .. }
            &&& q == rq && data.buffer_id == id
            &&& buf.offset + buf_offset <= u32::MAX ==> data.offset == buf.offset + buf_offset
            &&& reaches_up_to(buf_offset, data.length, buf.len)
        },
        head.op matches IocpOp::Recv { buf, buf_offset, .. } ==> {
            &&& ask matches RioAsk::Receive { rq: q, buf: data, .. }
            &&& q == rq && data.buffer_id == id
            &&& buf.offset + buf_offset <= u32::MAX ==> data.offset == buf.offset + buf_offset
            &&& reaches_up_to(buf_offset, data.length, buf.capacity)
        },
        last.stage matches RioStage::Requested { context } && r4.contexts.lookup(context) == Some(
            RioCompletionKind::Op { user_data: head.user_data, generation: head.generation },
        ),
{
    ranges_cover_what_is_transferred(
        r1,
        r2,
        t1,
        t1,
        work,
        rq,
        id,
        now,
        RioStep::Next { work: next },
    );
    let data = next.stage->Ready_data;
    let addr = next.stage->Ready_addr;
    requests_follow_the_direction(
        r3,
        r4,
        t2,
        t2,
        next,
        rq,
        data,
        addr,
        later,
        RioStep::Ask { ask, work: last },
    );
}

/// A request is made for a socket on the request queue of that socket. One that has none
/// yet gets one of its own, with as many places each way as the depth says and one buffer
/// for each, which reports to the one completion queue.
pub proof fn sockets_have_their_own_request_queue<P>(
    before: RioState,
    after: RioState,
    before_table: TableModel<P>,
    after_table: TableModel<P>,
    work: RioWork,
    n: usize,
    now: u64,
    step: RioStep,
)
    requires
        before.wf(),
        work.stage is FindActor,
        is_number(work.target.handle, n),
        before.kernel.dispatch,
        before.advanced(&after, before_table, after_table, &work, now, &step),
    ensures
        ({
            let key = match work.target.handle {
                IocpHandle::File { handle } => (0usize, handle, 0u64),
                IocpHandle::Socket { handle, generation } => (1usize, handle, generation),
            };
            if before.index().contains_key(key) {
                &&& step matches RioStep::Next { work: w }
                &&& w.stage matches RioStage::WithActor { actor, rq }
                &&& before.actors_model()[actor].handle == key
                &&& before.actors_model()[actor].rq == rq
            } else {
                &&& step matches RioStep::Ask { ask: RioAsk::CreateRq { config }, .. }
                &&& config.socket == n
                &&& config.max_outstanding_recvs == before.registry.rq_depth
                &&& config.max_outstanding_sends == before.registry.rq_depth
                &&& config.max_receive_data_buffers == 1 && config.max_send_data_buffers == 1
                &&& config.recv_cq == before.kernel.cq && config.send_cq == before.kernel.cq
            }
        }),
{
}

/// The memory that a transfer uses is registered before the transfer is asked for: a heap
/// buffer by itself, all of it, and any other buffer with the chunk that it lies in. One
/// that is registered already is not registered again.
pub proof fn memory_is_registered_first(
    before: RioRegistry,
    after: RioRegistry,
    transfer: RioTransfer,
    now: u64,
    found: Lookup,
)
    requires
        before.resolved(&after, transfer.buf, transfer.chunk, now, found),
    ensures
        transfer.buf.pool_kind == PoolKind::Heap ==> {
            &&& found matches Lookup::Known(id) ==> before.heap_rio_bufs@.contains_key(
                (transfer.buf.ptr, transfer.buf.capacity, transfer.buf.cookie),
            ) && id == before.heap_rio_bufs@[(
                transfer.buf.ptr,
                transfer.buf.capacity,
                transfer.buf.cookie,
            )]
            &&& found matches Lookup::Register { what, range } ==> {
                &&& !before.heap_rio_bufs@.contains_key(
                    (transfer.buf.ptr, transfer.buf.capacity, transfer.buf.cookie),
                )
                &&& what matches Registrand::Heap { key }
                &&& key == (transfer.buf.ptr, transfer.buf.capacity, transfer.buf.cookie)
                &&& range.ptr == transfer.buf.ptr && range.len == transfer.buf.capacity
            }
        },
        transfer.buf.pool_kind != PoolKind::Heap ==> {
            &&& found matches Lookup::Known(id) ==> {
                &&& transfer.buf.chunk_id < before.chunk_registry@.len()
                &&& id == before.chunk_registry@[transfer.buf.chunk_id as int]
                &&& id.id != 0
            }
            &&& found matches Lookup::Register { what, range } ==> {
                &&& what matches Registrand::Chunk { id }
                &&& id == transfer.buf.chunk_id
                &&& Some(range) == transfer.chunk
                &&& transfer.buf.chunk_id < before.chunk_registry@.len()
                    ==> before.chunk_registry@[transfer.buf.chunk_id as int].id == 0
            }
        },
{
}

/// The answer to a registration is what the transfer goes on with, and what is found for
/// the same memory from then on; a refusal ends the request, with the system's number.
pub proof fn registrations_are_used(
    before: RioState,
    after: RioState,
    work: RioWork,
    rq: RioRq,
    what: Registrand,
    answer: Answer,
    now: u64,
    step: RioStep,
)
    requires
        work.stage == (RioStage::DataRegistered { rq, what }),
        what matches Registrand::Chunk { id } ==> id < before.registry.chunk_registry@.len(),
        before.answered(&after, &work, answer, now, &step),
    ensures
        answer.value != 0 ==> {
            &&& step matches RioStep::Next { work: w }
            &&& w.stage matches RioStage::WithData { rq: q, id }
            &&& q == rq && id.id == answer.value
            &&& what matches Registrand::Chunk { id: c } ==> after.registry.chunk_registry@[c as int]
                == id
            &&& what matches Registrand::Heap { key } ==> after.registry.heap_rio_bufs@.contains_key(
                key,
            ) && after.registry.heap_rio_bufs@[key] == id
        },
        answer.value == 0 ==> (step matches RioStep::Failed { failure, .. } && failure.code == Some(
            answer.error,
        )),
{
}

/// The page with the addresses is registered once, all of it.
pub proof fn pages_are_registered_whole(
    before: RioState,
    after: RioState,
    work: RioWork,
    rq: RioRq,
    id: RioBufferId,
    index: usize,
    range: MemoryRange,
    answer: Answer,
    now: u64,
    step: RioStep,
)
    requires
        work.stage == (RioStage::PageRegistered { rq, id, index, range }),
        index < before.registry.slab_rio_pages@.len(),
        before.answered(&after, &work, answer, now, &step),
    ensures
        answer.value != 0 ==> {
            &&& step matches RioStep::Next { work: w }
            &&& w.stage == (RioStage::WithData { rq, id })
            &&& after.registry.slab_rio_pages@[index as int] == Some(
                SlabPage { id: RioBufferId { id: answer.value }, range },
            )
        },
        answer.value == 0 ==> step is Failed && after.registry.slab_rio_pages@
            == before.registry.slab_rio_pages@,
{
}

/// A request that the system took is outstanding; one that it refused is not, nothing waits
/// under its context, and the refusal is passed on with its number.
pub proof fn requests_are_counted_once_taken(
    before: RioState,
    after: RioState,
    work: RioWork,
    context: u64,
    answer: Answer,
    now: u64,
    step: RioStep,
)
    requires
        work.stage == (RioStage::Requested { context }),
        context % 2 == 0,
        before.answered(&after, &work, answer, now, &step),
    ensures
        answer.value != 0 ==> {
            &&& after.outstanding_count == before.outstanding_count + 1
            &&& after.contexts.lookup(context) == before.contexts.lookup(context)
            &&& step matches RioStep::Done { served, .. }
            &&& served is None
        },
        answer.value == 0 ==> {
            &&& after.outstanding_count == before.outstanding_count
            &&& after.contexts.lookup(context) is None
            &&& step matches RioStep::Failed { failure, .. }
            &&& failure.code == Some(answer.error)
        },
{
}

/// What registered I/O reports of a request reaches the operation that it was made for: the
/// number of bytes, or the negated error, under the operation's token, with what was
/// attached. One that was cancelled is gone without a word, and what is reported of an
/// earlier use of the slot reaches nobody.
pub proof fn reports_reach_their_operation<P>(
    t: TableModel<P>,
    user_data: usize,
    generation: u32,
    res: RioResult,
)
    requires
        user_data < t.slots.len(),
        t.records.len() == t.slots.len(),
        res.status > i32::MIN,
    ensures
        ({
            let i = user_data as int;
            let (after, counts) = t.rio_completed(user_data, generation, res);
            let waits = t.slots[i].state == Some(SlotState::InFlightWaiting);
            let current = t.slots[i].platform.generation == generation;
            &&& waits && current ==> {
                &&& counts
                &&& after.records[i] matches Some(r) && {
                    &&& r.event.token.user_data == user_data
                    &&& r.event.token.generation == generation
                    &&& res.status == 0 && res.bytes_transferred <= i32::MAX ==> r.event.res
                        == res.bytes_transferred
                    &&& res.status == 0 && res.bytes_transferred > i32::MAX ==> r.event.res
                        == i32::MAX
                    &&& res.status != 0 ==> r.event.res == -res.status
                    &&& r.payload == t.slots[i].payload
                    &&& r.peer is None
                    &&& after.events == t.events.push(r.event)
                }
                &&& after.slots[i].state is None
            }
            &&& t.slots[i].state == Some(SlotState::InFlightOrphaned) && current ==> {
                &&& counts
                &&& after.events == t.events
                &&& after.records == t.records
                &&& after.slots[i].state is None
            }
            &&& (waits || t.slots[i].state == Some(SlotState::InFlightOrphaned)) && !current
                ==> after == t && !counts
            &&& t.slots[i].state is None || t.slots[i].state == Some(SlotState::Reserved)
                || t.slots[i].state == Some(SlotState::Completed) ==> after == t && counts
            &&& after.deliveries == t.deliveries
            &&& forall|j: int|
                0 <= j < t.slots.len() && j != i ==> (#[trigger] after.slots[j]) == t.slots[j]
                    && after.records[j] == t.records[j]
        }),
{
}

} // verus!
