//! What holds of the datagrams of a receive pool, from the request to the delivery.
use vstd::prelude::*;
use crate::iocp::op::IocpOp;
use crate::iocp::table::{Delivery, TableModel};
use crate::slots::SlotState;
use crate::sockaddr::SocketAddr;
use super::contexts::{RequestContexts, RioCompletionKind};
use super::kernel::{RioBuf, RioResult};
use super::keys::{ActorKey, SlotKey};
use super::pool::{Answer, PoolModel, UdpPoolPacket, UdpWaiter, UdpWaiterKind};
use super::pool_delivery::DispatchModel;
use super::pool_steps::{PoolAsk, PoolStep, PoolTask, Stage};

verus! {

/// The request that `token` stands for is under way, and receives into chunk `c`.
pub open spec fn receives_into(m: PoolModel, token: u32, c: u32) -> bool {
    &&& m.tokens.contains_key(token)
    &&& m.slots.contains_key(m.tokens[token])
    &&& m.slots[m.tokens[token]].in_flight
    &&& m.slots[m.tokens[token]].current_idx == c
}

/// The two pools have the same memory, cut the same way.
pub open spec fn same_memory(m: PoolModel, n: PoolModel) -> bool {
    &&& m.slab is Some && n.slab is Some
    &&& m.slab->Some_0.rio_id == n.slab->Some_0.rio_id
    &&& m.slab->Some_0.chunk_size == n.slab->Some_0.chunk_size
}

/// The chunk that a delivery is made from.
pub open spec fn chunk_of(d: Delivery) -> u32 {
    match d {
        Delivery::Copy { chunk, .. } => chunk,
        Delivery::Hand { chunk, .. } => chunk,
    }
}

/// The operation that a delivery is made to.
pub open spec fn goes_to(d: Delivery, user_data: usize, generation: u32) -> bool {
    match d {
        Delivery::Copy { user_data: u, generation: g, .. } => u == user_data && g == generation,
        Delivery::Hand { user_data: u, generation: g, .. } => u == user_data && g == generation,
    }
}

/// The operation that is in line as `w` is under way, in the same use of its slot, and of
/// the kind that is in line.
pub open spec fn still_waits<P>(table: TableModel<P>, w: UdpWaiter) -> bool {
    let i = w.user_data as int;
    &&& 0 <= i < table.slots.len()
    &&& table.slots[i].state == Some(SlotState::InFlightWaiting)
    &&& table.slots[i].platform.generation == w.generation
    &&& table.slots[i].op matches Some(op) && {
        &&& w.kind == UdpWaiterKind::Stream ==> op is UdpRecvStream
        &&& w.kind == UdpWaiterKind::Recv ==> op is UdpRecv
    }
}

/// The delivery `d` of `len` bytes from `peer`, which lie in chunk `c`, suits the operation
/// that is in line as `w`. A stream is handed the chunk with all bytes. A receive gets a
/// copy of the front of the chunk, from the offset of its buffer on, and no more than is
/// left of what is filled.
pub open spec fn suits<P>(
    table: TableModel<P>,
    w: UdpWaiter,
    d: Delivery,
    c: u32,
    len: int,
    peer: SocketAddr,
) -> bool {
    &&& goes_to(d, w.user_data, w.generation)
    &&& chunk_of(d) == c
    &&& w.kind == UdpWaiterKind::Stream ==> (d matches Delivery::Hand { len: n, peer: p, .. } && n
        == len && p == peer)
    &&& w.kind == UdpWaiterKind::Recv ==> {
        &&& d matches Delivery::Copy { start, copied, .. }
        &&& table.slots[w.user_data as int].op matches Some(IocpOp::UdpRecv { buf, buf_offset, .. })
        &&& copied <= len && start + copied <= buf.len
        &&& copied < len ==> start + copied == buf.len
        &&& buf_offset <= buf.len ==> start == buf_offset
        &&& buf_offset > buf.len ==> copied == 0
    }
}

/// How many bytes a delivery brings.
pub open spec fn brought(d: Delivery) -> int {
    match d {
        Delivery::Copy { copied, .. } => copied as int,
        Delivery::Hand { len, .. } => len as int,
    }
}

/// The operation that is in line as `w` has got the delivery `d`: the caller has it to pass
/// on, the operation has ended with as many bytes, its slot is free, and its submitter
/// learns who sent them if it is a stream.
pub open spec fn ended_with<P>(
    before: TableModel<P>,
    after: TableModel<P>,
    w: UdpWaiter,
    d: Delivery,
    peer: SocketAddr,
) -> bool {
    let i = w.user_data as int;
    &&& after.deliveries == before.deliveries.push(d)
    &&& after.slots.len() == before.slots.len()
    &&& after.records.len() == before.records.len()
    &&& after.slots[i].state is None
    &&& after.records[i] matches Some(r) && {
        &&& r.event.token.user_data == w.user_data
        &&& r.event.token.generation == w.generation
        &&& brought(d) <= i32::MAX ==> r.event.res == brought(d)
        &&& brought(d) > i32::MAX ==> r.event.res == i32::MAX
        &&& r.payload == before.slots[i].payload
        &&& w.kind == UdpWaiterKind::Stream ==> r.peer == Some(peer)
        &&& w.kind == UdpWaiterKind::Recv ==> r.peer is None
        &&& after.events == before.events.push(r.event)
    }
    &&& forall|j: int|
        0 <= j < before.slots.len() && j != i ==> (#[trigger] after.slots[j]) == before.slots[j]
            && after.records[j] == before.records[j]
}

/// A datagram that is delivered to an operation in line is delivered whole, from the chunk
/// that it lies in, and ends that operation.
pub proof fn deliveries_bring_the_datagram<P>(table: TableModel<P>, w: UdpWaiter, d: UdpPoolPacket)
    requires
        table.records.len() == table.slots.len(),
        table.awaits(w),
    ensures
        still_waits(table, w),
        ({
            let after = table.delivered(w, d);
            &&& after.deliveries.len() > 0
            &&& suits(table, w, after.deliveries.last(), d.chunk, d.len as int, d.peer)
            &&& ended_with(table, after, w, after.deliveries.last(), d.peer)
        }),
{
    let after = table.delivered(w, d);
    assert(after.deliveries =~= table.deliveries.push(after.deliveries.last()));
}

/// Whoever is still in line is delivered to, and nobody else.
pub proof fn those_in_line_are_delivered_to<P>(table: TableModel<P>, w: UdpWaiter)
    ensures
        table.awaits(w) <==> still_waits(table, w),
{
}

/// A request of a slot receives into the chunk of the slot: its range is that chunk, all of
/// it, inside the memory of the pool. The sender's address goes into the slot's own buffer.
/// The context leads back to the request.
pub proof fn requests_receive_into_the_chunk_of_their_slot(
    m: PoolModel,
    after: PoolModel,
    before_contexts: &RequestContexts,
    after_contexts: &RequestContexts,
    actor: ActorKey,
    task: PoolTask,
    key: SlotKey,
    growth: Option<usize>,
    step: PoolStep,
)
    requires
        m.wf(),
        m.slots.contains_key(key),
        m.resubmitted(
            after,
            before_contexts,
            after_contexts,
            actor,
            &task,
            key,
            growth,
            step,
        ),
    ensures
        step matches PoolStep::Ask { ask, task: t } && {
            &&& ask matches PoolAsk::Receive { data, addr, context }
            &&& t.todo@.last() matches Stage::Received { key: k, token, context: x, .. }
            &&& k == key && x == context
            &&& !m.tokens.contains_key(token)
            &&& receives_into(after, token, m.slots[key].current_idx)
            &&& same_memory(m, after)
            &&& data.buffer_id == m.slab->Some_0.rio_id
            &&& m.slots[key].current_idx * m.slab->Some_0.chunk_size <= u32::MAX ==> data.offset
                == m.slots[key].current_idx * m.slab->Some_0.chunk_size
            &&& m.slab->Some_0.chunk_size <= u32::MAX ==> data.length == m.slab->Some_0.chunk_size
            &&& addr.buffer_id == m.slots[key].addr_buf_id && addr.offset == 0 && addr.length == 128
            &&& after_contexts.lookup(context) == Some(
                RioCompletionKind::Pool { actor_key: actor, generation: token },
            )
        },
{
    if m.slab is None {
        assert(m.slots.dom() =~= Set::<SlotKey>::empty());
        assert(m.slots.dom().contains(key));
    }
}

/// The first request of a new slot receives into the chunk that was set aside for the slot.
pub proof fn new_slots_use_the_chunk_set_aside(
    m: PoolModel,
    after: PoolModel,
    before_contexts: &RequestContexts,
    after_contexts: &RequestContexts,
    actor: ActorKey,
    task: PoolTask,
    chunk: u32,
    target: usize,
    answer: Answer,
    step: PoolStep,
)
    requires
        m.wf(),
        task.todo@.len() > 0,
        task.todo@.last() == (Stage::AddrRegistered { chunk, target }),
        task.fits(m),
        m.answered(after, before_contexts, after_contexts, actor, &task, answer, step),
        answer.value != 0,
        before_contexts.has_room(),
    ensures
        step matches PoolStep::Ask { ask, task: t } && {
            &&& ask matches PoolAsk::Receive { data, addr, context }
            &&& t.todo@.last() matches Stage::Received { key, token, context: x, .. }
            &&& x == context
            &&& !m.slots.contains_key(key)
            &&& receives_into(after, token, chunk)
            &&& same_memory(m, after)
            &&& data.buffer_id == m.slab->Some_0.rio_id
            &&& chunk * m.slab->Some_0.chunk_size <= u32::MAX ==> data.offset == chunk
                * m.slab->Some_0.chunk_size
            &&& addr.buffer_id.id == answer.value
            &&& after_contexts.lookup(context) == Some(
                RioCompletionKind::Pool { actor_key: actor, generation: token },
            )
        },
{
}

/// A request under way keeps its chunk, whatever the pool does by itself meanwhile.
pub proof fn requests_under_way_keep_their_chunk<P>(
    m: PoolModel,
    after: PoolModel,
    before_table: TableModel<P>,
    after_table: TableModel<P>,
    before_contexts: &RequestContexts,
    after_contexts: &RequestContexts,
    actor: ActorKey,
    task: PoolTask,
    step: PoolStep,
    token: u32,
    c: u32,
)
    requires
        m.wf(),
        task.fits(m),
        receives_into(m, token, c),
        m.advanced(
            after,
            before_table,
            after_table,
            before_contexts,
            after_contexts,
            actor,
            &task,
            step,
        ),
    ensures
        receives_into(after, token, c),
        same_memory(m, after),
{
    if m.slab is None {
        assert(m.slots.dom() =~= Set::<SlotKey>::empty());
        assert(m.slots.dom().contains(m.tokens[token]));
    }
    if task.todo@.len() > 0 && task.todo@.last() is Trim {
        let gone = choose|gone: Seq<SlotKey>| #[trigger] m.trimmed_by(after, gone);
        let key = m.tokens[token];
        assert(!gone.to_set().contains(key)) by {
            if gone.to_set().contains(key) {
                let i = gone.index_of(key);
                assert(gone[i] == key);
            }
        }
    }
}

/// A request under way keeps its chunk when the system answers, unless the answer is that
/// this very request was refused.
pub proof fn answers_leave_other_requests_alone(
    m: PoolModel,
    after: PoolModel,
    before_contexts: &RequestContexts,
    after_contexts: &RequestContexts,
    actor: ActorKey,
    task: PoolTask,
    answer: Answer,
    step: PoolStep,
    token: u32,
    c: u32,
)
    requires
        m.wf(),
        task.todo@.len() > 0,
        task.fits(m),
        receives_into(m, token, c),
        m.answered(after, before_contexts, after_contexts, actor, &task, answer, step),
        !(task.todo@.last() matches Stage::Received { token: t, .. } && t == token && answer.value
            == 0),
    ensures
        receives_into(after, token, c),
        same_memory(m, after),
{
    if m.slab is None || m.state is Uninitialized {
        assert(m.slots.dom() =~= Set::<SlotKey>::empty());
        assert(m.slots.dom().contains(m.tokens[token]));
    }
    if let Stage::Received { key, token: t, .. } = task.todo@.last() {
        if t != token {
            assert(m.tokens.contains_key(t) && m.tokens.contains_key(token));
            assert(m.tokens[t] != m.tokens[token]);
        }
    }
}

/// A request under way keeps its chunk when another one ends.
pub proof fn completions_leave_other_requests_alone<P>(
    m: PoolModel,
    table: TableModel<P>,
    other: u32,
    res: RioResult,
    peer: SocketAddr,
    token: u32,
    c: u32,
)
    requires
        m.wf(),
        other != token,
        m.tokens.contains_key(other),
        receives_into(m, token, c),
    ensures
        receives_into(m.completed(table, other, res, peer).0, token, c),
        same_memory(m, m.completed(table, other, res, peer).0),
{
    if m.slab is None {
        assert(m.slots.dom() =~= Set::<SlotKey>::empty());
        assert(m.slots.dom().contains(m.tokens[token]));
    }
    assert(m.tokens.contains_key(other) && m.tokens.contains_key(token));
    assert(m.tokens[other] != m.tokens[token]);
}

/// A request under way keeps its chunk when its pool is shut down.
pub proof fn shutting_down_leaves_requests_alone(m: PoolModel, token: u32, c: u32)
    requires
        m.wf(),
        receives_into(m, token, c),
    ensures
        receives_into(m.draining(), token, c),
        same_memory(m, m.draining()),
        m.draining().slots[m.tokens[token]].stop_requested,
{
    if m.slab is None {
        assert(m.slots.dom() =~= Set::<SlotKey>::empty());
        assert(m.slots.dom().contains(m.tokens[token]));
    }
}

/// The operation that is first in line for a datagram is gone, and was a receive; a free
/// chunk has taken the place of the one with the datagram.
pub open spec fn receiver_is_gone<P>(m: PoolModel, table: TableModel<P>) -> bool {
    &&& m.waiters.len() > 0
    &&& m.waiters[0].kind == UdpWaiterKind::Recv
    &&& !still_waits(table, m.waiters[0])
    &&& m.slab matches Some(slab) && slab.free.len() > 0
}

/// A request that was made into chunk `c` completes with a datagram. Whatever is delivered
/// on that account is delivered from chunk `c`, all of it, to the operation that is first in
/// line; whatever is put into the queue lies in chunk `c`. Either way the slot has another
/// chunk afterwards, which was free, so its next request goes elsewhere.
#[verifier::rlimit(40)]
pub proof fn datagrams_come_from_the_chunk_of_their_request<P>(
    m: PoolModel,
    table: TableModel<P>,
    token: u32,
    c: u32,
    res: RioResult,
    peer: SocketAddr,
)
    requires
        m.wf(),
        receives_into(m, token, c),
        table.records.len() == table.slots.len(),
        res.status == 0,
        res.bytes_transferred > 0,
    ensures
        ({
            let key = m.tokens[token];
            let (after, t, todo) = m.completed(table, token, res, peer);
            let n = res.bytes_transferred as int;
            &&& !after.tokens.contains_key(token)
            &&& after.slots.contains_key(key)
            &&& same_memory(m, after)
            // At most one delivery comes of it.
            &&& t.deliveries == table.deliveries || {
                &&& t.deliveries.len() == table.deliveries.len() + 1
                &&& m.waiters.len() > 0
                &&& still_waits(table, m.waiters[0])
                &&& suits(table, m.waiters[0], t.deliveries.last(), c, n, peer)
                &&& ended_with(table, t, m.waiters[0], t.deliveries.last(), peer)
                &&& after.waiters == m.waiters.drop_first()
                &&& after.queue == m.queue
                &&& after.slots[key].current_idx != c
                &&& m.free().contains(after.slots[key].current_idx)
                &&& !after.slots[key].in_flight
            }
            &&& t.deliveries == table.deliveries ==> t == table && after.waiters == m.waiters
            // It comes if the operation is there and the slot can have another chunk.
            &&& m.waiters.len() > 0 && still_waits(table, m.waiters[0]) && m.free().len() > 0 && n
                <= m.slab->Some_0.chunk_size ==> t.deliveries.len() == table.deliveries.len() + 1
            // What is put into the queue is behind all others.
            &&& t.deliveries == table.deliveries && !receiver_is_gone(m, table) ==> {
                ||| after.queue == m.queue
                ||| after.queue == m.queue.drop_first()
                ||| {
                    &&& after.queue.len() > 0
                    &&& after.queue.last().chunk == c && after.queue.last().len == n
                        && after.queue.last().peer == peer
                    &&& after.queue.drop_last() == m.queue || after.queue.drop_last()
                        == m.queue.drop_first()
                    &&& after.slots[key].current_idx != c
                    &&& !after.slots[key].in_flight
                }
            }
            &&& m.waiters.len() == 0 && m.state is Running && m.queue.len() < 256 && m.free().len()
                > 0 ==> after.queue == m.queue.push(
                UdpPoolPacket { chunk: c, len: res.bytes_transferred as usize, peer },
            )
            &&& m.waiters.len() == 0 && m.state is Running && m.queue.len() >= 256 ==> after.queue
                == m.queue.drop_first().push(
                UdpPoolPacket { chunk: c, len: res.bytes_transferred as usize, peer },
            )
            // The other slots stay as they are.
            &&& forall|k: SlotKey| k != key && m.slots.contains_key(k) ==> #[trigger] after.slots[k]
                == m.slots[k]
        }),
{
    let key = m.tokens[token];
    if m.slab is None {
        assert(m.slots.dom() =~= Set::<SlotKey>::empty());
        assert(m.slots.dom().contains(key));
    }
    let free = m.free();
    assert(m.slots.contains_key(key));
    if free.len() > 0 {
        assert(free.contains(free[0]));
        assert(free[0] != c);
    }
    if m.waiters.len() > 0 {
        let w = m.waiters[0];
        assert(seq![w] + m.waiters.drop_first() =~= m.waiters);
        if table.awaits(w) {
            deliveries_bring_the_datagram(
                table,
                w,
                UdpPoolPacket { chunk: c, len: res.bytes_transferred as usize, peer },
            );
        }
    }
    if m.queue.len() >= 256 {
        let more = free.push(m.queue[0].chunk);
        assert(more.len() > 0);
        if free.len() == 0 {
            assert(more[0] == m.queue[0].chunk);
        } else {
            assert(more[0] == free[0]);
        }
    }
}

/// A request that completes without a datagram brings nobody anything, and leaves its slot
/// the chunk that it had.
pub proof fn without_a_datagram_nothing_is_delivered<P>(
    m: PoolModel,
    table: TableModel<P>,
    token: u32,
    c: u32,
    res: RioResult,
    peer: SocketAddr,
)
    requires
        m.wf(),
        receives_into(m, token, c),
        res.status != 0 || res.bytes_transferred == 0,
    ensures
        ({
            let key = m.tokens[token];
            let (after, t, todo) = m.completed(table, token, res, peer);
            &&& t == table
            &&& after.queue == m.queue && after.waiters == m.waiters
            &&& after.slots.contains_key(key)
            &&& after.slots[key].current_idx == c
            &&& !after.slots[key].in_flight
            &&& !after.tokens.contains_key(token)
            &&& after.slab == m.slab
        }),
{
}

/// The next request from a slot that has passed a datagram on goes into another chunk than
/// the one that the datagram lies in, so the datagram is not overwritten.
pub proof fn next_requests_go_elsewhere<P>(
    m: PoolModel,
    table: TableModel<P>,
    token: u32,
    c: u32,
    res: RioResult,
    peer: SocketAddr,
    after: PoolModel,
    before_contexts: &RequestContexts,
    after_contexts: &RequestContexts,
    actor: ActorKey,
    task: PoolTask,
    growth: Option<usize>,
    step: PoolStep,
)
    requires
        m.wf(),
        receives_into(m, token, c),
        table.records.len() == table.slots.len(),
        res.status == 0,
        res.bytes_transferred > 0,
        m.completed(table, token, res, peer).1.deliveries != table.deliveries,
        m.slab->Some_0.chunk_size * 272 <= u32::MAX,
        m.completed(table, token, res, peer).0.resubmitted(
            after,
            before_contexts,
            after_contexts,
            actor,
            &task,
            m.tokens[token],
            growth,
            step,
        ),
    ensures
        step matches PoolStep::Ask { ask, .. } && {
            &&& ask matches PoolAsk::Receive { data, .. }
            &&& data.buffer_id == m.slab->Some_0.rio_id
            &&& data.offset + data.length <= c * m.slab->Some_0.chunk_size || (c + 1)
                * m.slab->Some_0.chunk_size <= data.offset
        },
{
    datagrams_come_from_the_chunk_of_their_request(m, table, token, c, res, peer);
    let mid = m.completed(table, token, res, peer).0;
    let next = mid.slots[m.tokens[token]].current_idx;
    let size = m.slab->Some_0.chunk_size;
    let i = m.free().index_of(next);
    assert(m.free()[i] == next);
    assert(next < 272);
    assert(next * size <= u32::MAX && next * size + size <= c * size || (c + 1) * size <= next
        * size) by (nonlinear_arith)
        requires
            next < 272,
            next != c,
            size * 272 <= u32::MAX,
    ;
    assert(next * size <= u32::MAX) by (nonlinear_arith)
        requires
            next < 272,
            size * 272 <= u32::MAX,
    ;
}

/// From the request to the delivery: the range that was asked for when the request was
/// made is the chunk that is named when its datagram is delivered or put into the queue.
pub proof fn deliveries_name_the_range_asked_for<P>(
    start: PoolModel,
    asked: PoolModel,
    before_contexts: &RequestContexts,
    after_contexts: &RequestContexts,
    actor: ActorKey,
    task: PoolTask,
    key: SlotKey,
    growth: Option<usize>,
    data: RioBuf,
    addr: RioBuf,
    context: u64,
    rest: PoolTask,
    token: u32,
    m: PoolModel,
    table: TableModel<P>,
    res: RioResult,
    peer: SocketAddr,
)
    requires
        start.wf(),
        start.slots.contains_key(key),
        start.resubmitted(
            asked,
            before_contexts,
            after_contexts,
            actor,
            &task,
            key,
            growth,
            PoolStep::Ask { ask: PoolAsk::Receive { data, addr, context }, task: rest },
        ),
        rest.todo@.last() == (Stage::Received { key, token, context, growth }),
        start.slab->Some_0.chunk_size * 272 <= u32::MAX,
        m.wf(),
        same_memory(asked, m),
        receives_into(m, token, asked.slots[key].current_idx),
        table.records.len() == table.slots.len(),
        res.status == 0,
        res.bytes_transferred > 0,
    ensures
        ({
            let (after, t, todo) = m.completed(table, token, res, peer);
            &&& t.deliveries != table.deliveries ==> chunk_of(t.deliveries.last())
                * start.slab->Some_0.chunk_size == data.offset
            &&& t.deliveries == table.deliveries && !receiver_is_gone(m, table)
                && after.queue.len() > m.queue.len() ==> after.queue.last().chunk
                * start.slab->Some_0.chunk_size == data.offset
            &&& t.deliveries != table.deliveries ==> after.slots[m.tokens[token]].current_idx
                * start.slab->Some_0.chunk_size != data.offset
        }),
{
    let c = start.slots[key].current_idx;
    let size = start.slab->Some_0.chunk_size;
    requests_receive_into_the_chunk_of_their_slot(
        start,
        asked,
        before_contexts,
        after_contexts,
        actor,
        task,
        key,
        growth,
        PoolStep::Ask { ask: PoolAsk::Receive { data, addr, context }, task: rest },
    );
    assert(c < 272);
    assert(c * size <= u32::MAX) by (nonlinear_arith)
        requires
            c < 272,
            size * 272 <= u32::MAX,
    ;
    datagrams_come_from_the_chunk_of_their_request(m, table, token, c, res, peer);
    assert(size >= 1);
    let next = m.completed(table, token, res, peer).0.slots[m.tokens[token]].current_idx;
    if next != c {
        assert(next * size != c * size) by (nonlinear_arith)
            requires
                next != c,
                size >= 1,
        ;
    }
}

/// Datagrams that wait go to operations that wait, in order: the oldest datagram to the one
/// that has waited longest and is still there. Each delivery names the chunk of its
/// datagram. In the end no datagram waits, or no operation.
pub proof fn waiting_datagrams_go_out_in_order<P>(d: DispatchModel<P>)
    requires
        d.table.records.len() == d.table.slots.len(),
    ensures
        ({
            let r = d.dispatched();
            let n = d.queue.len() - r.queue.len();
            let gone = d.waiters.len() - r.waiters.len();
            let base = d.table.deliveries.len();
            &&& 0 <= n && 0 <= gone
            &&& r.queue == d.queue.skip(n)
            &&& r.waiters == d.waiters.skip(gone)
            &&& r.queue.len() == 0 || r.waiters.len() == 0
            &&& r.table.deliveries.len() == base + n
            &&& r.table.deliveries.take(base as int) == d.table.deliveries
            &&& r.table.records.len() == r.table.slots.len()
            &&& forall|k: int|
                0 <= k < n ==> {
                    &&& chunk_of(#[trigger] r.table.deliveries[base + k]) == d.queue[k].chunk
                    &&& brought(r.table.deliveries[base + k]) <= d.queue[k].len
                    &&& r.table.deliveries[base + k] matches Delivery::Hand { len, peer, .. } ==> len
                        == d.queue[k].len && peer == d.queue[k].peer
                }
            &&& d.waiters.len() > 0 && d.queue.len() > 0 && still_waits(d.table, d.waiters[0]) ==> n
                > 0 && goes_to(
                r.table.deliveries[base as int],
                d.waiters[0].user_data,
                d.waiters[0].generation,
            )
        }),
    decreases d.waiters.len(),
{
    let r = d.dispatched();
    let base = d.table.deliveries.len() as int;
    if d.waiters.len() == 0 || d.queue.len() == 0 {
        assert(d.queue.skip(0) =~= d.queue);
        assert(d.waiters.skip(0) =~= d.waiters);
        assert(d.table.deliveries.take(base) =~= d.table.deliveries);
    } else {
        let w = d.waiters[0];
        let p = d.queue[0];
        if d.table.awaits(w) {
            let next = DispatchModel {
                waiters: d.waiters.drop_first(),
                queue: d.queue.drop_first(),
                table: d.table.delivered(w, p),
            };
            deliveries_bring_the_datagram(d.table, w, p);
            waiting_datagrams_go_out_in_order(next);
            let m = next.queue.len() - r.queue.len();
            let gone = next.waiters.len() - r.waiters.len();
            let n = d.queue.len() - r.queue.len();
            let all = r.table.deliveries;
            assert(d.queue.skip(m + 1) =~= next.queue.skip(m));
            assert(d.waiters.skip(gone + 1) =~= next.waiters.skip(gone));
            assert(all.take(base + 1) == next.table.deliveries);
            assert(all[base] == all.take(base + 1)[base]);
            assert(all[base] == next.table.deliveries.last());
            assert(all.take(base) =~= d.table.deliveries) by {
                assert forall|k: int| 0 <= k < base implies all[k] == d.table.deliveries[k] by {
                    assert(all.take(base + 1)[k] == all[k]);
                }
            }
            assert forall|k: int| 0 <= k < n implies {
                &&& chunk_of(#[trigger] all[base + k]) == d.queue[k].chunk
                &&& brought(all[base + k]) <= d.queue[k].len
                &&& all[base + k] matches Delivery::Hand { len, peer, .. } ==> len
                    == d.queue[k].len && peer == d.queue[k].peer
            } by {
                if k > 0 {
                    let e = next.table.deliveries.len();
                    assert(e + (k - 1) == base + k);
                    assert(chunk_of(all[e + (k - 1)]) == next.queue[k - 1].chunk);
                }
            }
        } else {
            let next = DispatchModel { waiters: d.waiters.drop_first(), ..d };
            waiting_datagrams_go_out_in_order(next);
            let gone = next.waiters.len() - r.waiters.len();
            assert(d.waiters.skip(gone + 1) =~= next.waiters.skip(gone));
        }
    }
}

/// An operation that asks for a datagram gets the oldest one that waits; where none waits it
/// joins the end of the line. Only a running pool serves.
pub proof fn the_oldest_datagram_is_served_first<P>(
    m: PoolModel,
    after: PoolModel,
    before_table: TableModel<P>,
    after_table: TableModel<P>,
    before_contexts: &RequestContexts,
    after_contexts: &RequestContexts,
    actor: ActorKey,
    task: PoolTask,
    w: UdpWaiter,
    step: PoolStep,
)
    requires
        task.todo@.len() > 0,
        task.todo@.last() == (Stage::Serve { waiter: w }),
        m.advanced(
            after,
            before_table,
            after_table,
            before_contexts,
            after_contexts,
            actor,
            &task,
            step,
        ),
    ensures
        m.state is Running && m.queue.len() > 0 ==> {
            &&& step matches PoolStep::Next { task: t }
            &&& t.served == Some(m.queue[0])
            &&& after.queue.len() == m.queue.len() - 1
            &&& forall|k: int| 0 <= k < after.queue.len() ==> #[trigger] after.queue[k] == m.queue[k
                + 1]
            &&& after.waiters == m.waiters
        },
        m.state is Running && m.queue.len() == 0 ==> {
            &&& step matches PoolStep::Next { task: t }
            &&& t.served == task.served
            &&& after.queue == m.queue
            &&& after.waiters.len() == m.waiters.len() + 1
            &&& after.waiters.last() == w
            &&& after.waiters.drop_last() == m.waiters
            &&& t.todo@.contains(Stage::Rebalance)
        },
        !(m.state is Running) ==> step is Failed && after == m,
        after.slots == m.slots && after.slab == m.slab && after.tokens == m.tokens,
        after_table == before_table,
{
    if m.state is Running {
        if let PoolStep::Next { task: t } = step {
            assert(t.todo@.last() == Stage::Rebalance);
            assert(t.todo@[t.todo@.len() - 1] == Stage::Rebalance);
        }
    }
}

/// A pool asks for memory for 272 chunks of the size that it was set up with, has it
/// registered all at once, and has every chunk to give out then.
pub proof fn pools_start_with_all_their_chunks(
    m: PoolModel,
    after: PoolModel,
    before_contexts: &RequestContexts,
    after_contexts: &RequestContexts,
    actor: ActorKey,
    task: PoolTask,
    size: usize,
    answer: Answer,
    step: PoolStep,
)
    requires
        task.todo@.len() > 0,
        size * 272 <= usize::MAX,
        m.answered(after, before_contexts, after_contexts, actor, &task, answer, step),
        answer.value != 0,
    ensures
        task.todo@.last() == (Stage::SlabAllocated { chunk_size: size }) ==> (
        step matches PoolStep::Ask { ask: PoolAsk::RegisterSlab { ptr, len }, .. } && ptr
            == answer.value && len == size * 272 && after == m),
        task.todo@.last() == (Stage::SlabRegistered { chunk_size: size }) ==> {
            &&& after.state is Running
            &&& after.slab matches Some(slab)
            &&& slab.rio_id.id == answer.value && slab.chunk_size == size
            &&& slab.free.len() == 272
            &&& forall|k: int| 0 <= k < 272 ==> #[trigger] slab.free[k] == k
            &&& after.queue == m.queue && after.waiters == m.waiters && after.slots == m.slots
            &&& step is Next
        },
{
}

/// A refused request leaves its slot without one: the slot is gone again if the request was
/// its first, with its chunk free, and keeps its chunk otherwise. The refusal is passed on
/// with its number, and nothing waits under its context.
pub proof fn refused_requests_leave_nothing_behind(
    m: PoolModel,
    after: PoolModel,
    before_contexts: &RequestContexts,
    after_contexts: &RequestContexts,
    actor: ActorKey,
    task: PoolTask,
    key: SlotKey,
    token: u32,
    context: u64,
    growth: Option<usize>,
    answer: Answer,
    step: PoolStep,
)
    requires
        m.wf(),
        task.todo@.len() > 0,
        task.todo@.last() == (Stage::Received { key, token, context, growth }),
        task.fits(m),
        m.answered(after, before_contexts, after_contexts, actor, &task, answer, step),
    ensures
        answer.value == 0 ==> {
            &&& !after.tokens.contains_key(token)
            &&& after_contexts.lookup(context) is None
            &&& step matches PoolStep::Failed { failure, .. }
            &&& failure.code == Some(answer.error)
            &&& growth is Some ==> !after.slots.contains_key(key) && after.free().contains(
                m.slots[key].current_idx,
            )
            &&& growth is None ==> after.slots.contains_key(key) && !after.slots[key].in_flight
                && after.slots[key].current_idx == m.slots[key].current_idx
        },
        answer.value != 0 ==> {
            &&& after == m
            &&& step matches PoolStep::Next { task: t }
            &&& t.submissions == task.submissions + 1
        },
        after.queue == m.queue && after.waiters == m.waiters,
{
    if answer.value == 0 && growth is Some {
        assert(after.free()[0] == m.slots[key].current_idx);
    }
}

} // verus!
