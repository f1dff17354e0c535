//! What holds of the upkeep of receive pools and registrations.
use vstd::prelude::*;
use crate::fxmap::no_entries;
use crate::iocp::buffer::IocpBuffer;
use crate::iocp::net::AF_INET6;
use crate::iocp::op::socket_key_spec;
use crate::iocp::table::TableModel;
use crate::sockaddr::{decoded_is_unique, decodes_to, AddrError, ByteOrder, SocketAddr};
use super::actors::ActorModel;
use super::contexts::{RequestContexts, RioCompletionKind};
use super::control::{pool_done, retired};
use super::kernel::{RioBuf, RioBufferId, RioResult, RioRq};
use super::keys::{ActorKey, SlotKey};
use super::lifecycle::drained_one;
use super::pool::{Answer, PoolModel, UdpWaiterKind};
use super::pool_delivery::rio_address;
use super::pool_steps::{PoolAsk, PoolStep, PoolTask, Stage};
use super::registry::{heap_given_up, heap_listing, Lookup, Registrand, RioRegistry};
use super::state::{rq_depth_for, ActorsModel, RioState};
use super::submit::{RioAsk, RioRequest, RioStage, RioStep, RioWork};
use super::tokens::{free_token, steps};

verus! {

/// The number of requests that a running pool wants follows the demand, within 2 and 16: up
/// by one for each operation that waits, four at most, and down by one at a time after 64
/// looks at which nothing waited on either side. It stays when only datagrams wait.
pub proof fn requests_follow_the_demand(m: PoolModel, after: PoolModel, task: PoolTask, step: PoolStep)
    requires
        m.wf(),
        m.state is Running,
        m.looked_at(after, &task, step),
    ensures
        2 <= after.target_credits <= 16,
        m.waiters.len() > 0 ==> {
            &&& after.target_credits >= m.target_credits
            &&& after.target_credits - m.target_credits <= 4
            &&& after.target_credits - m.target_credits <= m.waiters.len()
            &&& after.target_credits < 16 ==> after.target_credits - m.target_credits == (
            if m.waiters.len() < 4 {
                m.waiters.len() as int
            } else {
                4
            })
            &&& after.idle_hits == 0
        },
        m.waiters.len() == 0 && m.queue.len() > 0 ==> after.target_credits == m.target_credits
            && after.idle_hits == 0,
        m.waiters.len() == 0 && m.queue.len() == 0 && m.idle_hits < 63 ==> after.target_credits
            == m.target_credits && after.idle_hits == m.idle_hits + 1,
        m.waiters.len() == 0 && m.queue.len() == 0 && m.idle_hits >= 63 && m.target_credits > 2 ==> {
            &&& after.target_credits == m.target_credits - 1
            &&& after.idle_hits == 0
        },
        step matches PoolStep::Next { task: t } && t.todo@.last() == (Stage::Grow {
            target: after.target_credits,
        }) && t.todo@.contains(Stage::Trim),
        after.slots == m.slots && after.slab == m.slab && after.tokens == m.tokens && after.queue
            == m.queue && after.waiters == m.waiters && after.state == m.state,
{
    if let PoolStep::Next { task: t } = step {
        assert(t.todo@[t.todo@.len() - 2] == Stage::Trim);
    }
}

/// Only a running pool asks the system for anything by itself.
pub proof fn only_running_pools_make_requests<P>(
    m: PoolModel,
    after: PoolModel,
    before_table: TableModel<P>,
    after_table: TableModel<P>,
    before_contexts: &RequestContexts,
    after_contexts: &RequestContexts,
    actor: ActorKey,
    task: PoolTask,
    step: PoolStep,
)
    requires
        task.fits(m),
        m.advanced(
            after,
            before_table,
            after_table,
            before_contexts,
            after_contexts,
            actor,
            &task,
            step,
        ),
        step is Ask,
    ensures
        m.state is Running,
{
}

/// A pool grows one slot at a time, up to the number wanted, as long as a chunk is free. The
/// chunk that is set aside for the slot is free no longer.
pub proof fn pools_grow_while_chunks_are_free<P>(
    m: PoolModel,
    after: PoolModel,
    before_table: TableModel<P>,
    after_table: TableModel<P>,
    before_contexts: &RequestContexts,
    after_contexts: &RequestContexts,
    actor: ActorKey,
    task: PoolTask,
    target: usize,
    step: PoolStep,
)
    requires
        m.wf(),
        task.todo@.len() > 0,
        task.todo@.last() == (Stage::Grow { target }),
        m.advanced(
            after,
            before_table,
            after_table,
            before_contexts,
            after_contexts,
            actor,
            &task,
            step,
        ),
    ensures
        step is Ask <==> m.state is Running && m.slots.len() < target && m.free().len() > 0,
        step matches PoolStep::Ask { ask, task: t } ==> {
            &&& ask matches PoolAsk::RegisterAddr { len } && len == 128
            &&& t.todo@.last() matches Stage::AddrRegistered { chunk, target: n }
            &&& n == target
            &&& m.free().contains(chunk) && !after.free().contains(chunk)
            &&& after.free().len() == m.free().len() - 1
            &&& after.slots == m.slots
        },
        !(step is Ask) ==> after == m,
{
    if m.free().len() > 0 {
        assert(m.free().contains(m.free()[0]));
        if step is Ask {
            assert(after.free() =~= m.free().drop_first());
            if after.free().contains(m.free()[0]) {
                let i = after.free().index_of(m.free()[0]);
                assert(m.free()[i + 1] == m.free()[0]);
            }
        }
    }
}

/// A pool gives up slots beyond the number wanted, and only such as have no request under
/// way; nothing else of the pool changes.
pub proof fn pools_shrink_to_what_is_wanted<P>(
    m: PoolModel,
    after: PoolModel,
    before_table: TableModel<P>,
    after_table: TableModel<P>,
    before_contexts: &RequestContexts,
    after_contexts: &RequestContexts,
    actor: ActorKey,
    task: PoolTask,
    step: PoolStep,
    k: SlotKey,
)
    requires
        m.wf(),
        task.todo@.len() > 0,
        task.todo@.last() == Stage::Trim,
        m.advanced(
            after,
            before_table,
            after_table,
            before_contexts,
            after_contexts,
            actor,
            &task,
            step,
        ),
    ensures
        after.slots.contains_key(k) ==> m.slots.contains_key(k) && after.slots[k] == m.slots[k],
        m.slots.contains_key(k) && m.slots[k].in_flight ==> after.slots.contains_key(k),
        m.state is Running && m.slots.len() <= m.target_credits ==> after.slots == m.slots,
        m.state is Running && after.slots.len() > m.target_credits && after.slots.contains_key(k)
            ==> after.slots[k].in_flight,
        !(m.state is Running) && after.slots.contains_key(k) ==> after.slots[k].in_flight,
        after.queue == m.queue && after.waiters == m.waiters && after.tokens == m.tokens
            && after.slab == m.slab && after.state == m.state,
{
    let gone = choose|gone: Seq<SlotKey>| #[trigger] m.trimmed_by(after, gone);
    if gone.to_set().contains(k) {
        assert(gone[gone.index_of(k)] == k);
    }
    if m.state is Running && m.slots.len() <= m.target_credits {
        if gone.len() > 0 {
            let g = gone[0];
            assert(gone.to_set().contains(g));
            assert(m.slots.dom().contains(g));
            assert(after.slots.dom().subset_of(m.slots.dom().remove(g)));
            vstd::set_lib::lemma_len_subset(after.slots.dom(), m.slots.dom().remove(g));
        } else {
            assert(gone.to_set() =~= Set::<SlotKey>::empty());
            assert(after.slots =~= m.slots);
        }
    }
}

/// After a datagram the pool hands out what waits and looks at the demand. Its slot makes
/// another request exactly if nobody told it to stop and no more slots exist than are wanted.
pub proof fn slots_go_on_while_they_are_wanted<P>(
    m: PoolModel,
    table: TableModel<P>,
    token: u32,
    res: RioResult,
    peer: SocketAddr,
)
    requires
        m.wf(),
        m.tokens.contains_key(token),
        m.state is Running,
        m.waiters.len() == 0,
        m.free().len() > 0,
        res.status == 0,
        res.bytes_transferred > 0,
    ensures
        m.completed(table, token, res, peer).2 matches Ok(todo) && {
            let key = m.tokens[token];
            &&& todo.contains(Stage::Dispatch) && todo.contains(Stage::Rebalance)
            &&& todo.contains(Stage::Resubmit { key }) <==> !m.slots[key].stop_requested
                && m.slots.len() <= m.target_credits
            &&& todo.last() == Stage::Dispatch || todo.last() == (Stage::Resubmit { key })
        },
{
    let key = m.tokens[token];
    assert(m.slots.contains_key(key));
    let todo = m.completed(table, token, res, peer).2->Ok_0;
    assert(todo[0] == Stage::Rebalance && todo[1] == Stage::Dispatch);
    if todo.len() == 3 {
        assert(todo[2] == (Stage::Resubmit { key }));
    }
    assert(m.request_ended(key).slots.dom() =~= m.slots.dom());
}

/// A pool that is shut down makes no more requests, keeps the datagrams that wait, and is
/// closed once no request is under way, and not before.
pub proof fn pools_close_when_their_requests_have_ended(m: PoolModel)
    requires
        m.wf(),
    ensures
        !(m.draining().state is Running),
        m.draining().target_credits == 0,
        m.draining().queue == m.queue && m.draining().waiters == m.waiters
            && m.draining().tokens == m.tokens,
        m.state is Running ==> (m.draining().drain_checked().state is Closed <==> forall|k: SlotKey| #[trigger]
            m.slots.contains_key(k) ==> !m.slots[k].in_flight),
        m.draining().drain_checked().slots == m.draining().slots,
{
    let d = m.draining();
    assert(d.slots.dom() =~= m.slots.dom());
    assert forall|k: SlotKey| #[trigger] m.slots.contains_key(k) implies d.slots.contains_key(k)
        && d.slots[k].in_flight == m.slots[k].in_flight by {}
    if m.state is Running {
        if d.idle() {
            assert forall|k: SlotKey| #[trigger]
                m.slots.contains_key(k) implies !m.slots[k].in_flight by {
                assert(d.slots.contains_key(k));
            }
        }
        if forall|k: SlotKey| #[trigger] m.slots.contains_key(k) ==> !m.slots[k].in_flight {
            assert forall|k: SlotKey| #[trigger]
                d.slots.contains_key(k) implies !d.slots[k].in_flight by {
                assert(m.slots.contains_key(k));
            }
        }
    }
}

/// What a pool gives back in the end is what it has registered: one buffer for the addresses
/// of each slot, and its memory.
pub proof fn pools_give_back_what_they_registered(m: PoolModel, ids: Seq<RioBufferId>, k: SlotKey)
    requires
        m.slots.dom().finite(),
        m.registrations(ids),
    ensures
        m.slots.contains_key(k) ==> ids.contains(m.slots[k].addr_buf_id),
        m.slab matches Some(slab) ==> ids.contains(slab.rio_id),
        ids.len() == m.slots.len() + (if m.slab is Some {
            1int
        } else {
            0int
        }),
{
    let tail = match m.slab {
        Some(slab) => seq![slab.rio_id],
        None => Seq::<RioBufferId>::empty(),
    };
    let keys = choose|keys: Seq<SlotKey>| #[trigger] m.listed(keys) && ids == m.addr_bufs(keys)
        + tail;
    if m.slots.contains_key(k) {
        assert(keys.to_set().contains(k));
        let j = keys.index_of(k);
        assert(ids[j] == m.slots[k].addr_buf_id);
    }
    if m.slab is Some {
        assert(ids[keys.len() as int] == m.slab->Some_0.rio_id);
    }
    keys.unique_seq_to_set();
}

/// While everything is drained, a completion of a receive pool ends that request alone: its
/// token is forgotten, one request less is outstanding, and no operation is told. The pool is
/// gone with its socket once it has no request under way.
pub proof fn drained_requests_are_forgotten(
    before: RioState,
    after: RioState,
    res: RioResult,
    released: Seq<RioBufferId>,
    actor: ActorKey,
    token: u32,
)
    requires
        drained_one(&before, &after, res, released),
        before.contexts.lookup(res.request_context) == Some(
            RioCompletionKind::Pool { actor_key: actor, generation: token },
        ),
        before.actors_model().contains_key(actor),
    ensures
        after.contexts.lookup(res.request_context) is None,
        before.outstanding_count > 0 ==> after.outstanding_count == before.outstanding_count - 1,
        before.outstanding_count == 0 ==> after.outstanding_count == 0,
        after.actors_model().contains_key(actor) ==> {
            &&& !after.actors_model()[actor].pool.tokens.contains_key(token)
            &&& after.actors_model()[actor].pool.slots == before.actors_model()[actor].pool.slots
            &&& after.actors_model()[actor].pool.queue == before.actors_model()[actor].pool.queue
            &&& released.len() == 0
        },
        after.registry == before.registry,
{
}

/// When a socket gives registered I/O up, no request goes to its actor any more. A pool that
/// was never used is gone at once; one that was makes no more requests and stays until those
/// under way have ended. Nothing happens to other sockets.
pub proof fn ended_sockets_make_no_more_requests(
    before: ActorsModel,
    after: ActorsModel,
    handle: (usize, usize, u64),
    released: Seq<RioBufferId>,
    other: (usize, usize, u64),
    k: ActorKey,
)
    requires
        before.socket_ended(after, true, handle, released),
        before.index.contains_key(handle),
        before.actors.contains_key(before.index[handle]),
        before.actors[before.index[handle]].pool.wf(),
    ensures
        !after.index.contains_key(handle),
        other != handle ==> (after.index.contains_key(other) <==> before.index.contains_key(other)),
        other != handle && before.index.contains_key(other) ==> after.index[other]
            == before.index[other],
        k != before.index[handle] ==> (after.actors.contains_key(k) <==> before.actors.contains_key(
            k,
        )),
        k != before.index[handle] && before.actors.contains_key(k) ==> after.actors[k]
            == before.actors[k],
        before.actors[before.index[handle]].pool.state is Uninitialized ==> !after.actors.contains_key(
            before.index[handle],
        ),
        after.actors.contains_key(before.index[handle]) ==> {
            &&& !(after.actors[before.index[handle]].pool.state is Running)
            &&& after.actors[before.index[handle]].pool.target_credits == 0
            &&& after.actors[before.index[handle]].pool.queue
                == before.actors[before.index[handle]].pool.queue
            &&& released.len() == 0
        },
{
}

/// The sender of a datagram is who the system says it is, where that can be read, and nobody
/// otherwise: the address 0.0.0.0 without a port.
pub proof fn senders_are_read_or_nobody(order: ByteOrder, name: Seq<u8>, a: SocketAddr)
    ensures
        decodes_to(order, 23, name, Ok(a)) ==> rio_address(order, name) == a,
        (exists|e: AddrError| decodes_to(order, 23, name, Err(e))) ==> (rio_address(order, name)
            matches SocketAddr::V4(v) && v.port == 0 && v.ip@ == seq![0u8, 0u8, 0u8, 0u8]),
{
    if decodes_to(order, 23, name, Ok(a)) {
        decoded_is_unique(order, AF_INET6, name, Ok(a));
    }
    if exists|e: AddrError| decodes_to(order, 23, name, Err(e)) {
        let e = choose|e: AddrError| decodes_to(order, 23, name, Err(e));
        decoded_is_unique(order, AF_INET6, name, Err(e));
        assert([0u8, 0u8, 0u8, 0u8]@ =~= seq![0u8, 0u8, 0u8, 0u8]);
    }
}

/// A heap buffer that is registered is found under that registration. One whose registration
/// failed less than a quarter of a second ago is refused without another try. Any other is to
/// be registered; when 1024 are registered already, all of them are given up first, and every
/// one of their registrations waits for deregistration.
pub proof fn heap_buffers_are_registered_within_bounds(
    before: RioRegistry,
    after: RioRegistry,
    buf: IocpBuffer,
    now: u64,
    r: Lookup,
    key: (usize, usize, u64),
)
    requires
        before.heap_looked_up(&after, buf, now, r),
        key == (buf.ptr, buf.capacity, buf.cookie),
    ensures
        before.heap_rio_bufs@.contains_key(key) ==> r == Lookup::Known(before.heap_rio_bufs@[key]),
        !before.heap_rio_bufs@.contains_key(key)
            && before.heap_register_failures_recent@.contains_key(key) && now
            < before.heap_register_failures_recent@[key] + 250_000_000 ==> {
            &&& r is Failed
            &&& after.heap_rio_bufs@ == before.heap_rio_bufs@
            &&& after.pending_deregistrations@ == before.pending_deregistrations@
        },
        !before.heap_rio_bufs@.contains_key(key)
            && before.heap_register_failures_recent@.contains_key(key) && now
            >= before.heap_register_failures_recent@[key] + 250_000_000 ==> r is Register,
        !before.heap_rio_bufs@.contains_key(key)
            && !before.heap_register_failures_recent@.contains_key(key) ==> (r
            matches Lookup::Register { what, range } && what == (Registrand::Heap { key })
            && range.ptr == buf.ptr && range.len == buf.capacity),
        r is Register && before.heap_rio_bufs@.len() < 1024 ==> after.heap_rio_bufs@
            == before.heap_rio_bufs@ && after.pending_deregistrations@
            == before.pending_deregistrations@,
        r is Register && before.heap_rio_bufs@.len() >= 1024 ==> no_entries(after.heap_rio_bufs@),
        after.chunk_registry@ == before.chunk_registry@ && after.slab_rio_pages@
            == before.slab_rio_pages@,
{
}

/// Every registration that is given up waits for deregistration, behind those that wait.
pub proof fn given_up_registrations_wait(
    bufs: Map<(usize, usize, u64), RioBufferId>,
    before: Seq<RioBufferId>,
    after: Seq<RioBufferId>,
    key: (usize, usize, u64),
)
    requires
        heap_given_up(bufs, before, after),
        bufs.dom().finite(),
    ensures
        before.is_prefix_of(after),
        after.len() == before.len() + bufs.len(),
        bufs.contains_key(key) ==> after.skip(before.len() as int).contains(bufs[key]),
{
    let keys = choose|keys: Seq<(usize, usize, u64)>| #[trigger]
        heap_listing(bufs, keys) && after == before + keys.map_values(
            |k: (usize, usize, u64)| bufs[k],
        );
    let more = keys.map_values(|k: (usize, usize, u64)| bufs[k]);
    assert(after.skip(before.len() as int) =~= more);
    keys.unique_seq_to_set();
    if bufs.contains_key(key) {
        assert(keys.to_set().contains(key));
        assert(more[keys.index_of(key)] == bufs[key]);
    }
}

/// A chunk or a heap buffer whose registration is refused is not found afterwards, and is
/// left alone from then on for a quarter of a second; one that is registered is tried again
/// whenever it is needed.
pub proof fn refused_registrations_are_left_alone(
    before: RioRegistry,
    after: RioRegistry,
    key: (usize, usize, u64),
    answer: Answer,
    now: u64,
    then: u64,
)
    requires
        before.registration_noted(&after, Registrand::Heap { key }, answer, now),
    ensures
        answer.value == 0 ==> {
            &&& after.heap_rio_bufs@ == before.heap_rio_bufs@
            &&& after.heap_cooling(key, then) <==> then < now + 250_000_000
        },
        answer.value != 0 ==> {
            &&& after.heap_rio_bufs@.contains_key(key) && after.heap_rio_bufs@[key].id
                == answer.value
            &&& !after.heap_cooling(key, then)
        },
        after.pending_deregistrations@ == before.pending_deregistrations@,
{
}

/// The depth of request queues is the number of entries, kept within 32 and 64.
pub proof fn queues_are_neither_shallow_nor_deep(entries: u32)
    ensures
        32 <= rq_depth_for(entries) <= 64,
        32 <= entries <= 64 ==> rq_depth_for(entries) == entries,
        entries < 32 ==> rq_depth_for(entries) == 32,
        entries > 64 ==> rq_depth_for(entries) == 64,
{
}

/// No chunk is lost: a datagram that is queued takes one free chunk for its slot, and one
/// that pushes out the oldest datagram takes over its chunk or frees it.
pub proof fn queueing_keeps_all_chunks<P>(
    m: PoolModel,
    table: TableModel<P>,
    token: u32,
    res: RioResult,
    peer: SocketAddr,
)
    requires
        m.wf(),
        m.tokens.contains_key(token),
        m.state is Running,
        m.waiters.len() == 0,
        res.status == 0,
        res.bytes_transferred > 0,
    ensures
        ({
            let key = m.tokens[token];
            let after = m.completed(table, token, res, peer).0;
            &&& m.queue.len() < 256 && m.free().len() > 0 ==> after.free() == m.free().drop_first()
                && after.slots[key].current_idx == m.free()[0] && after.queue.len()
                == m.queue.len() + 1
            &&& m.queue.len() < 256 && m.free().len() == 0 ==> after.free().len() == 0
                && after.queue == m.queue && after.slots[key].current_idx
                == m.slots[key].current_idx
            &&& m.queue.len() >= 256 ==> {
                &&& after.free().len() == m.free().len() && after.queue.len() == m.queue.len()
                &&& after.free().contains(m.queue[0].chunk) || after.slots[key].current_idx
                    == m.queue[0].chunk
            }
        }),
{
    let key = m.tokens[token];
    assert(m.slots.contains_key(key));
    let after = m.completed(table, token, res, peer).0;
    if m.queue.len() >= 256 {
        let room = m.free().push(m.queue[0].chunk);
        assert(after.free() =~= room.drop_first());
        if m.free().len() > 0 {
            assert(after.free()[after.free().len() - 1] == m.queue[0].chunk);
        } else {
            assert(room[0] == m.queue[0].chunk);
        }
    }
}

/// A completion without a datagram still has the pool hand out what waits and look at the
/// demand, as long as the pool runs; its slot makes no further request by itself. One that
/// was delivered directly makes another request exactly if nobody told the slot to stop and
/// no more slots exist than are wanted. A pool that does not run does nothing more.
pub proof fn completions_are_followed_up<P>(
    m: PoolModel,
    table: TableModel<P>,
    token: u32,
    res: RioResult,
    peer: SocketAddr,
)
    requires
        m.wf(),
        m.tokens.contains_key(token),
    ensures
        ({
            let key = m.tokens[token];
            let (after, t, todo) = m.completed(table, token, res, peer);
            &&& res.status != 0 || res.bytes_transferred == 0 ==> (todo matches Ok(s) && {
                &&& m.state is Running ==> s == seq![Stage::Rebalance, Stage::Dispatch]
                &&& !(m.state is Running) ==> s.len() == 0
            })
            &&& t.deliveries.len() > table.deliveries.len() ==> (todo matches Ok(s) && if
            !m.slots[key].stop_requested && m.slots.len() <= m.target_credits {
                s == seq![Stage::Resubmit { key }]
            } else {
                s.len() == 0
            })
            &&& res.bytes_transferred > 0 && res.status == 0 && m.waiters.len() > 0
                && m.slab is Some && res.bytes_transferred > m.slab->Some_0.chunk_size ==> (
            todo matches Err(failure) && failure.error is Internal && failure.code is None)
        }),
{
    let key = m.tokens[token];
    assert(m.slots.contains_key(key));
}

/// An actor that is retired takes no more requests, and its pool makes none: nothing more is
/// wanted, and every slot with a request under way stops after it. What waits there waits on,
/// and the actor keeps its socket and its queue.
pub proof fn retired_actors_make_no_more_requests(a: ActorModel, k: SlotKey)
    ensures
        retired(a).state is Draining,
        retired(a).handle == a.handle && retired(a).rq == a.rq,
        !(retired(a).pool.state is Running),
        a.pool.state is Running ==> retired(a).pool.state is Draining,
        retired(a).pool.target_credits == 0,
        retired(a).pool.free().len() == 0,
        retired(a).pool.slots.contains_key(k) <==> a.pool.slots.contains_key(k),
        a.pool.slots.contains_key(k) ==> {
            &&& retired(a).pool.slots[k].in_flight == a.pool.slots[k].in_flight
            &&& retired(a).pool.slots[k].current_idx == a.pool.slots[k].current_idx
            &&& retired(a).pool.slots[k].addr_buf_id == a.pool.slots[k].addr_buf_id
            &&& a.pool.slots[k].in_flight ==> retired(a).pool.slots[k].stop_requested
        },
        retired(a).pool.queue == a.pool.queue && retired(a).pool.waiters == a.pool.waiters
            && retired(a).pool.tokens == a.pool.tokens,
{
}

/// The first operation that wants a datagram of a socket has the pool ask for the memory of
/// 272 chunks, each as large as the operation wants, and 2048 bytes at least; once there is a
/// pool, the operation is served by it. Either way it is the operation itself that waits.
pub proof fn pools_are_set_up_for_their_first_operation(
    before: RioState,
    after: RioState,
    work: RioWork,
    actor: ActorKey,
    rq: RioRq,
    now: u64,
    step: RioStep,
    wanted: UdpWaiterKind,
    size: usize,
)
    requires
        work.request == (RioRequest::Pool { kind: wanted, chunk_size: size }),
        before.data_sought(&after, &work, actor, rq, now, &step),
    ensures
        before.actors_model()[actor].pool.state is Uninitialized && size <= 2048 ==> (
        step matches RioStep::Ask {
            ask: RioAsk::Pool { rq: q, ask: PoolAsk::AllocateSlab { len } },
            ..
        } && q == rq && len == 2048 * 272),
        before.actors_model()[actor].pool.state is Uninitialized && size > 2048 && size * 272
            <= usize::MAX ==> (step matches RioStep::Ask {
            ask: RioAsk::Pool { rq: q, ask: PoolAsk::AllocateSlab { len } },
            ..
        } && q == rq && len == size * 272),
        before.actors_model()[actor].pool.state is Uninitialized && size * 272 > usize::MAX && size
            > 2048 ==> step is Failed,
        !(before.actors_model()[actor].pool.state is Uninitialized) ==> step is Next,
        step matches RioStep::Next { work: w } ==> (w.stage matches RioStage::Pool {
            actor: a,
            rq: q,
            task,
        } && a == actor && q == rq && task.todo@.len() > 0 && (task.todo@[0] matches Stage::Serve {
            waiter,
        } && waiter.user_data == work.target.user_data && waiter.generation
            == work.target.generation && waiter.kind == wanted)),
        step matches RioStep::Ask { work: w, .. } ==> (w.stage matches RioStage::Pool {
            actor: a,
            rq: q,
            task,
        } && a == actor && q == rq && task.todo@.len() > 0 && (task.todo@[0] matches Stage::Serve {
            waiter,
        } && waiter.user_data == work.target.user_data && waiter.generation
            == work.target.generation && waiter.kind == wanted)),
        after.actors_model() == before.actors_model(),
{
}

/// A pool that has its memory wants four requests at first.
pub proof fn pools_start_with_four_requests(
    m: PoolModel,
    after: PoolModel,
    before_contexts: &RequestContexts,
    after_contexts: &RequestContexts,
    actor: ActorKey,
    task: PoolTask,
    size: usize,
    answer: Answer,
    step: PoolStep,
)
    requires
        task.todo@.len() > 0,
        task.todo@.last() == (Stage::SlabRegistered { chunk_size: size }),
        m.answered(after, before_contexts, after_contexts, actor, &task, answer, step),
    ensures
        answer.value != 0 ==> {
            &&& after.target_credits == 4 && after.idle_hits == 0
            &&& step matches PoolStep::Next { task: t } && t.todo@ == task.todo@.drop_last().push(
                Stage::Grow { target: 4 },
            )
        },
        answer.value == 0 ==> {
            &&& after == m
            &&& step matches PoolStep::Failed { failure, .. } && failure.code == Some(answer.error)
        },
{
}

/// A chunk that was set aside for a new slot is free again when the slot comes to nothing, and
/// an address buffer that was registered for it has to be deregistered.
pub proof fn slots_that_come_to_nothing_free_their_chunk(
    m: PoolModel,
    after: PoolModel,
    before_contexts: &RequestContexts,
    after_contexts: &RequestContexts,
    actor: ActorKey,
    task: PoolTask,
    chunk: u32,
    target: usize,
    answer: Answer,
    step: PoolStep,
)
    requires
        m.slab is Some,
        task.todo@.len() > 0,
        task.todo@.last() == (Stage::AddrRegistered { chunk, target }),
        m.answered(after, before_contexts, after_contexts, actor, &task, answer, step),
        answer.value == 0 || !before_contexts.has_room(),
    ensures
        after.free().contains(chunk) && after.free().len() == m.free().len() + 1,
        after.slots == m.slots && after.tokens == m.tokens && after.queue == m.queue
            && after.waiters == m.waiters,
        step matches PoolStep::Failed { failure, task: t } && {
            &&& answer.value == 0 ==> failure.code == Some(answer.error) && t.released@
                == task.released@
            &&& answer.value != 0 ==> failure.code is None && failure.error is ResourceExhaustion
                && t.released@ == task.released@.push(RioBufferId { id: answer.value })
        },
{
    assert(after.free() =~= seq![chunk] + m.free());
    assert(after.free()[0] == chunk);
}

/// A request is refused, and nothing changes, when there is no context left for it: that is a
/// lack of resources, without a number of the system.
pub proof fn requests_need_a_context(
    before: RioState,
    after: RioState,
    work: RioWork,
    rq: RioRq,
    data: RioBuf,
    addr: Option<RioBuf>,
    step: RioStep,
)
    requires
        before.requested(&after, &work, rq, data, addr, &step),
    ensures
        step is Ask <==> before.contexts.has_room(),
        !before.contexts.has_room() ==> (step matches RioStep::Failed { failure, released }
            && failure.error is ResourceExhaustion && failure.code is None && released@.len() == 0),
        after.outstanding_count == before.outstanding_count,
        after.registry == before.registry && after.actors == before.actors,
{
}

/// A socket that has left registered I/O is served there no more: a receive or a send on it is
/// refused as not supported. A send to an address still goes there.
pub proof fn sockets_that_left_are_refused(
    before: RioState,
    after: RioState,
    work: RioWork,
    actor: ActorKey,
    rq: RioRq,
    now: u64,
    step: RioStep,
)
    requires
        before.data_sought(&after, &work, actor, rq, now, &step),
        before.sockets.of(socket_key_spec(work.target.handle)).fallback,
    ensures
        work.request is Recv || work.request is Send ==> (step matches RioStep::Failed {
            failure,
            released,
        } && failure.error is NotSupported && failure.code is None && released@.len() == 0
            && after.registry == before.registry),
{
}

/// When the last request of a pool that is shut down has ended, everything that the pool
/// registered has to be deregistered: its memory and the address buffer of each slot.
pub proof fn shut_down_pools_give_everything_back(
    before: RioState,
    after: RioState,
    actor: ActorKey,
    token: u32,
    released: Seq<RioBufferId>,
    k: SlotKey,
)
    requires
        pool_done(&before, &after, actor, token, released),
        before.kernel.dispatch,
        before.actors_model().contains_key(actor),
        before.actors_model()[actor].pool.slots.dom().finite(),
    ensures
        ({
            let pool = before.actors_model()[actor].pool;
            &&& !after.actors_model().contains_key(actor) ==> {
                &&& pool.slots.contains_key(k) ==> released.contains(pool.slots[k].addr_buf_id)
                &&& pool.slab matches Some(slab) ==> released.contains(slab.rio_id)
            }
            &&& after.actors_model().contains_key(actor) <==> !(pool.state is Closed || (
            pool.state is Draining && pool.idle()))
            &&& after.actors_model().contains_key(actor) ==> released.len() == 0
        }),
{
    let pool = before.actors_model()[actor].pool.acknowledged(token).drain_checked();
    if pool.state is Closed {
        pools_give_back_what_they_registered(pool, released, k);
    }
    let acked = before.actors_model()[actor].pool.acknowledged(token);
    assert(acked.slots == before.actors_model()[actor].pool.slots);
}

/// Tokens go round: the search for the next one starts behind the last, so that a token that
/// has just been given back is not taken again while others are free. A token stands for the
/// request of the slot it was taken for.
pub proof fn tokens_go_round(m: PoolModel, key: SlotKey, token: u32, next: u32, other: u32)
    requires
        m.next_token(token),
        m.submitted(key, token).acknowledged(token).next_token(next),
        free_token(m.tokens, other),
        other != token,
    ensures
        token != 0 && !m.tokens.contains_key(token),
        m.submitted(key, token).tokens.contains_key(token),
        m.submitted(key, token).tokens[token] == key,
        m.submitted(key, token).slots[key].in_flight,
        next != token,
{
    let after = m.submitted(key, token).acknowledged(token);
    assert(after.tokens =~= m.tokens);
    assert(free_token(after.tokens, other));
    assert(free_token(after.tokens, token));
    assert(steps(after.next_ctx, token) == 0xffff_ffff);
    assert(steps(after.next_ctx, other) < 0xffff_ffff);
}

} // verus!
