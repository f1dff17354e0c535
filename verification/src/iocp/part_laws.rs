//! What holds of calls of the parts of the driver.
use vstd::prelude::*;
use super::config::{IocpHandle, RegisteredHandle};
use super::error::{IocpError, RioError};
use super::files::HandleTable;
use super::op::IoFd;
use super::rio::contexts::{RequestContexts, RioCompletionKind};
use super::rio::control::{batch_of, Batch};
use super::rio::kernel::RioBufferId;
use super::rio::keys::{ActorKey, SlotKey};
use super::rio::lifecycle::DrainAction;
use super::rio::pool::UdpPoolManager;
use super::rio::pool_delivery::copy_data_to_recv_op;
use super::rio::registry::RioRegistry;
use super::rio::sockets::{SocketKey, Sockets};
use super::rio::state::RioState;
use super::win32::{CompletionStatus, IoCompletionPort};

verus! {

/// A handle that is kept is found at the place it was given, which was empty, and every other
/// handle stays where it is. When it is taken out it comes out as it went in, its place is
/// empty, and nothing is found there any more.
pub proof fn kept_handles_are_found_at_their_place(e: RegisteredHandle, index: u32, other: u32)
    ensures
        forall|t: &mut HandleTable, i: u32| #[trigger]
            call_ensures(HandleTable::insert, (t, e), i) && (*t).wf() ==> {
                &&& i >= (*t).entries@.len() || (*t).entries@[i as int] is None
                &&& (*final(t)).at(i as int) == Some(e.raw_spec())
                &&& other != i ==> (*final(t)).at(other as int) == (*t).at(other as int)
            },
        forall|t: &mut HandleTable, r: Option<RegisteredHandle>| #[trigger]
            call_ensures(HandleTable::take, (t, index), r) ==> {
                &&& (*final(t)).at(index as int) is None
                &&& r matches Some(h) ==> (*t).at(index as int) == Some(h.raw_spec())
                &&& r is None ==> (*t).at(index as int) is None
                &&& other != index ==> (*final(t)).at(other as int) == (*t).at(other as int)
            },
        forall|t: &HandleTable, r: Result<IocpHandle, IocpError>| #[trigger]
            call_ensures(HandleTable::resolve_fd, (t, IoFd::Fixed { index }), r) ==> (
            r matches Ok(h) ==> (*t).at(index as int) == Some(h)) && (r is Err <==> (*t).at(
                index as int,
            ) is None),
{
    assert forall|t: &mut HandleTable, i: u32| #[trigger]
        call_ensures(HandleTable::insert, (t, e), i) && (*t).wf() implies {
        &&& i >= (*t).entries@.len() || (*t).entries@[i as int] is None
        &&& (*final(t)).at(i as int) == Some(e.raw_spec())
        &&& other != i ==> (*final(t)).at(other as int) == (*t).at(other as int)
    } by {
        if (*t).free@.len() > 0 {
            assert((*t).free@[(*t).free@.len() - 1] == i);
        }
    }
}

/// A context is not 0, and leads back to what it was opened for, until it is closed; contexts
/// of operations are even and those of pools odd, so that neither is taken for the other.
pub proof fn contexts_lead_back(
    user_data: usize,
    generation: u32,
    actor: ActorKey,
    ctx: u64,
    other: u64,
)
    ensures
        forall|c: &mut RequestContexts, x: u64| #[trigger]
            call_ensures(RequestContexts::encode_req_ctx, (c, user_data, generation), x) ==> x != 0
                && x % 2 == 0 && (*c).lookup(x) is None && (*final(c)).lookup(x) == Some(
                RioCompletionKind::Op { user_data, generation },
            ) && (other != x ==> (*final(c)).lookup(other) == (*c).lookup(other)),
        forall|c: &mut RequestContexts, x: u64| #[trigger]
            call_ensures(RequestContexts::encode_pool_req_ctx, (c, actor, generation), x) ==> x != 0
                && x % 2 == 1 && (*c).lookup(x) is None && (*final(c)).lookup(x) == Some(
                RioCompletionKind::Pool { actor_key: actor, generation },
            ) && (other != x ==> (*final(c)).lookup(other) == (*c).lookup(other)),
        forall|c: &mut RequestContexts, r: Option<RioCompletionKind>| #[trigger]
            call_ensures(RequestContexts::close, (c, ctx), r) ==> r == (*c).lookup(ctx) && (*final(
                c)).lookup(ctx) is None && (other != ctx ==> (*final(c)).lookup(other)
                == (*c).lookup(other)),
        forall|c: &mut RequestContexts| #[trigger]
            call_ensures(RequestContexts::free_op_req_ctx, (c, ctx), ()) ==> (ctx % 2 == 1 ==> (
            *final(c)).lookup(other) == (*c).lookup(other)) && (ctx % 2 == 0 ==> (*final(
                c)).lookup(ctx) is None),
        forall|c: &RequestContexts, r: Option<RioCompletionKind>| #[trigger]
            call_ensures(RequestContexts::decode_req_ctx, (c, 0u64), r) ==> r is None,
{
    assert forall|c: &RequestContexts, r: Option<RioCompletionKind>| #[trigger]
        call_ensures(RequestContexts::decode_req_ctx, (c, 0u64), r) implies r is None by {
        assert((*c).lookup(0) is None);
    }
}

/// Operations on a socket are counted up and down by one; one that is closing is no longer
/// open to them. Whatever is noted of a socket is noted of that socket alone.
pub proof fn notes_on_sockets_are_kept_apart(key: SocketKey, other: SocketKey)
    requires
        other != key,
    ensures
        forall|s: &mut Sockets, open: bool| #[trigger]
            call_ensures(Sockets::try_acquire_socket_inflight, (s, key), open) ==> {
                &&& open <==> !(*s).of(key).closing
                &&& (*s).of(key).inflight < usize::MAX ==> (*final(s)).of(key).inflight == (*s).of(
                    key,
                ).inflight + 1
                &&& (*final(s)).of(key).closing == (*s).of(key).closing
                &&& (*final(s)).of(other) == (*s).of(other)
            },
        forall|s: &mut Sockets| #[trigger]
            call_ensures(Sockets::release_socket_inflight, (s, key), ()) ==> {
                &&& (*s).of(key).inflight > 0 ==> (*final(s)).of(key).inflight + 1 == (*s).of(
                    key,
                ).inflight
                &&& (*s).of(key).inflight == 0 ==> (*final(s)).of(key).inflight == 0
                &&& (*final(s)).of(other) == (*s).of(other)
            },
        forall|s: &mut Sockets| #[trigger]
            call_ensures(Sockets::mark_socket_closing, (s, key), ()) ==> (*final(s)).of(key).closing
                && (*final(s)).of(key).inflight == (*s).of(key).inflight && (*final(s)).of(other)
                == (*s).of(other),
        forall|s: &mut Sockets| #[trigger]
            call_ensures(Sockets::forget_socket_runtime, (s, key), ()) ==> (*final(s)).of(
                key,
            ).inflight == 0 && !(*final(s)).of(key).closing && !(*final(s)).of(key).fallback && (
            *final(s)).of(other) == (*s).of(other),
        forall|s: &Sockets, b: bool| #[trigger]
            call_ensures(Sockets::socket_ready_for_cleanup, (s, key), b) ==> (b <==> (*s).of(
                key,
            ).inflight == 0),
{
}

/// What waiting on a port brings is passed on: a packet with its bytes, its key and its
/// operation, and the system's number where the operation failed. Nothing in time is no
/// failure; that is error 258. Any other failure without an operation is one of waiting.
pub proof fn packets_are_passed_on(
    result: i32,
    error: u32,
    bytes: u32,
    key: usize,
    overlapped: Option<usize>,
    r: Result<CompletionStatus, i32>,
)
    requires
        call_ensures(IoCompletionPort::get_status, (result, error, bytes, key, overlapped), r),
    ensures
        r is Err <==> result == 0 && overlapped is None && error != 258,
        r matches Err(code) ==> (error <= 0x7fff_ffff ==> code == error),
        r matches Ok(CompletionStatus::Timeout) ==> result == 0 && overlapped is None && error
            == 258,
        r matches Ok(
            CompletionStatus::Completed { bytes: b, key: k, overlapped: o, success, error_code },
        ) ==> {
            &&& b == bytes && k == key && o == overlapped
            &&& success <==> result != 0
            &&& success ==> error_code is None
            &&& !success ==> error_code == Some(error)
        },
{
}

/// Every registration that waits for deregistration is handed out once, and then none waits;
/// what is in use stays registered.
pub proof fn waiting_registrations_are_handed_out(k: (usize, usize, u64))
    ensures
        forall|g: &mut RioRegistry, ids: Vec<RioBufferId>| #[trigger]
            call_ensures(RioRegistry::flush_deregs, (g,), ids) ==> {
                &&& ids@ == (*g).pending_deregistrations@
                &&& (*final(g)).pending_deregistrations@.len() == 0
                &&& (*final(g)).chunk_registry@ == (*g).chunk_registry@
                &&& (*final(g)).slab_rio_pages@ == (*g).slab_rio_pages@
                &&& (*final(g)).heap_rio_bufs@.contains_key(k) <==> (*g).heap_rio_bufs@.contains_key(
                    k,
                )
            },
{
}

/// A datagram is copied byte by byte to where the buffer is to be filled, as far as both go;
/// no other byte of the buffer changes.
pub proof fn datagrams_are_copied_in_place(offset: usize, src: &[u8], k: int)
    ensures
        forall|buf: &mut Vec<u8>, n: usize| #[trigger]
            call_ensures(copy_data_to_recv_op, (buf, offset, src), n) ==> {
                &&& n <= src@.len()
                &&& offset <= (*buf)@.len() ==> offset + n <= (*buf)@.len() && (n == src@.len()
                    || offset + n == (*buf)@.len())
                &&& offset > (*buf)@.len() ==> n == 0
                &&& (*final(buf))@.len() == (*buf)@.len()
                &&& 0 <= k < n ==> (*final(buf))@[offset + k] == src@[k]
                &&& 0 <= k < (*buf)@.len() && (k < offset || k >= offset + n) ==> (*final(
                    buf))@[k] == (*buf)@[k]
            },
{
}

/// A chunk that its last holder is done with is free again in a running pool, behind the other
/// free ones. One that is still in use, for a slot, for a datagram that waits or as a free
/// one, is refused, and so is one that the pool does not have.
pub proof fn chunks_come_back_once(chunk: u32)
    ensures
        forall|pool: &mut UdpPoolManager, taken: bool| #[trigger]
            call_ensures(UdpPoolManager::recycle_chunk, (pool, chunk), taken) && (*pool).wf() ==> {
                let m = (*pool).model();
                let n = (*final(pool)).model();
                &&& taken ==> n.free() == m.free().push(chunk) && !m.free().contains(chunk)
                    && m.state is Running && chunk < 272
                &&& taken ==> (forall|k: SlotKey| #[trigger]
                    m.slots.contains_key(k) ==> m.slots[k].current_idx != chunk)
                &&& taken ==> (forall|j: int|
                    0 <= j < m.queue.len() ==> (#[trigger] m.queue[j]).chunk != chunk)
                &&& !taken ==> n == m
                &&& n.queue == m.queue && n.waiters == m.waiters && n.slots == m.slots && n.tokens
                    == m.tokens
            },
{
    assert forall|pool: &mut UdpPoolManager, taken: bool| #[trigger]
        call_ensures(UdpPoolManager::recycle_chunk, (pool, chunk), taken) && (*pool).wf() implies {
        let m = (*pool).model();
        let n = (*final(pool)).model();
        &&& taken ==> n.free() == m.free().push(chunk) && !m.free().contains(chunk)
            && m.state is Running && chunk < 272
        &&& taken ==> (forall|k: SlotKey| #[trigger]
            m.slots.contains_key(k) ==> m.slots[k].current_idx != chunk)
        &&& taken ==> (forall|j: int|
            0 <= j < m.queue.len() ==> (#[trigger] m.queue[j]).chunk != chunk)
        &&& !taken ==> n == m
        &&& n.queue == m.queue && n.waiters == m.waiters && n.slots == m.slots && n.tokens
            == m.tokens
    } by {
        let m = (*pool).model();
        if taken {
            assert(m.unheld(chunk));
            assert(m.slab is Some);
        }
    }
}

/// The number of completions dequeued tells what to do: none is none, a full batch of 128 means
/// that there may be more, and the largest number stands for a broken queue.
pub proof fn full_batches_are_followed_by_another(count: u32, r: Result<Batch, RioError>)
    requires
        call_ensures(batch_of, (count,), r),
    ensures
        r is Err <==> count == 0xffff_ffff,
        r matches Ok(Batch::Empty) ==> count == 0,
        r matches Ok(Batch::Last) ==> 0 < count < 128,
        r matches Ok(Batch::More) ==> 128 <= count < 0xffff_ffff,
{
}

/// Draining ends when no request is outstanding, however late, and fails when the time is up
/// before that.
pub proof fn draining_ends_with_the_last_request(
    s: &RioState,
    elapsed: u64,
    timeout: u64,
    r: Result<DrainAction, RioError>,
)
    requires
        call_ensures(RioState::drain_action, (s, elapsed, timeout), r),
    ensures
        r matches Ok(DrainAction::Finished) <==> s.outstanding_count == 0,
        r is Err <==> s.outstanding_count > 0 && elapsed >= timeout,
        r matches Ok(DrainAction::Dequeue) <==> s.outstanding_count > 0 && elapsed < timeout,
{
}

} // verus!
