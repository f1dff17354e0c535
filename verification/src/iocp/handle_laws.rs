//! What holds of registered handles and of operations that are given up.
use vstd::prelude::*;
use crate::slots::SlotState;
use super::cancel::{left, CancelAction, PoolWork};
use super::cleanup::{ended_sockets, forgotten, places_given_up, ready};
use super::config::{
    CloseCall, IocpHandle, RegisteredHandle, SocketGenerations, ThreadTags,
};
use super::driver::{closes_of, registered_at, Cleanup, DeferredSocketCleanup, IocpDriver};
use super::files::{HandleTable, HandlesModel, RegisterFd, RegistrarModel};
use super::op::{socket_key_spec, IoFd, IocpOp};
use super::rio::actors::ActorModel;
use super::rio::kernel::RioRq;
use super::rio::keys::ActorKey;
use super::rio::pool::UdpWaiter;
use super::rio::pool_delivery::without_waiter;
use super::rio::sockets::{SocketKey, SocketRuntime, Sockets};
use super::rio::state::{fresh_actor, RioState};
use super::submit_laws::is_number;

verus! {

/// A descriptor refers to the handle that it names, or to what is registered at its place.
pub proof fn descriptors_refer_to_handles(t: HandleTable, h: IocpHandle, index: u32)
    ensures
        t.resolved(IoFd::Raw { handle: h }) == Some(h),
        index < t.entries@.len() ==> {
            &&& t.entries@[index as int] == Some(RegisteredHandle::Owned(h)) ==> t.resolved(
                IoFd::Fixed { index },
            ) == Some(h)
            &&& t.entries@[index as int] == Some(RegisteredHandle::Weak(h)) ==> t.resolved(
                IoFd::Fixed { index },
            ) == Some(h)
            &&& t.entries@[index as int] is None ==> t.resolved(IoFd::Fixed { index }) is None
        },
        index >= t.entries@.len() ==> t.resolved(IoFd::Fixed { index }) is None,
{
}

/// The descriptor of an operation is the one that it was given.
pub proof fn operations_work_on_the_descriptor_given(op: IocpOp)
    ensures
        match op {
            IocpOp::ReadFixed { fd, .. } => op.fd_spec() == Some(fd),
            IocpOp::WriteFixed { fd, .. } => op.fd_spec() == Some(fd),
            IocpOp::Recv { fd, .. } => op.fd_spec() == Some(fd),
            IocpOp::Send { fd, .. } => op.fd_spec() == Some(fd),
            IocpOp::UdpRecv { fd, .. } => op.fd_spec() == Some(fd),
            IocpOp::UdpSend { fd, .. } => op.fd_spec() == Some(fd),
            IocpOp::Connect { fd, .. } => op.fd_spec() == Some(fd),
            IocpOp::Accept { fd, .. } => op.fd_spec() == Some(fd),
            IocpOp::SendTo { fd, .. } => op.fd_spec() == Some(fd),
            IocpOp::UdpRecvStream { fd, .. } => op.fd_spec() == Some(fd),
            IocpOp::Close { fd } => op.fd_spec() == Some(fd),
            IocpOp::Fsync { fd } => op.fd_spec() == Some(fd),
            IocpOp::SyncRange { fd } => op.fd_spec() == Some(fd),
            IocpOp::Fallocate { fd, .. } => op.fd_spec() == Some(fd),
            _ => op.fd_spec() is None,
        },
{
}

/// A handle that was registered is found at its place, which was empty, under its own
/// number. One that was tagged as a file and turned out to be a socket is a socket there;
/// any other is what it was.
pub proof fn registered_handles_are_found(
    file: RegisterFd,
    fd: IoFd,
    before: HandleTable,
    after: HandleTable,
    n: usize,
)
    requires
        registered_at(file, fd, &before, &after),
        is_number(file.handle, n),
    ensures
        before.resolved(fd) is None,
        after.resolved(fd) matches Some(h) && {
            &&& is_number(h, n)
            &&& file.handle is Socket ==> h == file.handle
            &&& file.handle is File && file.probe_error is Some ==> h == file.handle
            &&& file.handle is File && file.probe_error is None ==> h is Socket
        },
{
}

/// Handles get places one by one: the last one that became free, or else a new one at the
/// end. All others stay where they are.
pub proof fn places_are_used_again(handles: HandlesModel, entry: RegisteredHandle)
    requires
        forall|k: int|
            0 <= k < handles.free.len() ==> (#[trigger] handles.free[k]) < handles.entries.len(),
    ensures
        ({
            let after = handles.with_entry(entry);
            let place = if handles.free.len() > 0 {
                handles.free[handles.free.len() - 1] as int
            } else {
                handles.entries.len() as int
            };
            &&& handles.next_place() == place
            &&& after.entries[place] == Some(entry)
            &&& after.entries.len() == handles.entries.len() + (if handles.free.len() > 0 {
                0int
            } else {
                1int
            })
            &&& handles.free.len() > 0 ==> after.free == handles.free.take(handles.free.len() - 1)
            &&& forall|k: int|
                0 <= k < handles.entries.len() && k != place ==> (#[trigger] after.entries[k])
                    == handles.entries[k]
        }),
{
}

/// When a place is emptied, the handle in it is closed if the driver owns it: a file with
/// `CloseHandle` and a socket with `closesocket`, each under its own number. A handle that
/// was lent is left alone, and so is one that is none.
pub proof fn owned_handles_are_closed(
    entries: Seq<Option<RegisteredHandle>>,
    index: u32,
    n: usize,
    generation: u64,
)
    requires
        index < entries.len(),
    ensures
        ({
            let closes = closes_of(entries, seq![IoFd::Fixed { index }]);
            let e = entries[index as int];
            &&& e == Some(RegisteredHandle::Owned(IocpHandle::File { handle: n })) && n != 0 && n
                != usize::MAX ==> closes == seq![CloseCall::Handle(n)]
            &&& e == Some(
                RegisteredHandle::Owned(IocpHandle::Socket { handle: n, generation }),
            ) && n != usize::MAX ==> closes == seq![CloseCall::Socket(n)]
            &&& e matches Some(RegisteredHandle::Weak(_)) ==> closes == seq![CloseCall::Nothing]
            &&& e is None ==> closes.len() == 0
        }),
{
    let one = seq![IoFd::Fixed { index }];
    assert(one.drop_last() =~= Seq::<IoFd>::empty());
    assert(one.last() == IoFd::Fixed { index });
    assert(closes_of(entries, one.drop_last()) =~= Seq::empty());
    let none = Seq::<CloseCall>::empty();
    if let Some(e) = entries[index as int] {
        assert(closes_of(entries, one) =~= none.push(e.dropping()));
    }
}

/// What is closed for a list of places is closed in the order of the list, each place once:
/// a place that comes again adds nothing.
pub proof fn places_are_closed_once(
    entries: Seq<Option<RegisteredHandle>>,
    fds: Seq<IoFd>,
    fd: IoFd,
)
    ensures
        fds.contains(fd) ==> closes_of(entries, fds.push(fd)) == closes_of(entries, fds),
        !fds.contains(fd) ==> closes_of(entries, fds.push(fd)) == closes_of(entries, fds)
            + closes_of(entries, seq![fd]),
{
    let all = fds.push(fd);
    assert(all.drop_last() =~= fds);
    let one = seq![fd];
    assert(one.drop_last() =~= Seq::<IoFd>::empty());
    assert(closes_of(entries, one.drop_last()) =~= Seq::empty());
    let front = closes_of(entries, fds);
    assert(front + Seq::<CloseCall>::empty() =~= front);
    if let IoFd::Fixed { index } = fd {
        if index < entries.len() && entries[index as int] is Some {
            let c = entries[index as int]->Some_0.dropping();
            assert(closes_of(entries, one) =~= seq![c]);
            assert(front.push(c) =~= front + seq![c]);
        }
    }
}

/// The line without an operation: that operation is not in it, and every other one is, as
/// often and in the same order as before.
pub proof fn leaving_the_line_keeps_the_others(
    a: Seq<UdpWaiter>,
    b: Seq<UdpWaiter>,
    w: UdpWaiter,
    user_data: usize,
    generation: u32,
)
    ensures
        without_waiter(a + b, user_data, generation) == without_waiter(a, user_data, generation)
            + without_waiter(b, user_data, generation),
        w.user_data == user_data && w.generation == generation ==> without_waiter(
            seq![w],
            user_data,
            generation,
        ).len() == 0,
        w.user_data != user_data || w.generation != generation ==> without_waiter(
            seq![w],
            user_data,
            generation,
        ) == seq![w],
        forall|k: int|
            0 <= k < without_waiter(a, user_data, generation).len() ==> {
                ||| (#[trigger] without_waiter(a, user_data, generation)[k]).user_data != user_data
                ||| without_waiter(a, user_data, generation)[k].generation != generation
            },
    decreases a.len() + b.len(),
{
    let one = seq![w];
    assert(one.drop_last() =~= Seq::<UdpWaiter>::empty());
    assert(one.last() == w);
    assert(without_waiter(one.drop_last(), user_data, generation) =~= Seq::empty());
    if w.user_data != user_data || w.generation != generation {
        assert(without_waiter(one, user_data, generation) =~= seq![w]);
    }
    if b.len() > 0 {
        assert((a + b).drop_last() =~= a + b.drop_last());
        assert((a + b).last() == b.last());
        leaving_the_line_keeps_the_others(a, b.drop_last(), w, user_data, generation);
        assert(without_waiter(a + b, user_data, generation) =~= without_waiter(
            a,
            user_data,
            generation,
        ) + without_waiter(b, user_data, generation));
    } else {
        assert(a + b =~= a);
        assert(without_waiter(b, user_data, generation) =~= Seq::empty());
        assert(without_waiter(a, user_data, generation) + Seq::<UdpWaiter>::empty()
            =~= without_waiter(a, user_data, generation));
        if a.len() > 0 {
            leaving_the_line_keeps_the_others(a.drop_last(), b, w, user_data, generation);
        }
    }
}

/// An operation that leaves the receive pools of its socket is in no line there any more;
/// every other pool keeps its line, and no pool loses a datagram or a request.
pub proof fn given_up_operations_are_in_no_line(
    before: RioState,
    after: RioState,
    handle: SocketKey,
    user_data: usize,
    generation: u32,
    pools: Seq<PoolWork>,
    k: ActorKey,
    j: int,
)
    requires
        before.line_left(&after, handle, user_data, generation, pools),
        before.actors_model().contains_key(k),
    ensures
        after.actors_model().contains_key(k),
        before.kernel.dispatch && before.index().contains_key(handle) && before.index()[handle] == k
            && 0 <= j < after.actors_model()[k].pool.waiters.len() ==> {
            ||| after.actors_model()[k].pool.waiters[j].user_data != user_data
            ||| after.actors_model()[k].pool.waiters[j].generation != generation
        },
        after.actors_model()[k].pool.queue == before.actors_model()[k].pool.queue,
        after.actors_model()[k].pool.slots == before.actors_model()[k].pool.slots,
        after.actors_model()[k].pool.tokens == before.actors_model()[k].pool.tokens,
        before.actors_model()[k].handle != handle && !(before.index().contains_key(handle)
            && before.index()[handle] == k) ==> after.actors_model()[k] == before.actors_model()[k],
{
    let a: ActorModel = before.actors_model()[k];
    assert(after.actors_model().dom().contains(k));
    leaving_the_line_keeps_the_others(
        a.pool.waiters,
        Seq::empty(),
        arbitrary(),
        user_data,
        generation,
    );
    assert(left(a, user_data, generation).pool.waiters == without_waiter(
        a.pool.waiters,
        user_data,
        generation,
    ));
}

/// Cancelling an operation aborts it at once, with error 995, where nobody else works on it:
/// it waits for a timer, which is cancelled too, or it was never submitted. Where the system
/// works on it through the port, the system is asked to give up that operation on the handle
/// that it works on, and nothing else happens until it answers. One that was cancelled before
/// is left alone, and so is a free slot.
pub proof fn cancelling_ends_or_asks<P>(
    before: IocpDriver<P>,
    after: IocpDriver<P>,
    i: int,
    h: IocpHandle,
    action: CancelAction,
)
    requires
        before.wf(),
        0 <= i < before.table.ops.slots@.len(),
        before.cancelled(&after, i, &action),
    ensures
        ({
            let slot = before.table.ops.slots@[i];
            let t = before.table.model();
            let u = after.table.model();
            let aborted = {
                &&& u.slots[i].state is None
                &&& u.records[i] matches Some(r) && r.event.res == -995 && r.event.token.user_data
                    == i && r.event.token.generation == slot.generation && r.payload == slot.payload
                    && u.events == t.events.push(r.event)
            };
            &&& slot.state is Some ==> (slot.platform.timer_id matches Some(id) ==> aborted
                && action.timer == Some(id) && action.io is None)
            &&& slot.state == Some(SlotState::Reserved) && slot.platform.timer_id is None ==> aborted
                && action.timer is None && action.io is None
            &&& slot.state == Some(SlotState::InFlightWaiting) && slot.platform.timer_id is None
                && !slot.platform.rio_pool_waiting && slot.platform.resolved_handle == Some(h) && (
            slot.op matches Some(op) && (op is Connect || op is Accept || op is ReadFixed
                || op is WriteFixed)) ==> {
                &&& action.io matches Some(n) && is_number(h, n)
                &&& action.timer is None && after == before
            }
            &&& slot.state == Some(SlotState::InFlightWaiting) && slot.platform.timer_id is None
                && slot.platform.resolved_handle == Some(h) && (slot.platform.rio_pool_waiting || (
            slot.op matches Some(op) && (op is Recv || op is Send || op is UdpRecv || op is UdpSend
                || op is SendTo || op is UdpRecvStream))) ==> aborted && action.timer is None
                && action.io is None
            &&& slot.state is None || (slot.state == Some(SlotState::InFlightOrphaned)
                && slot.platform.timer_id is None) ==> after == before && action.timer is None
                && action.io is None && action.pools@.len() == 0
        }),
{
    let slot = before.table.ops.slots@[i];
    assert(i < before.table.ops.slots.len());
    assert(before.table.model().records.len() == before.table.model().slots.len());
    if slot.state == Some(SlotState::InFlightWaiting) && slot.platform.timer_id is None
        && before.handle_of(i) is Some {
        let g = before.handle_of(i)->Some_0;
        if slot.platform.rio_pool_waiting || slot.op->Some_0.rio_spec() {
            let mid = choose|mid: IocpDriver<P>| #[trigger]
                before.given_up(&mid, i, g, action.pools@) && if g is Socket {
                    mid.cleaned_up(&after, &action.cleanup)
                } else {
                    after == mid && action.cleanup.released@.len() == 0
                        && action.cleanup.closes@.len() == 0
                };
            assert(after.table == mid.table);
        }
    }
}

/// A socket that is to be cleaned up is cleaned up at once if the system works on nothing for
/// it, and waits at the end of the queue otherwise; it takes no more operations either way.
pub proof fn cleanups_wait_for_the_last_operation<P>(
    before: IocpDriver<P>,
    mid: IocpDriver<P>,
    after: IocpDriver<P>,
    p: DeferredSocketCleanup,
    out: Cleanup,
)
    requires
        before.scheduled(&mid, p),
        mid.cleaned_up(&after, &out),
    ensures
        before.rio.sockets.of(p.handle).inflight > 0 ==> {
            &&& after.deferred_socket_cleanup@.contains(p)
            &&& after.deferred_socket_cleanup@.last() == p
            &&& after.table == before.table
        },
        before.rio.sockets.of(p.handle).inflight == 0 ==> {
            &&& !after.deferred_socket_cleanup@.contains(p)
            &&& after.rio.sockets.of(p.handle).closing == false
            &&& !after.rio.index().contains_key(p.handle)
        },
{
    let queue = mid.deferred_socket_cleanup@;
    assert(queue.last() == p);
    assert(queue[queue.len() - 1] == p);
    assert(queue.contains(p));
    super::laws::only_idle_sockets_are_cleaned_up(mid, after, out, p);
    assert(ready(&mid.rio.sockets, p) <==> before.rio.sockets.of(p.handle).inflight == 0);
}

/// A handle is kept as what it is: under its own number, owned exactly if it was handed over,
/// and as a socket if it was tagged as one or turns out to be one. What it is cannot be told
/// when asking for it fails for any reason but error 10038, which says that it is none.
pub proof fn handles_are_kept_as_what_they_are(
    file: RegisterFd,
    generations: SocketGenerations,
    tags: ThreadTags,
    n: usize,
)
    ensures
        file.unclear() <==> file.handle is File && (file.probe_error matches Some(e) && e != 10038),
        file.entry_with(generations, tags) is Owned <==> file.owned,
        file.entry_with(generations, tags) matches RegisteredHandle::Owned(h) ==> (is_number(h, n)
            <==> is_number(file.handle, n)),
        file.entry_with(generations, tags) matches RegisteredHandle::Weak(h) ==> (is_number(h, n)
            <==> is_number(file.handle, n)),
        ({
            let h = file.entry_with(generations, tags).raw_spec();
            &&& h is Socket <==> file.handle is Socket || file.probe_error is None
            &&& file.handle is Socket || file.probe_error is Some ==> h == file.handle
        }),
        file.owned ==> file.dropping() == file.handle.closing(),
        !file.owned ==> file.dropping() == CloseCall::Nothing,
{
}

/// A socket that is registered is known to be registered, and nothing else that is known of it
/// changes; nor does anything that is known of a socket that is not among those registered.
pub proof fn registered_sockets_are_known<P>(
    before: IocpDriver<P>,
    after: IocpDriver<P>,
    was: RegistrarModel,
    left: RegistrarModel,
    files: Seq<RegisterFd>,
    n: int,
    j: int,
    other: SocketKey,
)
    requires
        before.registers(&after, was, left, files, n),
    ensures
        0 <= j < n && was.entry_in(files, j).raw_spec() is Socket ==> {
            let key = socket_key_spec(was.entry_in(files, j).raw_spec());
            &&& after.rio.sockets.of(key).registered
            &&& after.rio.sockets.of(key).inflight == before.rio.sockets.of(key).inflight
            &&& after.rio.sockets.of(key).fallback == before.rio.sockets.of(key).fallback
            &&& after.rio.sockets.of(key).closing == before.rio.sockets.of(key).closing
        },
        (forall|k: int|
            0 <= k < n && (#[trigger] was.entry_in(files, k)).raw_spec() is Socket
                ==> socket_key_spec(was.entry_in(files, k).raw_spec()) != other)
            ==> after.rio.sockets.of(other) == before.rio.sockets.of(other),
{
    if 0 <= j < n && was.entry_in(files, j).raw_spec() is Socket {
        let key = socket_key_spec(was.entry_in(files, j).raw_spec());
        assert(was.makes_socket(files, n, key));
        assert(after.rio.sockets.of(key).registered);
    }
    assert(after.rio.sockets.of(other) == after.rio.sockets.of(other));
}

/// A socket that waits to be cleaned up is known to be closing, behind all that wait already;
/// nothing else that is known of any socket changes.
pub proof fn closing_sockets_are_marked<P>(
    before: IocpDriver<P>,
    after: IocpDriver<P>,
    p: DeferredSocketCleanup,
    other: SocketKey,
)
    requires
        before.scheduled(&after, p),
    ensures
        after.rio.sockets.of(p.handle).closing,
        after.rio.sockets.of(p.handle).inflight == before.rio.sockets.of(p.handle).inflight,
        after.rio.sockets.of(p.handle).registered == before.rio.sockets.of(p.handle).registered,
        after.rio.sockets.of(p.handle).fallback == before.rio.sockets.of(p.handle).fallback,
        other != p.handle ==> after.rio.sockets.of(other) == before.rio.sockets.of(other),
        after.deferred_socket_cleanup@.len() == before.deferred_socket_cleanup@.len() + 1,
        after.deferred_socket_cleanup@.last() == p,
        before.deferred_socket_cleanup@.is_prefix_of(after.deferred_socket_cleanup@),
{
}

/// What is cleaned up is forgotten: nothing is known any more of a socket on which the system
/// works on nothing, and no actor takes its requests. Another socket at the place of such a
/// one has its own way through the port again, and no actor either. No other socket is touched.
pub proof fn cleaned_up_sockets_are_forgotten<P>(
    before: IocpDriver<P>,
    after: IocpDriver<P>,
    out: Cleanup,
    j: int,
    other: SocketKey,
)
    requires
        before.cleaned_up(&after, &out),
    ensures
        ({
            let queue = before.deferred_socket_cleanup@;
            &&& 0 <= j < queue.len() && before.rio.sockets.of(queue[j].handle).inflight == 0 ==> {
                let now = after.rio.sockets.of(queue[j].handle);
                &&& now.inflight == 0 && !now.closing && !now.registered && !now.fallback
                    && !now.fallback_associated
                &&& !after.rio.index().contains_key(queue[j].handle)
                &&& ended_sockets(&before.rio.sockets, before.files.entries@, queue).contains(
                    queue[j].handle,
                )
            }
            &&& (forall|k: int|
                0 <= k < queue.len() && before.rio.sockets.of(
                    (#[trigger] queue[k]).handle,
                ).inflight == 0 ==> queue[k].handle != other) ==> {
                &&& after.rio.sockets.of(other).inflight == before.rio.sockets.of(other).inflight
                &&& after.rio.sockets.of(other).closing == before.rio.sockets.of(other).closing
                &&& after.rio.sockets.of(other).registered == before.rio.sockets.of(
                    other,
                ).registered
                &&& after.rio.sockets.of(other) == before.rio.sockets.of(other) || (
                !after.rio.sockets.of(other).fallback && !after.rio.sockets.of(
                    other,
                ).fallback_associated && !after.rio.index().contains_key(other))
            }
        }),
        after.table == before.table,
{
    let queue = before.deferred_socket_cleanup@;
    let s = &before.rio.sockets;
    if 0 <= j < queue.len() && s.of(queue[j].handle).inflight == 0 {
        assert(ready(s, queue[j]));
        assert(forgotten(s, queue, queue[j].handle));
        assert(after.rio.sockets.of(queue[j].handle) == SocketRuntime::unknown());
        ready_sockets_end(s, before.files.entries@, queue, j);
        assert(after.rio.index().contains_key(queue[j].handle) ==> false);
    }
    if forall|k: int|
        0 <= k < queue.len() && s.of((#[trigger] queue[k]).handle).inflight == 0
            ==> queue[k].handle != other {
        assert(!forgotten(s, queue, other));
        assert(after.rio.index().contains_key(other) <==> before.rio.index().contains_key(other)
            && !forgotten(s, queue, other) && !before.loses_place(
            places_given_up(s, queue),
            other,
        ));
        assert(after.rio.sockets.of(other) == after.rio.sockets.of(other));
    }
}

proof fn ready_sockets_end(
    s: &Sockets,
    entries: Seq<Option<RegisteredHandle>>,
    queue: Seq<DeferredSocketCleanup>,
    j: int,
)
    requires
        0 <= j < queue.len(),
        ready(s, queue[j]),
    ensures
        ended_sockets(s, entries, queue).contains(queue[j].handle),
    decreases queue.len(),
{
    let front = ended_sockets(s, entries, queue.drop_last());
    let all = ended_sockets(s, entries, queue);
    if j < queue.len() - 1 {
        ready_sockets_end(s, entries, queue.drop_last(), j);
        assert(queue.drop_last()[j] == queue[j]);
        let k = front.index_of(queue[j].handle);
        assert(all[k] == queue[j].handle);
    } else {
        assert(all[front.len() as int] == queue[j].handle);
    }
}

/// A driver that shuts down takes no more requests of registered I/O: no socket has an actor
/// any more, and no pool makes a request. The operations are left to be cancelled.
pub proof fn shutting_down_ends_registered_requests<P>(
    before: IocpDriver<P>,
    mid: IocpDriver<P>,
    h: SocketKey,
    k: ActorKey,
)
    requires
        before.winding_down(&mid),
    ensures
        mid.shutting_down,
        !mid.rio.index().contains_key(h),
        mid.rio.actors_model().contains_key(k) <==> before.rio.actors_model().contains_key(k),
        before.rio.actors_model().contains_key(k) ==> {
            &&& !(mid.rio.actors_model()[k].pool.state is Running)
            &&& mid.rio.actors_model()[k].pool.target_credits == 0
            &&& mid.rio.actors_model()[k].handle == before.rio.actors_model()[k].handle
            &&& mid.rio.actors_model()[k].pool.waiters
                == before.rio.actors_model()[k].pool.waiters
        },
        mid.table == before.table && mid.closed == before.closed,
{
}

/// When an actor is gone, no socket's requests go to it; those of other sockets go where they
/// went.
pub proof fn nothing_goes_to_actors_that_are_gone(
    before: RioState,
    after: RioState,
    key: ActorKey,
    h: SocketKey,
    k: ActorKey,
)
    requires
        before.index_wf(),
        before.without_actor(&after, key),
        before.actors_model().contains_key(key),
    ensures
        !after.actors_model().contains_key(key),
        after.index().contains_key(h) ==> after.index()[h] != key && before.index().contains_key(h)
            && after.index()[h] == before.index()[h],
        before.index().contains_key(h) && before.index()[h] != key ==> after.index().contains_key(
            h,
        ),
        k != key && before.actors_model().contains_key(k) ==> after.actors_model().contains_key(k)
            && after.actors_model()[k] == before.actors_model()[k],
{
}

/// The actor of a socket that has just got its request queue serves that socket through that
/// queue, and has not done anything yet.
pub proof fn new_actors_serve_their_socket(a: ActorModel, handle: SocketKey, rq: RioRq)
    requires
        fresh_actor(a, handle, rq),
    ensures
        a.handle == handle && a.rq == rq && a.state is Active,
        a.pool.state is Uninitialized && a.pool.slab is None,
        a.pool.waiters.len() == 0 && a.pool.queue.len() == 0,
        a.pool.slots.len() == 0 && a.pool.tokens.len() == 0,
{
}

/// A socket that is found at the place of one that is cleaned up is no longer known to have
/// left registered I/O, and no actor takes its requests.
pub proof fn sockets_that_lose_their_place_start_over<P>(
    before: IocpDriver<P>,
    after: IocpDriver<P>,
    out: Cleanup,
    j: int,
    index: u32,
    h: IocpHandle,
)
    requires
        before.cleaned_up(&after, &out),
        0 <= j < before.deferred_socket_cleanup@.len(),
        before.deferred_socket_cleanup@[j].registered_fd == Some(IoFd::Fixed { index }),
        before.rio.sockets.of(before.deferred_socket_cleanup@[j].handle).inflight == 0,
        index < before.files.entries@.len(),
        before.files.entries@[index as int] == Some(RegisteredHandle::Owned(h))
            || before.files.entries@[index as int] == Some(RegisteredHandle::Weak(h)),
    ensures
        h is Socket ==> {
            &&& !after.rio.sockets.of(socket_key_spec(h)).fallback
            &&& !after.rio.sockets.of(socket_key_spec(h)).fallback_associated
            &&& !after.rio.index().contains_key(socket_key_spec(h))
        },
        after.files.at(index as int) is None,
{
    let queue = before.deferred_socket_cleanup@;
    let s = &before.rio.sockets;
    let fd = IoFd::Fixed { index };
    let places = places_given_up(s, queue);
    ready_places_are_given_up(s, queue, j, fd);
    let k = places.index_of(fd);
    assert(places[k] == fd);
    assert(after.files.at(index as int) is None);
    if h is Socket {
        let key = socket_key_spec(h);
        assert(before.files.holds(places[k], key));
        assert(before.loses_place(places, key));
        assert(after.rio.sockets.of(key) == after.rio.sockets.of(key));
        assert(after.rio.index().contains_key(key) ==> !before.loses_place(places, key));
    }
}

proof fn ready_places_are_given_up(
    s: &Sockets,
    queue: Seq<DeferredSocketCleanup>,
    j: int,
    fd: IoFd,
)
    requires
        0 <= j < queue.len(),
        ready(s, queue[j]),
        queue[j].registered_fd == Some(fd),
    ensures
        places_given_up(s, queue).contains(fd),
    decreases queue.len(),
{
    let front = places_given_up(s, queue.drop_last());
    let all = places_given_up(s, queue);
    if j < queue.len() - 1 {
        assert(queue.drop_last()[j] == queue[j]);
        ready_places_are_given_up(s, queue.drop_last(), j, fd);
        assert(all[front.index_of(fd)] == fd);
    } else {
        assert(all[front.len() as int] == fd);
    }
}

} // verus!
