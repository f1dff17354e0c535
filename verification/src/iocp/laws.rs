//! What holds of the driver across operations.
use vstd::prelude::*;
use crate::slots::{next_generation, SlotState};
use super::cancel::CancelAction;
use super::cleanup::{not_ready, places_given_up, ready};
use super::close::{cancelled_in_turn, in_flight_below, CloseAction, Shutdown};
use super::config::IocpHandle;
use super::driver::{closes_of, registered_at, Cleanup, DeferredSocketCleanup, IocpDriver};
use super::error::DriverErrorKind;
use super::files::{HandlesModel, RegisterFd};
use super::op::IoFd;
use super::rio::contexts::{RequestContexts, RioCompletionKind};
use super::rio::kernel::{RioBufferId, RioResult};
use super::rio::pool::{Answer, RioFailure};
use super::rio::sockets::{demotes, SocketRuntime, Sockets};
use super::rio::submit::RioStep;
use super::submission::{SubmitStep, ERROR_OPERATION_ABORTED};
use super::submit::{associated, OpStep, SubmitHead, SubmitStage};
use super::table::TableModel;

verus! {

/// An operation that is aborted ends once: one event is announced for it, under its
/// generation, and its slot is free under the next one.
pub proof fn aborting_announces_one_event<P>(t: TableModel<P>, i: int)
    requires
        t.live(i),
        t.records.len() == t.slots.len(),
        t.slots.len() <= usize::MAX,
    ensures
        ({
            let after = t.aborted(i);
            &&& after.events == t.events.push(after.events.last())
            &&& after.events.last().res == -ERROR_OPERATION_ABORTED
            &&& after.events.last().token.user_data == i
            &&& after.events.last().token.generation == t.slots[i].generation
            &&& after.records[i] matches Some(record) && record.payload == t.slots[i].payload
            &&& !after.live(i)
            &&& after.slots[i].generation == next_generation(t.slots[i].generation)
            &&& forall|j: int|
                0 <= j < t.slots.len() && j != i ==> (#[trigger] after.slots[j]) == t.slots[j]
        }),
{
}

/// What registered I/O reports of an operation that was aborted comes too late: it
/// changes nothing.
pub proof fn late_reports_change_nothing<P>(
    t: TableModel<P>,
    user_data: usize,
    generation: u32,
    res: RioResult,
)
    requires
        t.live(user_data as int),
    ensures
        t.aborted(user_data as int).rio_completed(user_data, generation, res).0 == t.aborted(
            user_data as int,
        ),
{
}

/// What registered I/O reports of an earlier use of a slot changes nothing.
pub proof fn reports_of_earlier_uses_change_nothing<P>(
    t: TableModel<P>,
    user_data: usize,
    generation: u32,
    res: RioResult,
)
    requires
        generation != t.slots[user_data as int].platform.generation,
    ensures
        t.rio_completed(user_data, generation, res).0 == t,
{
}

/// A report ends an operation once: the same report again changes nothing.
pub proof fn repeated_reports_change_nothing<P>(
    t: TableModel<P>,
    user_data: usize,
    generation: u32,
    res: RioResult,
)
    ensures
        ({
            let once = t.rio_completed(user_data, generation, res).0;
            once.rio_completed(user_data, generation, res).0 == once
        }),
{
}

/// Once an operation is cancelled that the driver can end by itself, nothing is left of
/// it in its slot.
pub proof fn cancelled_operations_are_gone<P>(
    before: IocpDriver<P>,
    after: IocpDriver<P>,
    i: int,
    action: CancelAction,
)
    requires
        before.wf(),
        before.cancelled(&after, i, &action),
        before.table.ops.live(i),
        action.io is None,
        !before.table.ops.in_state(i, SlotState::InFlightOrphaned),
        before.handle_of(i) is Some,
    ensures
        !after.table.ops.live(i),
        after.table.model().events.len() == before.table.model().events.len() + 1,
        after.table.model().events.last().res == -ERROR_OPERATION_ABORTED,
{
    let slot = before.table.ops.slots@[i];
    let t = before.table.model();
    assert(t.aborted(i).slots[i].state is None);
    if slot.platform.timer_id is None && slot.state == Some(SlotState::InFlightWaiting) {
        let h = before.handle_of(i)->Some_0;
        let mid = choose|mid: IocpDriver<P>| #[trigger]
            before.given_up(&mid, i, h, action.pools@) && if h is Socket {
                mid.cleaned_up(&after, &action.cleanup)
            } else {
                *&after == mid && action.cleanup.released@.len() == 0
                    && action.cleanup.closes@.len() == 0
            };
        assert(mid.table.model() == t.aborted(i));
        assert(after.table == mid.table);
    }
    assert(after.table.model().slots == after.table.ops.slots@);
}

/// A timer ends an operation once.
pub proof fn timers_fire_once<P>(t: TableModel<P>, i: int, now: u64)
    ensures
        t.timer_fired(i, now).timer_fired(i, now) == t.timer_fired(i, now),
{
    let once = t.timer_fired(i, now);
    assert(once.timer_fired(i, now) =~= once);
}

/// No timer ends an operation before its time.
pub proof fn timers_do_not_fire_early<P>(t: TableModel<P>, i: int, now: u64)
    requires
        t.in_flight(i),
        t.slots[i].platform.timer_deadline matches Some(deadline) && now < deadline,
    ensures
        t.timer_fired(i, now) == t,
{
}

/// The sockets that wait on are those that are busy, every one of them and no other.
proof fn busy_sockets_wait_on(s: &Sockets, queue: Seq<DeferredSocketCleanup>)
    ensures
        forall|p: DeferredSocketCleanup| #[trigger]
            not_ready(s, queue).contains(p) <==> queue.contains(p) && !ready(s, p),
    decreases queue.len(),
{
    if queue.len() > 0 {
        let front = queue.drop_last();
        let last = queue.last();
        busy_sockets_wait_on(s, front);
        assert forall|p: DeferredSocketCleanup| #[trigger]
            not_ready(s, queue).contains(p) <==> queue.contains(p) && !ready(s, p) by {
            assert(queue =~= front.push(last));
            if queue.contains(p) {
                let j = queue.index_of(p);
                if j < front.len() {
                    assert(front[j] == p);
                }
            }
            if front.contains(p) {
                assert(queue[front.index_of(p)] == p);
            }
            assert(queue[front.len() as int] == last);
            let kept = not_ready(s, front);
            if !ready(s, last) {
                let all = kept.push(last);
                assert(not_ready(s, queue) == all);
                if all.contains(p) {
                    let j = all.index_of(p);
                    if j < kept.len() {
                        assert(kept[j] == p);
                    }
                }
                if kept.contains(p) {
                    assert(all[kept.index_of(p)] == p);
                }
                assert(all[kept.len() as int] == last);
            }
        }
    } else {
        assert forall|p: DeferredSocketCleanup| #[trigger]
            not_ready(s, queue).contains(p) <==> queue.contains(p) && !ready(s, p) by {}
    }
}

/// A socket is cleaned up as soon as the system works on no operation on it, and never
/// before: after a round the busy ones wait on, and only they do.
pub proof fn only_idle_sockets_are_cleaned_up<P>(
    before: IocpDriver<P>,
    after: IocpDriver<P>,
    out: Cleanup,
    p: DeferredSocketCleanup,
)
    requires
        before.cleaned_up(&after, &out),
        before.deferred_socket_cleanup@.contains(p),
    ensures
        after.deferred_socket_cleanup@.contains(p) <==> before.rio.sockets.of(p.handle).inflight
            > 0,
        before.rio.sockets.of(p.handle).inflight == 0 ==> {
            &&& after.rio.sockets.of(p.handle) == SocketRuntime::unknown()
            &&& !after.rio.index().contains_key(p.handle)
            &&& p.registered_fd matches Some(IoFd::Fixed { index }) ==> after.files.at(
                index as int,
            ) is None
        },
{
    let queue = before.deferred_socket_cleanup@;
    busy_sockets_wait_on(&before.rio.sockets, queue);
    let j = queue.index_of(p);
    assert(queue[j] == p);
    if ready(&before.rio.sockets, p) {
        ready_places_are_given_up(&before.rio.sockets, queue, j);
    }
}

/// The place of a socket that is ready is among those given up.
proof fn ready_places_are_given_up(s: &Sockets, queue: Seq<DeferredSocketCleanup>, j: int)
    requires
        0 <= j < queue.len(),
        ready(s, queue[j]),
    ensures
        queue[j].registered_fd matches Some(fd) ==> places_given_up(s, queue).contains(fd),
    decreases queue.len(),
{
    if let Some(fd) = queue[j].registered_fd {
        let front = queue.drop_last();
        let places = places_given_up(s, front);
        let all = places_given_up(s, queue);
        if j == queue.len() - 1 {
            assert(all == places.push(fd));
            assert(all[places.len() as int] == fd);
        } else {
            assert(front[j] == queue[j]);
            ready_places_are_given_up(s, front, j);
            let k = places.index_of(fd);
            assert(all[k] == fd);
        }
    }
}

/// A handle that was registered and is unregistered leaves its place empty, and is
/// closed exactly if the driver owns it.
pub proof fn unregistering_undoes_registering<P>(
    empty: IocpDriver<P>,
    full: IocpDriver<P>,
    file: RegisterFd,
    fd: IoFd,
)
    requires
        registered_at(file, fd, &empty.files, &full.files),
    ensures
        fd matches IoFd::Fixed { index } && ({
            let entry = full.files.entries@[index as int];
            &&& entry is Some
            &&& closes_of(full.files.entries@, seq![fd]) == seq![entry->Some_0.dropping()]
            &&& !file.owned ==> entry->Some_0.dropping() is Nothing
        }),
{
    let index = fd->Fixed_index;
    let entries = full.files.entries@;
    let one = seq![fd];
    assert(one.drop_last() =~= Seq::<IoFd>::empty());
    assert(closes_of(entries, one.drop_last()) =~= Seq::empty());
    assert(closes_of(entries, one) =~= seq![entries[index as int]->Some_0.dropping()]);
}

/// A place that is emptied is free, once, and stays empty; a place that was not emptied
/// keeps what it holds.
pub proof fn emptied_places_are_free<P>(
    before: IocpDriver<P>,
    after: IocpDriver<P>,
    fds: Seq<IoFd>,
    index: u32,
)
    requires
        before.wf(),
        after.wf(),
        after.handles() == before.handles().without_handles(fds),
        index < before.files.entries@.len(),
    ensures
        after.files.entries@.len() == before.files.entries@.len(),
        fds.contains(IoFd::Fixed { index }) ==> {
            &&& after.files.entries@[index as int] is None
            &&& after.files.free@.contains(index as usize)
            &&& after.files.free@.no_duplicates()
        },
        !fds.contains(IoFd::Fixed { index }) ==> after.files.entries@[index as int]
            == before.files.entries@[index as int],
{
    emptied(before.handles(), fds);
}

/// Emptying places again, or places past the end, changes nothing.
pub proof fn empty_places_stay_empty(handles: HandlesModel, fds: Seq<IoFd>, again: Seq<IoFd>)
    requires
        forall|fd: IoFd| #[trigger]
            again.contains(fd) ==> fds.contains(fd) || fd is Raw || (fd matches IoFd::Fixed {
                index,
            } && index >= handles.entries.len()),
    ensures
        handles.without_handles(fds).without_handles(again) == handles.without_handles(fds),
    decreases again.len(),
{
    if again.len() > 0 {
        let front = again.drop_last();
        assert forall|fd: IoFd| #[trigger] front.contains(fd) implies fds.contains(fd) || fd is Raw
            || (fd matches IoFd::Fixed { index } && index >= handles.entries.len()) by {
            assert(again[front.index_of(fd)] == fd);
            assert(again.contains(fd));
        }
        empty_places_stay_empty(handles, fds, front);
        assert(again.contains(again.last()));
        emptied(handles, fds);
    }
}

/// The places `fds` are empty after they were emptied; all others hold what they held.
proof fn emptied(handles: HandlesModel, fds: Seq<IoFd>)
    ensures
        handles.without_handles(fds).entries.len() == handles.entries.len(),
        forall|k: int|
            0 <= k < handles.entries.len() ==> (
            #[trigger] handles.without_handles(fds).entries[k]) == (if k <= u32::MAX
                && fds.contains(IoFd::Fixed { index: k as u32 }) {
                None
            } else {
                handles.entries[k]
            }),
    decreases fds.len(),
{
    if fds.len() > 0 {
        let front = fds.drop_last();
        let last = fds.last();
        emptied(handles, front);
        assert forall|fd: IoFd| #[trigger] fds.contains(fd) <==> front.contains(fd) || fd
            == last by {
            if fds.contains(fd) {
                let j = fds.index_of(fd);
                if j < front.len() {
                    assert(front[j] == fd);
                }
            }
            if front.contains(fd) {
                assert(fds[front.index_of(fd)] == fd);
            }
            assert(fds[front.len() as int] == last);
        }
    }
}

/// An operation that the system refused is back where it was: its slot is reserved, no
/// event was announced, and it may be submitted again.
pub proof fn refused_operations_may_be_submitted_again<P>(
    before: IocpDriver<P>,
    after: IocpDriver<P>,
    head: SubmitHead,
    released: Seq<RioBufferId>,
    op_step: OpStep,
    step: SubmitStep,
)
    requires
        before.settled(&after, head, released, op_step, &step),
        op_step is Failed,
        !head.background,
        head.holds(before.table.model()),
    ensures
        step is Failed,
        after.table.model().in_state(head.user_data as int, SlotState::Reserved),
        after.table.model().events == before.table.model().events,
        after.table.model().slots[head.user_data as int].op == Some(head.op),
        after.table.model().slots[head.user_data as int].payload
            == before.table.model().slots[head.user_data as int].payload,
        after.rio == before.rio,
{
}

/// A socket that registered I/O has no room for stays with the port: its next transfer
/// does not turn to registered I/O.
pub proof fn demoted_sockets_stay_with_the_port<P>(
    before: IocpDriver<P>,
    demoted: IocpDriver<P>,
    after: IocpDriver<P>,
    head: SubmitHead,
    h: IocpHandle,
    failure: RioFailure,
    released: Vec<RioBufferId>,
    step: OpStep,
    next: SubmitHead,
    next_step: OpStep,
)
    requires
        demotes(failure),
        !(head.op is SendTo),
        before.rio_came_to(&demoted, head, h, RioStep::Failed { failure, released }, &step),
        next.op is Recv || next.op is Send || next.op is UdpRecv || next.op is UdpSend,
        demoted.files.resolved(next.op.fd_spec()->Some_0) == Some(h),
        demoted.begun(&after, next, &next_step),
    ensures
        step matches OpStep::Next { stage, .. } && stage == (SubmitStage::FallbackWanted {
            handle: h,
        }),
        next_step.goes_on(SubmitStage::FallbackWanted { handle: h }),
{
}

/// A socket that left registered I/O is associated with the port once.
pub proof fn sockets_are_associated_once<P>(
    before: IocpDriver<P>,
    after: IocpDriver<P>,
    last: IocpDriver<P>,
    head: SubmitHead,
    h: IocpHandle,
    answer: Answer,
    now: u64,
    step: OpStep,
    next: SubmitHead,
    later: u64,
    next_step: OpStep,
)
    requires
        associated(answer),
        before.op_answered(
            &after,
            head,
            &SubmitStage::FallbackAssociated { handle: h },
            answer,
            now,
            &step,
        ),
        after.op_advanced(
            &last,
            next,
            &SubmitStage::FallbackWanted { handle: h },
            later,
            &next_step,
        ),
    ensures
        next_step.goes_on(SubmitStage::FallbackReady { handle: h }),
{
}

/// A driver that is shutting down does so until its end.
pub proof fn shutting_down_is_final<P>(before: IocpDriver<P>, after: IocpDriver<P>, r: Shutdown)
    requires
        before.shut_down(&after, &r),
    ensures
        after.shutting_down,
{
    if !before.shutting_down {
        let chain = choose|chain: Seq<IocpDriver<P>>| #[trigger]
            cancelled_in_turn(chain, r.targets@, r.actions@) && before.winding_down(&chain[0])
                && chain.last() == after;
        chain_keeps_shutting_down(chain, r.targets@, r.actions@, r.targets@.len() as int);
    }
}

proof fn chain_keeps_shutting_down<P>(
    chain: Seq<IocpDriver<P>>,
    targets: Seq<usize>,
    actions: Seq<CancelAction>,
    k: int,
)
    requires
        cancelled_in_turn(chain, targets, actions),
        chain[0].shutting_down,
        0 <= k <= targets.len(),
    ensures
        chain[k].shutting_down,
    decreases k,
{
    if k > 0 {
        chain_keeps_shutting_down(chain, targets, actions, k - 1);
        assert(chain[k - 1].cancelled(&chain[k], targets[k - 1] as int, &actions[k - 1]));
    }
}

/// A step of a strict close closes the driver exactly if every operation has ended and
/// no request of registered I/O is outstanding. Otherwise it leaves the driver as it is,
/// and so does a step that fails.
pub proof fn strict_close_ends_after_both_drains<P>(
    before: IocpDriver<P>,
    after: IocpDriver<P>,
    drained: usize,
    pending: usize,
    now: u64,
    deadline: u64,
    rio_elapsed: u64,
    timeout: u64,
    r: Result<CloseAction, DriverErrorKind>,
)
    requires
        !before.closed,
        before.close_stepped(
            &after,
            drained,
            pending,
            now,
            deadline,
            rio_elapsed,
            timeout,
            r,
        ),
    ensures
        after.closed <==> drained >= pending && before.rio.outstanding_count == 0,
        after.closed <==> (r matches Ok(CloseAction::Closed { .. })),
        !after.closed ==> after == before,
        r is Err ==> !after.closed,
{
}

/// Shutting down cancels an operation exactly if it is in flight.
pub proof fn operations_in_flight_are_cancelled<P>(t: TableModel<P>, n: int, u: usize)
    requires
        0 <= n <= t.slots.len(),
        n <= usize::MAX,
    ensures
        in_flight_below(t, n).contains(u) <==> u < n && t.in_flight(u as int),
    decreases n,
{
    if n > 0 {
        operations_in_flight_are_cancelled(t, n - 1, u);
        let front = in_flight_below(t, n - 1);
        if t.in_flight(n - 1) {
            let all = front.push((n - 1) as usize);
            assert(in_flight_below(t, n) == all);
            if all.contains(u) {
                let j = all.index_of(u);
                if j < front.len() {
                    assert(front[j] == u);
                }
            }
            if front.contains(u) {
                assert(all[front.index_of(u)] == u);
            }
            assert(all[front.len() as int] == (n - 1) as usize);
        }
    }
}

/// What a request was made for is found under its context until the context is closed,
/// whatever other contexts are opened meanwhile.
pub proof fn contexts_are_found_until_closed(
    start: RequestContexts,
    opened: RequestContexts,
    more: RequestContexts,
    closed: RequestContexts,
    ctx: u64,
    kind: RioCompletionKind,
    other: u64,
    other_kind: RioCompletionKind,
)
    requires
        start.opened(&opened, ctx, kind),
        opened.opened(&more, other, other_kind),
        more.closed(&closed, ctx),
    ensures
        other != ctx,
        opened.lookup(ctx) == Some(kind),
        more.lookup(ctx) == Some(kind),
        closed.lookup(ctx) is None,
        closed.lookup(other) == Some(other_kind),
{
}

} // verus!
