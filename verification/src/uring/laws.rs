//! What holds of the driver across operations.
use vstd::prelude::*;
use crate::completion::CompletionEvent;
use crate::sockaddr::{
    decoded, decoded_is_unique, decodes_to, AddrError, ByteOrder, SocketAddr,
};
use super::driver::{SubmitStep, UringDriver};
use super::error::UringError;
use super::lifecycle::{CancelStep, Cqe, DriverModel};
use super::net::AF_INET6;
use super::op::{IoFd, Sqe, UringOp};
use super::ring::WakerArm;
use crate::slots::{next_generation, SlotState};

verus! {

/// An operation ends once: a completion that arrives again changes nothing.
pub proof fn repeated_completion_is_ignored<P>(
    m: DriverModel<P>,
    order: ByteOrder,
    waker: Option<usize>,
    cqe: Cqe,
)
    ensures
        m.after_cqe(order, waker, cqe).after_cqe(order, waker, cqe) == m.after_cqe(
            order,
            waker,
            cqe,
        ),
{
}

/// Every completion entry announces one event at most. It announces one exactly if
/// it ends an operation, and then the slot is free under the next generation.
pub proof fn one_event_per_ended_operation<P>(
    m: DriverModel<P>,
    order: ByteOrder,
    waker: Option<usize>,
    cqe: Cqe,
)
    requires
        m.records.len() == m.slots.len(),
    ensures
        ({
            let after = m.after_cqe(order, waker, cqe);
            let i = cqe.index() as int;
            if after.slots == m.slots {
                after.events == m.events
            } else {
                &&& m.slots[i].state is Some
                &&& after.slots[i].state is None
                &&& after.slots[i].generation == next_generation(m.slots[i].generation)
                &&& after.events.len() == m.events.len() + 1
                &&& after.events.last().token.user_data == i
                &&& after.events.last().token.generation == m.slots[i].generation
                &&& after.events.last().res == cqe.res
            }
        }),
{
    let after = m.after_cqe(order, waker, cqe);
    let i = cqe.index() as int;
    if m.in_state(i, SlotState::InFlightWaiting) || m.in_state(i, SlotState::InFlightOrphaned) {
        if !cqe.is_internal() && waker != Some(cqe.index()) {
            assert(after.slots[i].state is None);
        }
    }
}

/// Cancelling twice is cancelling once.
pub proof fn cancelling_is_idempotent<P>(m: DriverModel<P>, user_data: usize)
    ensures
        m.cancelled(user_data).0.cancelled(user_data) == (
            m.cancelled(user_data).0,
            CancelStep::Nothing,
        ),
{
}

/// A cancelled operation that the kernel works on stays known until the kernel
/// reports back, and then ends with what the kernel reports.
pub proof fn cancelled_operation_ends_with_kernel_result<P>(
    m: DriverModel<P>,
    order: ByteOrder,
    waker: Option<usize>,
    user_data: usize,
    cqe: Cqe,
)
    requires
        m.cancelled(user_data).1 is PushCancel,
        cqe.index() == user_data,
        !cqe.is_internal(),
        waker != Some(user_data),
    ensures
        m.cancelled(user_data).0.events == m.events,
        m.cancelled(user_data).0.after_cqe(order, waker, cqe).events == m.events.push(
            CompletionEvent {
                token: crate::completion::CompletionToken {
                    user_data,
                    generation: m.slots[user_data as int].generation,
                },
                res: cqe.res,
                flags: cqe.flags,
            },
        ),
{
}

/// Processing completions in one batch or in two makes no difference.
pub proof fn batches_can_be_split<P>(
    m: DriverModel<P>,
    order: ByteOrder,
    waker: Option<usize>,
    first: Seq<Cqe>,
    second: Seq<Cqe>,
)
    ensures
        m.after_cqes(order, waker, first + second) == m.after_cqes(order, waker, first).after_cqes(
            order,
            waker,
            second,
        ),
    decreases second.len(),
{
    if second.len() == 0 {
        assert(first + second =~= first);
    } else {
        assert((first + second).drop_last() =~= first + second.drop_last());
        assert((first + second).last() == second.last());
        batches_can_be_split(m, order, waker, first, second.drop_last());
    }
}

/// A driver that woke up listens for the next wake-up, however busy it is: the read that
/// is over leaves its slot to the next one.
pub proof fn wake_ups_follow_each_other<P>(
    before: UringDriver<P>,
    mid: UringDriver<P>,
    after: UringDriver<P>,
    token: usize,
    r: WakerArm,
)
    requires
        before.waker.registered_fd is Some,
        before.waker.token == Some(token),
        before.ops.live(token as int),
        before.read_over(&mid),
        mid.armed(&after, &r),
    ensures
        r is Submit,
        after.waker.token is Some,
{
    assert(!mid.ops.live(token as int));
}

/// Announced events are never withdrawn or reordered: a batch only adds to them.
pub proof fn announced_events_stay<P>(
    m: DriverModel<P>,
    order: ByteOrder,
    waker: Option<usize>,
    cqes: Seq<Cqe>,
)
    ensures
        m.events.is_prefix_of(m.after_cqes(order, waker, cqes).events),
    decreases cqes.len(),
{
    if cqes.len() > 0 {
        announced_events_stay(m, order, waker, cqes.drop_last());
    }
}

/// A slot that is not in flight is not touched by any completion, so an operation
/// that was never submitted cannot complete.
pub proof fn only_operations_in_flight_complete<P>(
    m: DriverModel<P>,
    order: ByteOrder,
    waker: Option<usize>,
    cqes: Seq<Cqe>,
    i: int,
)
    requires
        0 <= i < m.slots.len(),
        !m.in_state(i, SlotState::InFlightWaiting),
        !m.in_state(i, SlotState::InFlightOrphaned),
    ensures
        m.after_cqes(order, waker, cqes).slots.len() == m.slots.len(),
        m.after_cqes(order, waker, cqes).slots[i] == m.slots[i],
    decreases cqes.len(),
{
    if cqes.len() > 0 {
        only_operations_in_flight_complete(m, order, waker, cqes.drop_last(), i);
    }
}

/// No slot number below this one is taken for an entry of the driver's own.
proof fn slot_numbers_are_not_internal(cqe: Cqe)
    requires
        cqe.user_data < 0xffff_fffd,
    ensures
        cqe.index() == cqe.user_data,
        !cqe.is_internal(),
{
    assert(0xffff_ffff_ffff_ffffu64 as usize >= 0xffff_fffd) by (bit_vector);
    assert(0xffff_ffff_ffff_fffeu64 as usize >= 0xffff_fffd) by (bit_vector);
    assert(0xffff_ffff_ffff_fffdu64 as usize >= 0xffff_fffd) by (bit_vector);
}

/// A completion entry ends the operation that is waited for under its number, and no
/// other. What its submitter picks up carries the token of the operation, the result and
/// the flags of the entry, and what was attached. A failure is spelt out, unless a result
/// was stored ahead of time.
pub proof fn entries_complete_their_operation<P>(
    m: DriverModel<P>,
    order: ByteOrder,
    waker: Option<usize>,
    cqe: Cqe,
    i: int,
)
    requires
        0 <= i < m.slots.len(),
        i < 0xffff_fffd,
        m.records.len() == m.slots.len(),
        cqe.user_data == i,
        waker != Some(i as usize),
        m.slots[i].state == Some(SlotState::InFlightWaiting),
    ensures
        ({
            let after = m.after_cqe(order, waker, cqe);
            &&& after.records[i] matches Some(r) && {
                &&& r.event.token.user_data == i
                &&& r.event.token.generation == m.slots[i].generation
                &&& r.event.res == cqe.res
                &&& r.event.flags == cqe.flags
                &&& r.payload == m.slots[i].payload
                &&& m.slots[i].detail is Some ==> r.detail == m.slots[i].detail
                &&& m.slots[i].detail is None && cqe.res >= 0 ==> r.detail is None
                &&& m.slots[i].detail is None && i32::MIN < cqe.res < 0 ==> (
                r.detail matches Some(Err(code)) && code == -cqe.res)
                &&& after.events == m.events.push(r.event)
            }
            &&& after.slots[i].state is None
            &&& after.slots.len() == m.slots.len()
            &&& after.records.len() == m.records.len()
            &&& forall|j: int|
                0 <= j < m.slots.len() && j != i ==> (#[trigger] after.slots[j]) == m.slots[j]
                    && after.records[j] == m.records[j]
        }),
{
    slot_numbers_are_not_internal(cqe);
}

/// An entry for a connection that was accepted, or for a datagram of a stream, says who is
/// at the other end: the address that the kernel spelt out, where it spelt one.
pub proof fn entries_name_the_peer<P>(
    m: DriverModel<P>,
    order: ByteOrder,
    waker: Option<usize>,
    cqe: Cqe,
    i: int,
    op: UringOp,
    a: SocketAddr,
)
    requires
        0 <= i < m.slots.len(),
        i < 0xffff_fffd,
        m.records.len() == m.slots.len(),
        cqe.user_data == i,
        waker != Some(i as usize),
        m.slots[i].state == Some(SlotState::InFlightWaiting),
        m.slots[i].op == Some(op),
    ensures
        (op is UdpRecvStream || op is Accept) && cqe.res >= 0 && decodes_to(
            order,
            10,
            cqe.name@,
            Ok(a),
        ) ==> (m.after_cqe(order, waker, cqe).records[i] matches Some(r) && r.peer == Some(a)),
        (!(op is UdpRecvStream) && !(op is Accept)) || cqe.res < 0 ==> (m.after_cqe(
            order,
            waker,
            cqe,
        ).records[i] matches Some(r) && r.peer is None),
        (exists|e: AddrError| decodes_to(order, 10, cqe.name@, Err(e))) ==> (m.after_cqe(
            order,
            waker,
            cqe,
        ).records[i] matches Some(r) && r.peer is None),
{
    slot_numbers_are_not_internal(cqe);
    if decodes_to(order, 10, cqe.name@, Ok(a)) {
        decoded_is_unique(order, AF_INET6, cqe.name@, Ok(a));
    }
    if exists|e: AddrError| decodes_to(order, 10, cqe.name@, Err(e)) {
        let e = choose|e: AddrError| decodes_to(order, 10, cqe.name@, Err(e));
        decoded_is_unique(order, AF_INET6, cqe.name@, Err(e));
        assert(decoded(order, AF_INET6, cqe.name@) is Err);
    }
}

/// In a batch, the first entry with the number of an operation that is waited for is the
/// one that ends it: what its submitter picks up after the batch is what that entry
/// brought, with the address of the peer for a datagram of a stream or an accepted
/// connection.
pub proof fn first_entry_of_a_batch_counts<P>(
    m: DriverModel<P>,
    order: ByteOrder,
    waker: Option<usize>,
    cqes: Seq<Cqe>,
    k: int,
    i: int,
    op: UringOp,
    a: SocketAddr,
)
    requires
        0 <= k < cqes.len(),
        0 <= i < m.slots.len(),
        i < 0xffff_fffd,
        m.records.len() == m.slots.len(),
        cqes[k].user_data == i,
        forall|j: int| 0 <= j < k ==> (#[trigger] cqes[j]).index() != i,
        waker != Some(i as usize),
        m.slots[i].state == Some(SlotState::InFlightWaiting),
        m.slots[i].op == Some(op),
    ensures
        ({
            let after = m.after_cqes(order, waker, cqes);
            &&& after.slots.len() == m.slots.len()
            &&& after.records.len() == m.slots.len()
            &&& after.slots[i].state is None
            &&& after.records[i] matches Some(r) && {
                &&& r.event.token.user_data == i
                &&& r.event.token.generation == m.slots[i].generation
                &&& r.event.res == cqes[k].res
                &&& r.event.flags == cqes[k].flags
                &&& r.payload == m.slots[i].payload
                &&& (op is UdpRecvStream || op is Accept) && cqes[k].res >= 0 && decodes_to(
                    order,
                    10,
                    cqes[k].name@,
                    Ok(a),
                ) ==> r.peer == Some(a)
            }
        }),
    decreases cqes.len(),
{
    let front = cqes.drop_last();
    let last = cqes.last();
    if k == cqes.len() - 1 {
        entries_for_others_leave_a_slot_alone(m, order, waker, front, i);
        let mid = m.after_cqes(order, waker, front);
        entries_complete_their_operation(mid, order, waker, last, i);
        entries_name_the_peer(mid, order, waker, last, i, op, a);
    } else {
        assert(front[k] == cqes[k]);
        assert forall|j: int| 0 <= j < k implies (#[trigger] front[j]).index() != i by {
            assert(front[j] == cqes[j]);
        }
        first_entry_of_a_batch_counts(m, order, waker, front, k, i, op, a);
        let mid = m.after_cqes(order, waker, front);
        assert(m.after_cqes(order, waker, cqes) == mid.after_cqe(order, waker, last));
    }
}

/// Entries with other numbers change nothing of an operation.
proof fn entries_for_others_leave_a_slot_alone<P>(
    m: DriverModel<P>,
    order: ByteOrder,
    waker: Option<usize>,
    cqes: Seq<Cqe>,
    i: int,
)
    requires
        0 <= i < m.slots.len(),
        m.records.len() == m.slots.len(),
        forall|j: int| 0 <= j < cqes.len() ==> (#[trigger] cqes[j]).index() != i,
    ensures
        m.after_cqes(order, waker, cqes).slots.len() == m.slots.len(),
        m.after_cqes(order, waker, cqes).records.len() == m.slots.len(),
        m.after_cqes(order, waker, cqes).slots[i] == m.slots[i],
        m.after_cqes(order, waker, cqes).records[i] == m.records[i],
    decreases cqes.len(),
{
    if cqes.len() > 0 {
        let front = cqes.drop_last();
        assert forall|j: int| 0 <= j < front.len() implies (#[trigger] front[j]).index() != i by {
            assert(front[j] == cqes[j]);
        }
        entries_for_others_leave_a_slot_alone(m, order, waker, front, i);
        assert(cqes[cqes.len() - 1].index() != i);
    }
}

/// Who cancels an operation learns what became of it. One that the kernel has not seen, or
/// that only a timer works on, ends at once with error 125, and its timer has to be
/// stopped; nobody is told of one that the kernel works on until the kernel answers, and
/// the kernel is asked to give that very operation up.
pub proof fn cancellation_is_answered<P>(m: DriverModel<P>, user_data: usize)
    requires
        user_data < m.slots.len(),
        m.records.len() == m.slots.len(),
    ensures
        ({
            let i = user_data as int;
            let (after, step) = m.cancelled(user_data);
            let ended = {
                &&& after.slots[i].state is None
                &&& after.events.len() == m.events.len() + 1
                &&& after.events.last().token.user_data == user_data
                &&& after.events.last().token.generation == m.slots[i].generation
                &&& after.events.last().res == -125
                &&& after.records[i] matches Some(r) && r.event == after.events.last() && r.payload
                    == m.slots[i].payload && r.peer is None
            };
            &&& m.slots[i].state == Some(SlotState::Reserved) ==> ended && step
                == CancelStep::Nothing
            &&& m.slots[i].state == Some(SlotState::InFlightWaiting)
                && m.slots[i].platform.timer_id is Some ==> ended && (
            step matches CancelStep::StopTimer { timer_id } && Some(timer_id)
                == m.slots[i].platform.timer_id)
            &&& m.slots[i].state == Some(SlotState::InFlightWaiting)
                && m.slots[i].platform.timer_id is None ==> {
                &&& step matches CancelStep::PushCancel { user_data: u } && u == user_data
                &&& after.events == m.events
                &&& after.records == m.records
                &&& after.slots[i].state == Some(SlotState::InFlightOrphaned)
                &&& after.slots[i].op == m.slots[i].op
                &&& after.slots[i].payload == m.slots[i].payload
            }
            &&& m.slots[i].state is None || m.slots[i].state == Some(SlotState::InFlightOrphaned)
                || m.slots[i].state == Some(SlotState::Completed) ==> after == m && step
                == CancelStep::Nothing
        }),
{
}

/// An operation whose timer has run out ends with result 0, if it is still waited for, and
/// is left alone otherwise; so is every operation whose timer has not.
pub proof fn timers_end_with_zero<P>(m: DriverModel<P>, expired: Seq<usize>, i: int)
    requires
        0 <= i < m.slots.len(),
        i <= usize::MAX,
        m.records.len() == m.slots.len(),
    ensures
        ({
            let after = m.after_expiry(expired);
            &&& after.slots.len() == m.slots.len()
            &&& after.records.len() == m.slots.len()
            &&& m.slots[i].state == Some(SlotState::InFlightWaiting) && expired.contains(i as usize)
                ==> {
                &&& after.slots[i].state is None
                &&& after.records[i] matches Some(r) && r.event.res == 0 && r.event.token.user_data
                    == i && r.event.token.generation == m.slots[i].generation && r.payload
                    == m.slots[i].payload
            }
            &&& m.slots[i].state != Some(SlotState::InFlightWaiting) || !expired.contains(
                i as usize,
            ) ==> after.slots[i] == m.slots[i] && after.records[i] == m.records[i]
        }),
    decreases expired.len(),
{
    if expired.len() > 0 {
        let front = expired.drop_last();
        timers_end_with_zero(m, front, i);
        if expired.contains(i as usize) {
            let j = expired.index_of(i as usize);
            if j < front.len() {
                assert(front[j] == i as usize);
            }
        }
        if front.contains(i as usize) {
            assert(expired[front.index_of(i as usize)] == i as usize);
        }
        assert(expired[expired.len() - 1] == expired.last());
    }
}

/// What is put into the submission queue for an operation carries its slot number, and
/// moves data in the direction of the operation: what is filled of its buffer from the
/// offset on when it sends.
pub proof fn submitted_sends_go_out<P>(
    before: UringDriver<P>,
    after: UringDriver<P>,
    i: usize,
    op: UringOp,
    step: SubmitStep,
)
    requires
        op.wf(),
        before.ops.in_state(i as int, SlotState::Reserved),
        before.begun(&after, i, op, step),
    ensures
        op is Timeout ==> (step matches SubmitStep::ArmTimer { user_data, secs, nanos } && user_data
            == i && op == (UringOp::Timeout { secs, nanos })),
        step is ArmTimer ==> op is Timeout,
        op is Close ==> step is Failed && after.ops.slots@ == before.ops.slots@,
        op matches UringOp::Send { fd, buf, buf_offset } ==> {
            &&& step matches SubmitStep::PushSqe(t)
            &&& t.user_data == i
            &&& t.sqe matches Sqe::Send { fd: f, start, len }
            &&& f == fd && start == buf_offset
            &&& buf.len - buf_offset <= u32::MAX ==> start + len == buf.len
        },
        op matches UringOp::UdpSend { fd, buf, buf_offset } ==> {
            &&& step matches SubmitStep::PushSqe(t)
            &&& t.user_data == i
            &&& t.sqe matches Sqe::Send { fd: f, start, len }
            &&& f == fd && start == buf_offset
            &&& buf.len - buf_offset <= u32::MAX ==> start + len == buf.len
        },
        op matches UringOp::SendTo { fd, buf, buf_offset, addr } ==> {
            &&& step matches SubmitStep::PushSqe(t)
            &&& t.user_data == i
            &&& t.sqe matches Sqe::SendMsg { fd: f, start, len, addr: a }
            &&& f == fd && start == buf_offset && start + len == buf.len && a == addr
        },
        op matches UringOp::Recv { fd, buf, buf_offset } ==> {
            &&& step matches SubmitStep::PushSqe(t)
            &&& t.user_data == i
            &&& t.sqe matches Sqe::Recv { fd: f, start, len }
            &&& f == fd && start == buf_offset
            &&& buf.capacity - buf_offset <= u32::MAX ==> start + len == buf.capacity
        },
        step matches SubmitStep::PushSqe(t) ==> {
            &&& t.user_data == i
            &&& after.ops.in_state(i as int, SlotState::InFlightWaiting)
            &&& t.sqe is Send ==> op is Send || op is UdpSend
            &&& t.sqe is Recv ==> op is Recv || op is UdpRecv
            &&& t.sqe is Write || t.sqe is WriteFixed ==> op is WriteFixed
            &&& t.sqe is Read || t.sqe is ReadFixed ==> op is ReadFixed
        },
        step is Failed ==> after.ops.slots@ == before.ops.slots@,
        forall|j: int|
            0 <= j < before.ops.slots@.len() && j != i ==> (#[trigger] after.ops.slots@[j])
                == before.ops.slots@[j],
{
}

/// Entries that the driver made for itself, to cancel or with nobody waiting, carry the three
/// largest numbers, and what the kernel reports of them changes nothing.
pub proof fn internal_entries_change_nothing<P>(
    m: DriverModel<P>,
    order: ByteOrder,
    waker: Option<usize>,
    cqe: Cqe,
)
    requires
        cqe.user_data >= 0xffff_ffff_ffff_fffd,
    ensures
        m.after_cqe(order, waker, cqe) == m,
{
    let n = cqe.user_data;
    assert(n == 0xffff_ffff_ffff_fffd || n == 0xffff_ffff_ffff_fffe || n == 0xffff_ffff_ffff_ffff);
}

/// A driver that listens for wake-ups reads from the descriptor that was registered for them,
/// in a slot of its own; the read goes out like any other operation.
pub proof fn wake_ups_are_read_from_their_descriptor<P>(
    before: UringDriver<P>,
    after: UringDriver<P>,
    r: WakerArm,
    index: u32,
    j: int,
)
    requires
        before.waker.registered_fd == Some(index),
        before.waker.token is None,
        before.armed(&after, &r),
    ensures
        r matches WakerArm::Submit(step) ==> {
            &&& after.waker.token matches Some(i) && {
                &&& i < before.ops.slots@.len() && before.ops.slots@[i as int].state is None
                &&& after.ops.slots@[i as int].op == Some(
                    UringOp::Wakeup { fd: IoFd::Fixed { index } },
                )
                &&& after.ops.slots@[i as int].state == Some(SlotState::InFlightWaiting)
                &&& step matches SubmitStep::PushSqe(t) && t.user_data == i && t.sqe
                    == (Sqe::WakeupRead { fd: IoFd::Fixed { index } })
                &&& 0 <= j < before.ops.slots@.len() && j != i ==> after.ops.slots@[j]
                    == before.ops.slots@[j]
            }
            &&& after.waker.registered_fd == Some(index)
        },
        !(r is Submit) ==> r is Failed && after.waker == before.waker && after.ops.slots@
            == before.ops.slots@,
{
}

/// An operation that runs in the background is not submitted like others: it is refused as
/// not supported. One that has no entry is refused, too. Neither leaves a trace.
pub proof fn refused_operations_leave_no_trace<P>(
    before: UringDriver<P>,
    after: UringDriver<P>,
    i: usize,
    op: UringOp,
    step: SubmitStep,
)
    requires
        0 <= i < before.ops.slots@.len(),
        before.begun(&after, i, op, step),
    ensures
        op is Close ==> step == SubmitStep::Failed(UringError::Unsupported),
        op matches UringOp::UdpRecvStream { buf: None, .. } ==> step == SubmitStep::Failed(
            UringError::Submission,
        ),
        op matches UringOp::SyncRange { nbytes, .. } ==> (0xffff_ffff < nbytes
            && nbytes < 0xffff_ffff_ffff_ffff ==> step == SubmitStep::Failed(
            UringError::Submission,
        )),
        step is Failed ==> after.ops.slots@ == before.ops.slots@,
        !(step is Failed) ==> {
            &&& after.ops.slots@[i as int].state == Some(SlotState::InFlightWaiting)
            &&& after.ops.slots@[i as int].op == before.ops.slots@[i as int].op
            &&& after.ops.slots@[i as int].payload == before.ops.slots@[i as int].payload
            &&& after.ops.slots@[i as int].generation == before.ops.slots@[i as int].generation
            &&& forall|j: int|
                0 <= j < before.ops.slots@.len() && j != i ==> (#[trigger] after.ops.slots@[j])
                    == before.ops.slots@[j]
        },
{
}

} // verus!
