//! What holds of calls of the driver, whatever state it is in.
use vstd::prelude::*;
use crate::slots::SlotState;
use crate::sockaddr::{decodes_to, SocketAddr};
use super::chunks::ChunkSet;
use super::driver::{SubmitPoll, UringDriver};
use super::error::{DriverErrorKind, UringError};
use super::laws::first_entry_of_a_batch_counts;
use super::lifecycle::{CancelStep, Cqe};
use super::op::{Sqe, UringOp};

verus! {

/// The entry that is made for an operation moves data in its direction, on its descriptor:
/// what is filled of the buffer from the offset on when it sends or writes, and as much as
/// there is room for when it receives or reads.
pub proof fn made_entries_carry_the_operation_out(
    op: &UringOp,
    registered: &ChunkSet,
    r: Result<Sqe, UringError>,
)
    requires
        op.wf(),
        call_ensures(UringOp::make_sqe, (op, registered), r),
    ensures
        *op matches UringOp::Send { fd, buf, buf_offset } ==> (r matches Ok(
            Sqe::Send { fd: f, start, len },
        ) && f == fd && start == buf_offset && (buf.len - buf_offset <= u32::MAX ==> start + len
            == buf.len)),
        *op matches UringOp::UdpSend { fd, buf, buf_offset } ==> (r matches Ok(
            Sqe::Send { fd: f, start, len },
        ) && f == fd && start == buf_offset && (buf.len - buf_offset <= u32::MAX ==> start + len
            == buf.len)),
        *op matches UringOp::SendTo { fd, buf, buf_offset, addr } ==> (r matches Ok(
            Sqe::SendMsg { fd: f, start, len, addr: a },
        ) && f == fd && start == buf_offset && start + len == buf.len && a == addr),
        *op matches UringOp::Recv { fd, buf, buf_offset } ==> (r matches Ok(
            Sqe::Recv { fd: f, start, len },
        ) && f == fd && start == buf_offset && (buf.capacity - buf_offset <= u32::MAX ==> start
            + len == buf.capacity)),
        *op matches UringOp::UdpRecv { fd, buf, buf_offset } ==> (r matches Ok(
            Sqe::Recv { fd: f, start, len },
        ) && f == fd && start == buf_offset && (buf.capacity - buf_offset <= u32::MAX ==> start
            + len == buf.capacity)),
        *op matches UringOp::WriteFixed { fd, buf, buf_offset, offset } ==> match r {
            Ok(Sqe::Write { fd: f, start, len, offset: o }) => f == fd && start == buf_offset && o
                == offset && (buf.len - buf_offset <= u32::MAX ==> start + len == buf.len),
            Ok(Sqe::WriteFixed { fd: f, start, len, offset: o, buf_index }) => f == fd && start
                == buf_offset && o == offset && buf_index == buf.region.id && (buf.len - buf_offset
                <= u32::MAX ==> start + len == buf.len),
            _ => false,
        },
        *op matches UringOp::ReadFixed { fd, buf, buf_offset, offset } ==> match r {
            Ok(Sqe::Read { fd: f, start, len, offset: o }) => f == fd && start == buf_offset && o
                == offset && (buf.capacity - buf_offset <= u32::MAX ==> start + len
                == buf.capacity),
            Ok(Sqe::ReadFixed { fd: f, start, len, offset: o, buf_index }) => f == fd && start
                == buf_offset && o == offset && buf_index == buf.region.id && (buf.capacity
                - buf_offset <= u32::MAX ==> start + len == buf.capacity),
            _ => false,
        },
        r matches Ok(sqe) ==> (sqe is Send ==> *op is Send || *op is UdpSend) && (sqe is Recv
            ==> *op is Recv || *op is UdpRecv) && (sqe is SendMsg ==> *op is SendTo) && (
        sqe is RecvMsg ==> *op is UdpRecvStream) && (sqe is Write || sqe is WriteFixed
            ==> *op is WriteFixed) && (sqe is Read || sqe is ReadFixed ==> *op is ReadFixed),
{
}

/// When completions are processed, the first entry with the number of an operation that is
/// waited for ends it. Its submitter picks up the result and the flags of that entry, under
/// the operation's token, with what was attached, and with the address of the peer for a
/// datagram of a stream or an accepted connection.
pub proof fn processed_entries_end_their_operation<P>(
    cqes: &Vec<Cqe>,
    k: int,
    i: usize,
    op: UringOp,
    a: SocketAddr,
)
    requires
        0 <= k < cqes@.len(),
        i < 0xffff_fffd,
        cqes@[k].user_data == i,
        forall|j: int| 0 <= j < k ==> (#[trigger] cqes@[j]).index() != i,
    ensures
        forall|d: &mut UringDriver<P>, again: bool| #[trigger]
            call_ensures(UringDriver::<P>::process_completions_internal, (d, cqes), again) && (
            *d).wf() && i < (*d).ops.slots@.len() && (*d).ops.slots@[i as int].state == Some(
                SlotState::InFlightWaiting,
            ) && (*d).ops.slots@[i as int].op == Some(op) && (*d).waker.token != Some(i) ==> {
                let was = (*d).ops.slots@[i as int];
                &&& (*final(d)).ops.slots@[i as int].state is None
                &&& (*final(d)).completions.records()[i as int] matches Some(r) && {
                    &&& r.event.token.user_data == i
                    &&& r.event.token.generation == was.generation
                    &&& r.event.res == cqes@[k].res
                    &&& r.event.flags == cqes@[k].flags
                    &&& r.payload == was.payload
                    &&& (op is UdpRecvStream || op is Accept) && cqes@[k].res >= 0 && decodes_to(
                        (*d).order,
                        10,
                        cqes@[k].name@,
                        Ok(a),
                    ) ==> r.peer == Some(a)
                }
            },
{
    assert forall|d: &mut UringDriver<P>, again: bool| #[trigger]
        call_ensures(UringDriver::<P>::process_completions_internal, (d, cqes), again) && (
        *d).wf() && i < (*d).ops.slots@.len() && (*d).ops.slots@[i as int].state == Some(
            SlotState::InFlightWaiting,
        ) && (*d).ops.slots@[i as int].op == Some(op) && (*d).waker.token != Some(i) implies {
        let was = (*d).ops.slots@[i as int];
        &&& (*final(d)).ops.slots@[i as int].state is None
        &&& (*final(d)).completions.records()[i as int] matches Some(r) && {
            &&& r.event.token.user_data == i
            &&& r.event.token.generation == was.generation
            &&& r.event.res == cqes@[k].res
            &&& r.event.flags == cqes@[k].flags
            &&& r.payload == was.payload
            &&& (op is UdpRecvStream || op is Accept) && cqes@[k].res >= 0 && decodes_to(
                (*d).order,
                10,
                cqes@[k].name@,
                Ok(a),
            ) ==> r.peer == Some(a)
        }
    } by {
        let m = (*d).model();
        first_entry_of_a_batch_counts(
            m,
            (*d).order,
            (*d).waker.token,
            cqes@,
            k,
            i as int,
            op,
            a,
        );
        assert((*final(d)).model() == m.after_cqes((*d).order, (*d).waker.token, cqes@));
    }
}

/// An operation whose entry found no room waits in the backlog, behind all others; one whose
/// submission failed goes back to its submitter, out of its slot; one that is on its way is
/// left alone.
pub proof fn submissions_end_in_the_backlog_or_with_the_submitter<P>(
    user_data: usize,
    outcome: Result<bool, UringError>,
    op: UringOp,
)
    ensures
        forall|
            d: &mut UringDriver<P>,
            given: &mut Option<UringOp>,
            r: Result<SubmitPoll, DriverErrorKind>,
        | #[trigger]
            call_ensures(UringDriver::<P>::finish_submit, (d, user_data, given, outcome), r)
                ==> {
                &&& outcome == Ok::<bool, UringError>(true) ==> r is Ok && (*final(d)).backlog@ == (
                *d).backlog@ && (*final(d)).ops.slots@ == (*d).ops.slots@
                &&& outcome == Ok::<bool, UringError>(false) ==> r is Ok && (*final(d)).backlog@.len() == (*d).backlog@.len() + 1 && (*final(d)).backlog@.last()
                    == user_data && (*d).backlog@.is_prefix_of((*final(d)).backlog@)
                &&& outcome is Err && user_data < (*d).ops.slots@.len() && (
                *d).ops.slots@[user_data as int].op == Some(op) ==> {
                    &&& r is Err
                    &&& *final(given) == Some(op)
                    &&& (*final(d)).ops.slots@[user_data as int].op is None
                    &&& (*final(d)).ops.slots@[user_data as int].generation == (
                    *d).ops.slots@[user_data as int].generation
                    &&& (*final(d)).backlog@ == (*d).backlog@
                }
            },
{
}

/// Operations leave the backlog in the order in which they came.
pub proof fn backlogs_keep_their_order<P>(user_data: usize)
    ensures
        forall|d: &mut UringDriver<P>| #[trigger]
            call_ensures(UringDriver::<P>::push_backlog, (d, user_data), ()) ==> (*final(d)).backlog@.last() == user_data && (*d).backlog@.is_prefix_of((*final(d)).backlog@)
                && (*final(d)).backlog@.len() == (*d).backlog@.len() + 1,
        forall|d: &mut UringDriver<P>, r: Option<usize>| #[trigger]
            call_ensures(UringDriver::<P>::pop_backlog, (d,), r) ==> {
                &&& r is None <==> (*d).backlog@.len() == 0
                &&& r matches Some(i) ==> i == (*d).backlog@[0] && (*d).backlog@ == seq![i] + (
                *final(d)).backlog@
            },
{
    assert forall|d: &mut UringDriver<P>, r: Option<usize>| #[trigger]
        call_ensures(UringDriver::<P>::pop_backlog, (d,), r) implies {
        &&& r is None <==> (*d).backlog@.len() == 0
        &&& r matches Some(i) ==> i == (*d).backlog@[0] && (*d).backlog@ == seq![i] + (*final(d)).backlog@
    } by {
        if (*d).backlog@.len() > 0 {
            assert((*d).backlog@ =~= seq![(*d).backlog@[0]] + (*d).backlog@.drop_first());
        }
    }
}

/// An operation that is cancelled before the kernel has seen it ends at once with error 125,
/// and nothing has to be done for it; one that a timer works on ends so, too, and its timer
/// has to be stopped; for one that the kernel works on a cancellation has to be asked for.
pub proof fn cancelled_operations_are_dealt_with<P>(user_data: usize, timer: u64)
    ensures
        forall|d: &mut UringDriver<P>, step: CancelStep| #[trigger]
            call_ensures(UringDriver::<P>::cancel_op_internal, (d, user_data), step) && (*d).wf()
                && user_data < (*d).ops.slots@.len() ==> {
                let was = (*d).ops.slots@[user_data as int];
                let is = (*final(d)).ops.slots@[user_data as int];
                let at_once = was.state == Some(SlotState::Reserved) || (was.state == Some(
                    SlotState::InFlightWaiting,
                ) && was.platform.timer_id is Some);
                &&& at_once ==> is.state is None && ((*final(d)).completions.records()[user_data as int] matches Some(r) && r.event.res == -125
                    && r.event.token.user_data == user_data && r.event.token.generation
                    == was.generation && r.payload == was.payload)
                &&& was.state == Some(SlotState::InFlightWaiting) && was.platform.timer_id == Some(
                    timer,
                ) ==> step == (CancelStep::StopTimer { timer_id: timer })
                &&& was.state == Some(SlotState::InFlightWaiting) && was.platform.timer_id is None
                    ==> step == (CancelStep::PushCancel { user_data }) && is.state == Some(
                    SlotState::InFlightOrphaned,
                ) && is.op == was.op && (*final(d)).completions.events() == (
                *d).completions.events()
                &&& was.state is None || was.state == Some(SlotState::InFlightOrphaned)
                    ==> step is Nothing && is == was && (*final(d)).completions.events() == (
                *d).completions.events()
            },
{
    assert forall|d: &mut UringDriver<P>, step: CancelStep| #[trigger]
        call_ensures(UringDriver::<P>::cancel_op_internal, (d, user_data), step) && (*d).wf()
            && user_data < (*d).ops.slots@.len() implies {
        let was = (*d).ops.slots@[user_data as int];
        let is = (*final(d)).ops.slots@[user_data as int];
        let at_once = was.state == Some(SlotState::Reserved) || (was.state == Some(
            SlotState::InFlightWaiting,
        ) && was.platform.timer_id is Some);
        &&& at_once ==> is.state is None && ((*final(d)).completions.records()[user_data as int] matches Some(r) && r.event.res == -125
            && r.event.token.user_data == user_data && r.event.token.generation == was.generation
            && r.payload == was.payload)
        &&& was.state == Some(SlotState::InFlightWaiting) && was.platform.timer_id == Some(timer)
            ==> step == (CancelStep::StopTimer { timer_id: timer })
        &&& was.state == Some(SlotState::InFlightWaiting) && was.platform.timer_id is None
            ==> step == (CancelStep::PushCancel { user_data }) && is.state == Some(
            SlotState::InFlightOrphaned,
        ) && is.op == was.op && (*final(d)).completions.events() == (*d).completions.events()
        &&& was.state is None || was.state == Some(SlotState::InFlightOrphaned) ==> step is Nothing
            && is == was && (*final(d)).completions.events() == (*d).completions.events()
    } by {
        let m = (*d).model();
        let n = (*final(d)).model();
        assert((n, step) == m.cancelled(user_data));
        assert(n.slots == (*final(d)).ops.slots@);
        assert(n.records == (*final(d)).completions.records());
        assert(n.events == (*final(d)).completions.events());
        assert(m.records.len() == m.slots.len());
    }
}

} // verus!
