//! What holds of operations and their sockets once it is known what became of a submission.
use vstd::prelude::*;
use crate::slots::SlotState;
use super::cancel::PoolWork;
use super::config::IocpHandle;
use super::driver::IocpDriver;
use super::error::DriverErrorKind;
use super::op::{socket_key_spec, IocpOp};
use super::rio::kernel::RioBufferId;
use super::rio::sockets::SocketKey;
use super::rio::state::RioState;
use super::submission::{SubmitStatus, SubmitStep};
use super::submit::{OpStep, SubmissionResult, SubmitAsk, SubmitFailure, SubmitHead};

verus! {

/// An operation that is submitted starts afresh: it is waited for in its slot, under the
/// generation of the slot, and nothing is left of the notes on an earlier one. What its
/// submitter attached stays, and so does every other slot.
pub proof fn submissions_start_afresh<P>(d: IocpDriver<P>, i: int, op: IocpOp, j: int)
    requires
        0 <= i < d.table.ops.slots@.len(),
    ensures
        ({
            let before = d.table.model();
            let after = d.on_its_way(i, op);
            let p = after.slots[i].platform;
            &&& after.slots.len() == before.slots.len()
            &&& after.slots[i].state == Some(SlotState::InFlightWaiting)
            &&& after.slots[i].op == Some(op)
            &&& after.slots[i].generation == before.slots[i].generation
            &&& after.slots[i].payload == before.slots[i].payload
            &&& p.generation == before.slots[i].generation
            &&& p.blocking_result is None && p.resolved_handle is None && p.datagram is None
                && !p.in_flight
            &&& 0 <= j < before.slots.len() && j != i ==> after.slots[j] == before.slots[j]
            &&& after.events == before.events && after.records == before.records
                && after.deliveries == before.deliveries
        }),
{
}

/// A submission that fails says why: with the system's number, and with everything that has
/// to be deregistered. Nothing is announced. The operation is back in its slot as it was, not
/// under way; one that nobody waits for is gone.
pub proof fn refused_submissions_say_why<P>(
    before: IocpDriver<P>,
    after: IocpDriver<P>,
    head: SubmitHead,
    earlier: Seq<RioBufferId>,
    more: Vec<RioBufferId>,
    failure: SubmitFailure,
    step: SubmitStep,
    j: int,
)
    requires
        head.user_data < before.table.ops.slots@.len(),
        before.settled(&after, head, earlier, OpStep::Failed { failure, released: more }, &step),
    ensures
        step matches SubmitStep::Failed { kind, code, status, op, released } && kind
            == DriverErrorKind::Submission && code == failure.code && status == SubmitStatus::Void
            && op is None && released@ == earlier + more@,
        ({
            let t = before.table.model();
            let u = after.table.model();
            let i = head.user_data as int;
            &&& u.events == t.events && u.records == t.records && u.deliveries == t.deliveries
            &&& u.slots.len() == t.slots.len()
            &&& head.background ==> u.slots[i].state is None && u.slots[i].op is None
            &&& !head.background ==> {
                &&& u.slots[i].state == Some(SlotState::Reserved)
                &&& u.slots[i].op == t.slots[i].op && u.slots[i].payload == t.slots[i].payload
                &&& u.slots[i].generation == t.slots[i].generation
                &&& !u.slots[i].platform.in_flight
            }
            &&& 0 <= j < t.slots.len() && j != i ==> u.slots[j] == t.slots[j]
        }),
        after.rio.sockets == before.rio.sockets,
{
}

/// An operation whose call was made stays under way with nothing announced. One that receives
/// datagrams is known to wait at the pool of its socket, and no other is; one that nobody
/// waits for is known as such.
pub proof fn operations_under_way_are_known<P>(
    before: IocpDriver<P>,
    after: IocpDriver<P>,
    head: SubmitHead,
    earlier: Seq<RioBufferId>,
    more: Vec<RioBufferId>,
    result: SubmissionResult,
    step: SubmitStep,
    j: int,
)
    requires
        head.user_data < before.table.ops.slots@.len(),
        before.settled(&after, head, earlier, OpStep::Done { result, released: more }, &step),
    ensures
        ({
            let t = before.table.model();
            let u = after.table.model();
            let i = head.user_data as int;
            &&& u.events == t.events && u.records == t.records && u.deliveries == t.deliveries
            &&& u.slots.len() == t.slots.len()
            &&& u.slots[i].state == t.slots[i].state && u.slots[i].op == t.slots[i].op
                && u.slots[i].payload == t.slots[i].payload && u.slots[i].generation
                == t.slots[i].generation && u.slots[i].platform.in_flight
                == t.slots[i].platform.in_flight
            &&& head.background ==> u.slots[i].platform.is_background
            &&& !head.background ==> u.slots[i].platform.is_background
                == t.slots[i].platform.is_background
            &&& !head.background && result is Pending ==> u.slots[i].platform.rio_pool_waiting == (
            head.op is UdpRecv || head.op is UdpRecvStream)
            &&& 0 <= j < t.slots.len() && j != i ==> u.slots[j] == t.slots[j]
        }),
        head.background && !(result is Offload) ==> (step matches SubmitStep::Done { released }
            && released@ == earlier + more@),
        head.background ==> (result matches SubmissionResult::Offload { task } ==> (
        step matches SubmitStep::Ask { ask: SubmitAsk::Offload { task: t }, work } && t == task
            && work.head == head && work.released@ == earlier + more@)),
{
}

/// A socket counts the operations that the system works on: one more for each that is pending
/// with the system on it, and for no other. Files are not counted, nor does the count of any
/// other socket change, nor anything else that is known of a socket.
pub proof fn sockets_count_operations_under_way<P>(
    before: IocpDriver<P>,
    after: IocpDriver<P>,
    head: SubmitHead,
    earlier: Seq<RioBufferId>,
    more: Vec<RioBufferId>,
    result: SubmissionResult,
    step: SubmitStep,
    h: IocpHandle,
    other: SocketKey,
)
    requires
        before.settled(&after, head, earlier, OpStep::Done { result, released: more }, &step),
        before.table.ops.slots@[head.user_data as int].platform.resolved_handle == Some(h),
    ensures
        ({
            let counts = result is Pending && h is Socket
                && before.table.ops.slots@[head.user_data as int].platform.in_flight;
            let key = socket_key_spec(h);
            let was = before.rio.sockets.of(key);
            let is = after.rio.sockets.of(key);
            &&& counts && was.inflight < usize::MAX ==> is.inflight == was.inflight + 1
            &&& counts && was.inflight == usize::MAX ==> is.inflight == usize::MAX
            &&& !counts ==> is.inflight == was.inflight
            &&& is.closing == was.closing && is.registered == was.registered && is.fallback
                == was.fallback && is.fallback_associated == was.fallback_associated
            &&& other != key ==> after.rio.sockets.of(other) == before.rio.sockets.of(other)
        }),
{
}

/// A socket counts one operation less when the system is done with it, which is then no longer
/// under way; no other operation and no other socket is touched.
pub proof fn sockets_count_ended_operations<P>(
    before: IocpDriver<P>,
    after: IocpDriver<P>,
    i: int,
    h: IocpHandle,
    other: SocketKey,
    j: int,
)
    requires
        0 <= i < before.table.ops.slots@.len(),
        before.let_go(&after, i),
        before.table.ops.slots@[i].platform.resolved_handle == Some(h),
        before.table.ops.slots@[i].state is Some,
        before.table.ops.slots@[i].op is Some,
    ensures
        ({
            let counted = h is Socket && before.table.ops.slots@[i].platform.in_flight;
            let key = socket_key_spec(h);
            let was = before.rio.sockets.of(key);
            let is = after.rio.sockets.of(key);
            &&& !after.table.model().slots[i].platform.in_flight
            &&& counted && was.inflight > 0 ==> is.inflight + 1 == was.inflight
            &&& !counted || was.inflight == 0 ==> is.inflight == was.inflight
            &&& is.closing == was.closing && is.registered == was.registered && is.fallback
                == was.fallback && is.fallback_associated == was.fallback_associated
            &&& other != key ==> after.rio.sockets.of(other) == before.rio.sockets.of(other)
            &&& 0 <= j < before.table.ops.slots@.len() && j != i ==> after.table.model().slots[j]
                == before.table.model().slots[j]
            &&& after.table.model().events == before.table.model().events
        }),
{
}

/// A socket counts one operation less, too, when an operation of registered I/O is given up.
pub proof fn sockets_count_given_up_operations(
    before: RioState,
    after: RioState,
    h: IocpHandle,
    pool_waiting: bool,
    user_data: usize,
    generation: u32,
    pools: Seq<PoolWork>,
    other: SocketKey,
)
    requires
        before.op_left(&after, h, pool_waiting, user_data, generation, pools),
    ensures
        ({
            let key = socket_key_spec(h);
            let was = before.sockets.of(key);
            let is = after.sockets.of(key);
            &&& h is Socket && was.inflight > 0 ==> is.inflight + 1 == was.inflight
            &&& h is File || was.inflight == 0 ==> is.inflight == was.inflight
            &&& is.closing == was.closing && is.registered == was.registered && is.fallback
                == was.fallback && is.fallback_associated == was.fallback_associated
            &&& other != key ==> after.sockets.of(other) == before.sockets.of(other)
        }),
        !pool_waiting ==> pools.len() == 0,
        after.outstanding_count == before.outstanding_count,
{
}

} // verus!
