//! What holds of what the submitters of operations learn.
use vstd::prelude::*;
use crate::completion::event_res;
use crate::slots::{OpSlot, SlotState};
use crate::sockaddr::{decoded_is_unique, decodes_to, AddrError, SocketAddr};
use super::completions::{
    peer_named, reported, CompletionAnswer, CompletionAsk, CompletionStep, CompletionWork, Packet,
    UNNUMBERED_ERROR,
};
use super::driver::{Cleanup, IocpDriver};
use super::error::IocpError;
use super::net::AF_INET6;
use super::op::{IoFd, IocpOp, IocpOpState};
use super::rio::pool::{Answer, UdpPoolPacket};
use super::submission::SubmitStep;
use super::submit::{bytes_of, SubmitStage, SubmitWork};
use super::submit_laws::is_number;
use super::table::TableModel;
use super::timers::TimerRestart;
use super::win32::CompletionStatus;

verus! {

/// The operation in slot `i` is under way, in the use of the slot that it was submitted
/// in; somebody waits for it, and nothing more is to come of it once it has ended.
pub open spec fn is_waited_for<P>(d: IocpDriver<P>, i: int) -> bool {
    let slot = d.table.ops.slots@[i];
    &&& 0 <= i < d.table.ops.slots@.len()
    &&& slot.state == Some(SlotState::InFlightWaiting)
    &&& slot.platform.generation == slot.generation
    &&& !slot.platform.is_background
    &&& !slot.platform.rio_needs_drain
}

/// The operation in slot `i` has ended with `res`, the address `peer` and what was attached
/// to it, under its token, and one event announces that. Its slot is free, and so are no
/// others.
pub open spec fn has_ended<P>(
    before: IocpDriver<P>,
    after: IocpDriver<P>,
    i: int,
    res: int,
    peer: Option<SocketAddr>,
) -> bool {
    let t = before.table.model();
    let u = after.table.model();
    &&& u.slots.len() == t.slots.len()
    &&& u.slots[i].state is None
    &&& u.records[i] matches Some(r) && {
        &&& r.event.token.user_data == i
        &&& r.event.token.generation == t.slots[i].generation
        &&& r.event.res == res
        &&& r.payload == t.slots[i].payload
        &&& r.peer == peer
        &&& u.events == t.events.push(r.event)
    }
    &&& forall|j: int|
        0 <= j < t.slots.len() && j != i ==> (#[trigger] u.slots[j]) == t.slots[j] && u.records[j]
            == t.records[j]
}

/// A number as a result: the largest one that a result can hold stands for all beyond it.
pub open spec fn as_count(n: int) -> int {
    if n > 0x7fff_ffff {
        0x7fff_ffff
    } else {
        n
    }
}

/// What is left of the system's work on an operation touches nothing of what its submitter
/// learns.
proof fn letting_go_keeps_the_operation<P>(
    before: IocpDriver<P>,
    after: IocpDriver<P>,
    i: int,
    out: Cleanup,
)
    requires
        before.table.ops.live(i),
        before.op_released(&after, i, &out),
    ensures
        after.table.model().events == before.table.model().events,
        after.table.model().records == before.table.model().records,
        after.table.model().slots.len() == before.table.model().slots.len(),
        forall|j: int|
            0 <= j < before.table.ops.slots@.len() && j != i ==> (
            #[trigger] after.table.model().slots[j]) == before.table.model().slots[j],
        after.table.model().slots[i].generation == before.table.model().slots[i].generation,
        after.table.model().slots[i].payload == before.table.model().slots[i].payload,
        after.table.model().slots[i].detail == before.table.model().slots[i].detail,
        after.table.model().slots[i].platform.is_background
            == before.table.model().slots[i].platform.is_background,
        after.table.model().slots[i].platform.rio_needs_drain
            == before.table.model().slots[i].platform.rio_needs_drain,
{
    let mid = choose|mid: IocpDriver<P>| #[trigger]
        before.let_go(&mid, i) && if before.busy_socket(i) is Some {
            mid.cleaned_up(&after, &out)
        } else {
            after == mid && out.released@.len() == 0 && out.closes@.len() == 0
        };
    assert(after.table == mid.table);
}

/// An operation that ends is published, once, also when its notes were changed first.
proof fn noted_endings_are_published<P>(
    before: IocpDriver<P>,
    mid: IocpDriver<P>,
    after: IocpDriver<P>,
    i: int,
    notes: IocpOpState,
    res: Result<usize, Option<i32>>,
    peer: Option<SocketAddr>,
    step: CompletionStep,
    value: int,
)
    requires
        before.wf(),
        is_waited_for(before, i),
        before.noted(&mid, i, notes),
        notes.generation == before.notes(i).generation,
        !notes.is_background && !notes.rio_needs_drain,
        mid.ends_with(&after, i, res, peer, &step),
        match res {
            Ok(n) => value == as_count(n as int),
            Err(Some(code)) => code > i32::MIN && value == -code,
            Err(None) => value == -1,
        },
    ensures
        step is Done,
        has_ended(before, after, i, value, peer),
        res == Err::<usize, Option<i32>>(None) ==> (
        after.table.model().records[i] matches Some(r) && r.detail == Some(Err::<usize, i32>(1))),
{
    let cleanup = step->Done_cleanup;
    assert(mid.table.model().slots == mid.table.ops.slots@);
    let noted = if res == Err::<usize, Option<i32>>(None) {
        mid.table.model().with_slot(
            i,
            OpSlot { detail: Some(Err(UNNUMBERED_ERROR)), ..mid.table.ops.slots@[i] },
        )
    } else {
        mid.table.model()
    };
    let (start, free) = choose|start: IocpDriver<P>, free: IocpDriver<P>| #[trigger]
        start.op_released(&free, i, &cleanup) && start.same_but_table(&mid)
            && start.table.model() == noted && after.same_but_table(&free) && after.table.model()
            == free.table.model().emitted(i, res, peer);
    assert(start.table.model().slots == start.table.ops.slots@);
    letting_go_keeps_the_operation(start, free, i, cleanup);
    assert(i < before.table.ops.slots.len());
    assert(before.table.model().records.len() == before.table.model().slots.len());
}

/// An operation that ends is published, once.
proof fn endings_are_published<P>(
    before: IocpDriver<P>,
    after: IocpDriver<P>,
    i: int,
    res: Result<usize, Option<i32>>,
    peer: Option<SocketAddr>,
    step: CompletionStep,
    value: int,
)
    requires
        before.wf(),
        is_waited_for(before, i),
        before.ends_with(&after, i, res, peer, &step),
        match res {
            Ok(n) => value == as_count(n as int),
            Err(Some(code)) => code > i32::MIN && value == -code,
            Err(None) => value == -1,
        },
    ensures
        step is Done,
        has_ended(before, after, i, value, peer),
        res == Err::<usize, Option<i32>>(None) ==> (
        after.table.model().records[i] matches Some(r) && r.detail == Some(Err::<usize, i32>(1))),
{
    assert(before.table.model() =~= before.table.model().with_platform(i, before.notes(i)));
    noted_endings_are_published(before, before, after, i, before.notes(i), res, peer, step, value);
}

/// A transfer that the system reports as done ends with the number of bytes reported. So
/// does every other operation that needs nothing more, and none of them names anybody.
pub proof fn transfers_end_with_the_bytes_reported<P>(
    before: IocpDriver<P>,
    after: IocpDriver<P>,
    user_data: usize,
    op: IocpOp,
    error_code: Option<u32>,
    bytes: u32,
    step: CompletionStep,
)
    requires
        before.wf(),
        is_waited_for(before, user_data as int),
        before.table.ops.slots@[user_data as int].op == Some(op),
        before.table.ops.slots@[user_data as int].platform.blocking_result is None,
        !(op is Accept) && !(op is Connect) && !(op is UdpRecvStream),
        before.completed(&after, user_data, reported(true, error_code, bytes), &step),
    ensures
        step is Done,
        has_ended(before, after, user_data as int, as_count(bytes as int), None),
{
    endings_are_published(
        before,
        after,
        user_data as int,
        Ok(bytes as usize),
        None,
        step,
        as_count(bytes as int),
    );
}

/// An operation that the system reports as failed ends with the negated error, and nothing
/// more is asked for it.
pub proof fn failures_end_with_the_error_reported<P>(
    before: IocpDriver<P>,
    after: IocpDriver<P>,
    user_data: usize,
    code: u32,
    bytes: u32,
    step: CompletionStep,
)
    requires
        before.wf(),
        is_waited_for(before, user_data as int),
        before.table.ops.slots@[user_data as int].platform.blocking_result is None,
        code <= 0x7fff_ffff,
        before.completed(&after, user_data, reported(false, Some(code), bytes), &step),
    ensures
        step is Done,
        has_ended(before, after, user_data as int, -(code as int), None),
{
    endings_are_published(
        before,
        after,
        user_data as int,
        Err(Some(code as i32)),
        None,
        step,
        -(code as int),
    );
}

/// What was found without the port, by the thread pool or in a datagram that waited, is what
/// the operation ends with, whatever the packet says.
pub proof fn results_found_elsewhere_count<P>(
    before: IocpDriver<P>,
    after: IocpDriver<P>,
    user_data: usize,
    found: Result<usize, Option<i32>>,
    res: Result<usize, Option<i32>>,
    step: CompletionStep,
)
    requires
        before.wf(),
        is_waited_for(before, user_data as int),
        before.table.ops.slots@[user_data as int].platform.blocking_result == Some(found),
        before.completed(&after, user_data, res, &step),
    ensures
        step is Done,
        found matches Ok(n) ==> has_ended(
            before,
            after,
            user_data as int,
            as_count(n as int),
            None,
        ),
        found matches Err(Some(code)) ==> has_ended(
            before,
            after,
            user_data as int,
            -(code as int),
            None,
        ),
        found matches Err(None) ==> has_ended(before, after, user_data as int, -1, None),
{
    let i = user_data as int;
    let slot = before.table.ops.slots@[i];
    let cleared = IocpOpState { blocking_result: None, ..slot.platform };
    let mid = choose|mid: IocpDriver<P>| #[trigger]
        before.noted(&mid, i, cleared) && mid.ends_with(&after, i, found, None, &step);
    assert(mid.table.model().slots == mid.table.ops.slots@);
    assert(before.table.ops.slots@[i].platform.wf());
    let value = match found {
        Ok(n) => as_count(n as int),
        Err(Some(code)) => -(code as int),
        Err(None) => -1,
    };
    noted_endings_are_published(before, mid, after, i, cleared, found, None, step, value);
}

/// Before a connection counts, the system is told of it on the socket that was connected;
/// before one that was taken counts, on the socket that took it, with the socket that
/// listens. The sender of a datagram that came through the port is asked for on the socket.
/// Nothing changes meanwhile, and the number of bytes is kept.
pub proof fn connections_are_made_known<P>(
    before: IocpDriver<P>,
    after: IocpDriver<P>,
    user_data: usize,
    op: IocpOp,
    error_code: Option<u32>,
    bytes: u32,
    step: CompletionStep,
)
    requires
        is_waited_for(before, user_data as int),
        before.table.ops.slots@[user_data as int].op == Some(op),
        before.table.ops.slots@[user_data as int].platform.blocking_result is None,
        before.completed(&after, user_data, reported(true, error_code, bytes), &step),
    ensures
        op is Connect ==> (before.table.ops.slots@[user_data as int].platform.resolved_handle
            matches Some(h) ==> {
            &&& step matches CompletionStep::Ask { ask: CompletionAsk::UpdateConnect { socket }, work }
            &&& is_number(h, socket)
            &&& work.user_data == user_data && work.bytes == bytes && work.generation
                == before.table.ops.slots@[user_data as int].generation
            &&& after == before
        }),
        op matches IocpOp::Accept { fd: IoFd::Raw { handle: h }, accept_socket } ==> {
            &&& step matches CompletionStep::Ask {
                ask: CompletionAsk::UpdateAccept { accept, listen },
                work,
            }
            &&& accept == accept_socket && is_number(h, listen)
            &&& work.user_data == user_data && work.bytes == bytes
            &&& after == before
        },
        op matches IocpOp::UdpRecvStream { fd: IoFd::Raw { handle: h }, .. } ==> (
        before.table.ops.slots@[user_data as int].platform.datagram is None ==> {
            &&& step matches CompletionStep::Ask { ask: CompletionAsk::PeerName { socket }, work }
            &&& is_number(h, socket)
            &&& work.user_data == user_data && work.bytes == bytes
            &&& after == before
        }),
        step is Ask ==> op is Connect || op is Accept || op is UdpRecvStream,
{
}

/// A stream that was given a datagram ends with the length of that datagram and names its
/// sender.
pub proof fn given_datagrams_name_their_sender<P>(
    before: IocpDriver<P>,
    after: IocpDriver<P>,
    user_data: usize,
    op: IocpOp,
    p: UdpPoolPacket,
    error_code: Option<u32>,
    step: CompletionStep,
)
    requires
        before.wf(),
        is_waited_for(before, user_data as int),
        before.table.ops.slots@[user_data as int].op == Some(op),
        op is UdpRecvStream,
        before.table.ops.slots@[user_data as int].platform.blocking_result is None,
        before.table.ops.slots@[user_data as int].platform.datagram == Some(p),
        before.completed(&after, user_data, reported(true, error_code, 0), &step),
    ensures
        step is Done,
        has_ended(before, after, user_data as int, as_count(p.len as int), Some(p.peer)),
{
    endings_are_published(
        before,
        after,
        user_data as int,
        Ok(p.len),
        Some(p.peer),
        step,
        as_count(p.len as int),
    );
}

/// A connection ends with what the system said when it was told of it. One that was taken
/// ends with the number of the socket that took it and names the other end; without the
/// system's consent it fails. A datagram that came through the port ends with its bytes and
/// names its sender, where the system could spell it out.
pub proof fn answers_complete_the_operation<P>(
    before: IocpDriver<P>,
    after: IocpDriver<P>,
    work: CompletionWork,
    answer: CompletionAnswer,
    op: IocpOp,
    a: SocketAddr,
    step: CompletionStep,
)
    requires
        before.wf(),
        is_waited_for(before, work.user_data as int),
        before.table.ops.slots@[work.user_data as int].op == Some(op),
        before.table.ops.slots@[work.user_data as int].generation == work.generation,
        answer.error matches Some(code) ==> code > i32::MIN,
        before.completion_answered(&after, work, answer, &step),
    ensures
        op is Connect && answer.error is None ==> has_ended(
            before,
            after,
            work.user_data as int,
            as_count(work.bytes as int),
            None,
        ),
        op is Connect ==> (answer.error matches Some(code) ==> has_ended(
            before,
            after,
            work.user_data as int,
            -(code as int),
            None,
        )),
        op matches IocpOp::Accept { accept_socket, .. } ==> (answer.error is None ==> (
        answer.name matches Some(name) ==> (decodes_to(before.order, 23, name@, Ok(a))
            ==> has_ended(
            before,
            after,
            work.user_data as int,
            as_count(accept_socket as int),
            Some(a),
        )))),
        op matches IocpOp::Accept { accept_socket, .. } ==> (answer.error is None && answer.name is None
            ==> has_ended(
            before,
            after,
            work.user_data as int,
            as_count(accept_socket as int),
            None,
        )),
        op is Accept && answer.error is Some ==> has_ended(
            before,
            after,
            work.user_data as int,
            -1,
            None,
        ) && (after.table.model().records[work.user_data as int] matches Some(r) && r.detail == Some(
            Err::<usize, i32>(1),
        )),
        op is UdpRecvStream ==> (answer.name matches Some(name) ==> (decodes_to(
            before.order,
            23,
            name@,
            Ok(a),
        ) ==> has_ended(
            before,
            after,
            work.user_data as int,
            as_count(work.bytes as int),
            Some(a),
        ))),
        op is UdpRecvStream ==> (answer.name matches Some(name) ==> ((exists|e: AddrError|
            decodes_to(before.order, 23, name@, Err(e))) ==> has_ended(
            before,
            after,
            work.user_data as int,
            as_count(work.bytes as int),
            None,
        ))),
{
    let i = work.user_data as int;
    let named = peer_named(before.order, bytes_of(answer.name));
    if let Some(name) = answer.name {
        if decodes_to(before.order, 23, name@, Ok(a)) {
            decoded_is_unique(before.order, AF_INET6, name@, Ok(a));
            assert(named == Some(a));
        }
        if exists|e: AddrError| decodes_to(before.order, 23, name@, Err(e)) {
            let e = choose|e: AddrError| decodes_to(before.order, 23, name@, Err(e));
            decoded_is_unique(before.order, AF_INET6, name@, Err(e));
            assert(named is None);
        }
    }
    match op {
        IocpOp::Connect { .. } => match answer.error {
            Some(code) => {
                endings_are_published(
                    before,
                    after,
                    i,
                    Err(Some(code)),
                    None,
                    step,
                    -(code as int),
                );
            },
            None => {
                endings_are_published(
                    before,
                    after,
                    i,
                    Ok(work.bytes),
                    None,
                    step,
                    as_count(work.bytes as int),
                );
            },
        },
        IocpOp::Accept { accept_socket, .. } => match answer.error {
            Some(_) => {
                endings_are_published(before, after, i, Err(None), None, step, -1);
            },
            None => {
                endings_are_published(
                    before,
                    after,
                    i,
                    Ok(accept_socket),
                    named,
                    step,
                    as_count(accept_socket as int),
                );
            },
        },
        IocpOp::UdpRecvStream { .. } => {
            endings_are_published(
                before,
                after,
                i,
                Ok(work.bytes),
                named,
                step,
                as_count(work.bytes as int),
            );
        },
        _ => {},
    }
}

/// A packet for an operation that was cancelled ends it with what the packet says, and names
/// nobody; a packet for a slot with nothing under way changes nothing.
pub proof fn cancelled_operations_end_with_their_packet<P>(
    before: IocpDriver<P>,
    after: IocpDriver<P>,
    user_data: usize,
    success: bool,
    error_code: Option<u32>,
    bytes: u32,
    step: CompletionStep,
)
    requires
        before.wf(),
        error_code matches Some(code) ==> code <= 0x7fff_ffff,
        before.completed(&after, user_data, reported(success, error_code, bytes), &step),
    ensures
        before.table.ops.in_state(user_data as int, SlotState::InFlightOrphaned) ==> {
            &&& success ==> has_ended(
                before,
                after,
                user_data as int,
                as_count(bytes as int),
                None,
            )
            &&& !success ==> (error_code matches Some(code) ==> has_ended(
                before,
                after,
                user_data as int,
                -(code as int),
                None,
            ))
        },
        !before.table.ops.live(user_data as int) || before.table.ops.in_state(
            user_data as int,
            SlotState::Reserved,
        ) || before.table.ops.in_state(user_data as int, SlotState::Completed) ==> after == before
            && step is Ignored,
{
    let i = user_data as int;
    if before.table.ops.in_state(i, SlotState::InFlightOrphaned) {
        let cleanup = step->Done_cleanup;
        let res = reported(success, error_code, bytes);
        let slot = before.table.ops.slots@[i];
        let free = choose|free: IocpDriver<P>| #[trigger]
            before.op_released(&free, i, &cleanup) && after.same_but_table(&free)
                && after.table.model() == free.table.model().ended(
                i,
                slot.generation,
                event_res(res) as i32,
                None,
            );
        letting_go_keeps_the_operation(before, free, i, cleanup);
        assert(before.table.model().records.len() == before.table.model().slots.len());
    }
}

/// An operation that nobody waits for leaves without a word, and one that the kernel still
/// has to report on keeps its slot until then.
pub proof fn unwatched_operations_leave_silently<P>(
    t: TableModel<P>,
    i: int,
    n: usize,
    peer: Option<SocketAddr>,
)
    requires
        0 <= i < t.slots.len(),
        t.records.len() == t.slots.len(),
        i <= usize::MAX,
    ensures
        ({
            let p = t.slots[i].platform;
            let after = t.emitted(i, Ok(n), peer);
            &&& p.is_background ==> after.events == t.events && after.records == t.records
                && after.slots[i].state is None
            &&& !p.is_background && p.rio_needs_drain && !p.rio_drained ==> {
                &&& after.slots[i].state == Some(SlotState::Completed)
                &&& after.slots[i].payload is None
                &&& after.records[i] matches Some(r) && r.event.res == as_count(n as int)
                    && r.payload == t.slots[i].payload && r.peer == peer && after.events
                    == t.events.push(r.event)
            }
        }),
{
}

/// Packets are told apart by their keys: the three largest numbers stand for a command, for
/// registered I/O and for a wake-up. Any other packet belongs to the operation whose memory
/// it points to.
pub proof fn packets_find_their_operation<P>(
    d: IocpDriver<P>,
    bytes: u32,
    key: usize,
    overlapped: Option<usize>,
    success: bool,
    error_code: Option<u32>,
)
    requires
        d.table.ops.slots@.len() < usize::MAX,
    ensures
        ({
            let r = d.packet_of(
                CompletionStatus::Completed { bytes, key, overlapped, success, error_code },
            );
            &&& key == usize::MAX - 2 ==> r == Ok::<Packet, IocpError>(Packet::Control)
            &&& key == usize::MAX - 1 ==> r == Ok::<Packet, IocpError>(Packet::Rio)
            &&& key != usize::MAX - 2 && key != usize::MAX - 1 ==> {
                &&& overlapped matches Some(user_data) ==> (user_data < d.table.ops.slots@.len()
                    ==> r == Ok::<Packet, IocpError>(
                    Packet::Op { user_data, success, error_code, bytes },
                ))
                &&& overlapped is None && success && key == usize::MAX ==> r == Ok::<
                    Packet,
                    IocpError,
                >(Packet::Wakeup)
                &&& overlapped is None && success && key < usize::MAX - 2 ==> r == Ok::<
                    Packet,
                    IocpError,
                >(Packet::Op { user_data: key, success, error_code, bytes })
                &&& overlapped is None && !success && key == 0 && error_code != Some(258u32) ==> r
                    == Err::<Packet, IocpError>(IocpError::CompletionWait)
            }
        }),
        d.packet_of(CompletionStatus::Timeout) == Ok::<Packet, IocpError>(Packet::Nothing),
{
}

/// A timer that was started is noted with its number, and runs out as long after now as the
/// operation says. A packet that could not be posted gives the operation back; a call that
/// the thread pool refused ends it with a failure, which its submitter learns of.
pub proof fn last_answers_are_noted<P>(
    before: IocpDriver<P>,
    after: IocpDriver<P>,
    work: SubmitWork,
    answer: Answer,
    now: u64,
    step: SubmitStep,
)
    requires
        before.wf(),
        work.head.user_data < before.table.ops.slots@.len(),
        before.finished(&after, &work, answer, now, &step),
    ensures
        work.stage matches SubmitStage::TimerStarted { nanos } ==> {
            let p = after.table.model().slots[work.head.user_data as int].platform;
            &&& step is Done
            &&& p.timer_id == Some(answer.value)
            &&& p.timer_deadline matches Some(t) && (now + nanos <= u64::MAX ==> t == now + nanos)
                && t >= now
            &&& after.table.model().events == before.table.model().events
        },
        work.stage is Notified && answer.value == 0 ==> {
            &&& step matches SubmitStep::Failed { code, op, .. }
            &&& code == Some(answer.error) && op == Some(work.head.op)
            &&& after.table.model().slots[work.head.user_data as int].state is None
            &&& after.table.model().events == before.table.model().events
        },
        work.stage is Offloaded && answer.value == 0 && !work.head.background ==> {
            &&& step is Failed
            &&& after.table.model().slots[work.head.user_data as int].state is None
            &&& after.table.model().records[work.head.user_data as int] matches Some(r)
                && r.event.res == -1 && r.event.token.user_data == work.head.user_data
                && r.event.token.generation == work.head.generation && r.payload
                == before.table.model().slots[work.head.user_data as int].payload
                && after.table.model().events == before.table.model().events.push(r.event)
        },
        (work.stage is Offloaded || work.stage is Notified) && answer.value != 0 ==> {
            &&& step is Done
            &&& after.table.model().events == before.table.model().events
            &&& after.table.model().slots[work.head.user_data as int].state
                == before.table.model().slots[work.head.user_data as int].state
        },
{
    assert(before.table.model().records.len() == before.table.model().slots.len());
}

/// A timer that fires when its time has come ends its operation with 0; one that fires early
/// changes nothing and has to be started again for exactly the time that is left.
pub proof fn timers_end_their_operation_in_time<P>(t: TableModel<P>, i: usize, now: u64, deadline: u64)
    requires
        i < t.slots.len(),
        t.records.len() == t.slots.len(),
        t.slots[i as int].state == Some(SlotState::InFlightWaiting),
        t.slots[i as int].platform.timer_deadline == Some(deadline),
    ensures
        ({
            let after = t.timers_fired(seq![i], now);
            let again = t.restarts(seq![i], now);
            &&& now >= deadline ==> {
                &&& again.len() == 0
                &&& after.slots[i as int].state is None
                &&& after.records[i as int] matches Some(r) && r.event.res == 0
                    && r.event.token.user_data == i && r.event.token.generation
                    == t.slots[i as int].generation && r.payload == t.slots[i as int].payload
                    && after.events == t.events.push(r.event)
            }
            &&& now < deadline ==> {
                &&& after == t
                &&& again.len() == 1
                &&& again[0].user_data == i && now + again[0].nanos == deadline
            }
        }),
{
    reveal_with_fuel(TableModel::timers_fired, 2);
    reveal_with_fuel(TableModel::restarts, 2);
    let one = seq![i];
    assert(one.drop_last() =~= Seq::<usize>::empty());
    assert(one.last() == i);
    assert(t.timers_fired(Seq::<usize>::empty(), now) == t);
    assert(t.restarts(Seq::<usize>::empty(), now) =~= Seq::<TimerRestart>::empty());
}

/// A timer that fires early is started again for exactly the time that is left, however many
/// others fire with it, and the operation is left alone; nothing else is started again.
pub proof fn early_timers_are_started_again<P>(
    t: TableModel<P>,
    fired: Seq<usize>,
    now: u64,
    i: usize,
    deadline: u64,
    again: TimerRestart,
)
    ensures
        i < t.slots.len() && t.slots[i as int].platform.timer_deadline == Some(deadline) && now
            < deadline && (t.slots[i as int].state == Some(SlotState::InFlightWaiting)
            || t.slots[i as int].state == Some(SlotState::InFlightOrphaned)) ==> {
            &&& t.timers_fired(fired, now).slots[i as int] == t.slots[i as int]
            &&& fired.contains(i) ==> t.restarts(fired, now).contains(
                TimerRestart { user_data: i, nanos: (deadline - now) as u64 },
            )
        },
        t.restarts(fired, now).contains(again) ==> fired.contains(again.user_data)
            && again.user_data < t.slots.len() && t.slots[again.user_data as int].platform.timer_deadline
            == Some((now + again.nanos) as u64) && now + again.nanos <= u64::MAX && again.nanos > 0,
        t.timers_fired(fired, now).slots.len() == t.slots.len(),
    decreases fired.len(),
{
    if fired.len() > 0 {
        let front = fired.drop_last();
        let last = fired.last();
        let mid = t.timers_fired(front, now);
        let was = t.restarts(front, now);
        let all = t.restarts(fired, now);
        early_timers_are_started_again(t, front, now, i, deadline, again);
        assert(fired[fired.len() - 1] == last);
        let new = TimerRestart { user_data: i, nanos: (deadline - now) as u64 };
        if was.contains(new) {
            assert(all[was.index_of(new)] == new);
        }
        if fired.contains(i) && last != i {
            let k = fired.index_of(i);
            assert(front[k] == i);
        }
        if last == i && mid.time_left(last as int, now) is Some {
            assert(all[all.len() - 1].user_data == i);
        }
        if all.contains(again) {
            let k = all.index_of(again);
            if k < was.len() {
                assert(was[k] == again);
                let f = front.index_of(again.user_data);
                assert(fired[f] == again.user_data);
            } else {
                assert(again.user_data == last);
                only_endings_change_deadlines(t, front, now, last as int);
            }
        }
    }
}

/// What timers do leaves the deadline of an operation that stays in flight alone.
proof fn only_endings_change_deadlines<P>(t: TableModel<P>, fired: Seq<usize>, now: u64, i: int)
    requires
        0 <= i < t.slots.len(),
    ensures
        ({
            let after = t.timers_fired(fired, now);
            &&& after.slots.len() == t.slots.len()
            &&& after.in_flight(i) ==> after.slots[i] == t.slots[i]
        }),
    decreases fired.len(),
{
    if fired.len() > 0 {
        only_endings_change_deadlines(t, fired.drop_last(), now, i);
    }
}

/// A packet for an earlier use of a slot ends nothing: whatever is under way in the slot now
/// stays under way, and nothing is announced.
pub proof fn packets_of_earlier_uses_end_nothing<P>(
    before: IocpDriver<P>,
    after: IocpDriver<P>,
    user_data: usize,
    res: Result<usize, Option<i32>>,
    step: CompletionStep,
)
    requires
        before.wf(),
        user_data < before.table.ops.slots@.len(),
        before.table.ops.slots@[user_data as int].state == Some(SlotState::InFlightWaiting),
        before.table.ops.slots@[user_data as int].platform.generation
            != before.table.ops.slots@[user_data as int].generation,
        before.completed(&after, user_data, res, &step),
    ensures
        !(step is Done),
        after.table.model().events == before.table.model().events,
        after.table.model().records == before.table.model().records,
        after.table.model().slots[user_data as int].state == Some(SlotState::InFlightWaiting),
        after.table.model().slots[user_data as int].op
            == before.table.model().slots[user_data as int].op,
        after.rio.sockets == before.rio.sockets,
{
    let i = user_data as int;
    let slot = before.table.ops.slots@[i];
    if let Some(found) = slot.platform.blocking_result {
        let mid = choose|mid: IocpDriver<P>| #[trigger]
            before.noted(&mid, i, IocpOpState { blocking_result: None, ..slot.platform })
                && mid.ends_with(&after, i, found, None, &step);
        assert(mid.table.model().slots[i] == mid.table.ops.slots@[i]);
    }
}

} // verus!
