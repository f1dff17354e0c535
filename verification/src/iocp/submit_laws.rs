//! What holds of what is asked of the system for an operation.
use vstd::prelude::*;
use crate::sockaddr::{decodes_to, AddrError, SocketAddr};
use super::config::IocpHandle;
use super::driver::IocpDriver;
use super::op::{IoFd, IocpOp};
use super::rio::kernel::RioBufferId;
use super::rio::pool::{Answer, RioFailure, UdpPoolPacket, UdpWaiterKind};
use super::rio::submit::{RioRequest, RioStep};
use super::submission::{SubmitStatus, SubmitStep};
use super::submit::{
    BlockingCall, BlockingTask, OpStep, SubmissionResult, SubmitAsk, SubmitHead, SubmitStage,
};
use super::table::Delivery;

verus! {

/// The handle is the system's number `n`.
pub open spec fn is_number(h: IocpHandle, n: usize) -> bool {
    match h {
        IocpHandle::File { handle } => handle == n,
        IocpHandle::Socket { handle, .. } => handle == n,
    }
}

/// `from` and the length lead exactly up to `end`. There is nothing beyond `end`.
pub open spec fn reaches_up_to(from: usize, len: u32, end: usize) -> bool {
    &&& from > end ==> len == 0
    &&& from <= end && end - from <= u32::MAX ==> from + len == end
}

/// The answer to an association is no refusal. A handle that is associated already is
/// refused with error 87, which does not count.
pub open spec fn takes_part(answer: Answer) -> bool {
    answer.value != 0 || answer.error == 87
}

/// A step that asks the system for something is passed on as it is, for the same
/// operation, and changes nothing.
pub proof fn asks_are_passed_on<P>(
    before: IocpDriver<P>,
    after: IocpDriver<P>,
    head: SubmitHead,
    released: Seq<RioBufferId>,
    ask: SubmitAsk,
    stage: SubmitStage,
    step: SubmitStep,
)
    requires
        before.settled(&after, head, released, OpStep::Ask { ask, stage }, &step),
    ensures
        step matches SubmitStep::Ask { ask: a, work } && a == ask && work.head == head && work.stage
            == stage,
        after.table.model() == before.table.model(),
        after.rio == before.rio,
{
}

/// Once its file is associated, a write asks for `WriteFile` and a read for `ReadFile`, on
/// the handle that was looked up, at the operation's place in the file, with the part of
/// its buffer from the offset up to the end of what is filled. A refusal is passed on, with
/// its number.
pub proof fn files_are_read_and_written<P>(
    before: IocpDriver<P>,
    mid: IocpDriver<P>,
    after: IocpDriver<P>,
    head: SubmitHead,
    h: IocpHandle,
    answer: Answer,
    now: u64,
    op_step: OpStep,
    released: Seq<RioBufferId>,
    step: SubmitStep,
)
    requires
        before.op_answered(
            &mid,
            head,
            &SubmitStage::FileAssociated { handle: h },
            answer,
            now,
            &op_step,
        ),
        mid.settled(&after, head, released, op_step, &step),
    ensures
        takes_part(answer) ==> (head.op matches IocpOp::WriteFixed { buf, buf_offset, offset, .. }
            ==> {
            &&& step matches SubmitStep::Ask { ask, work }
            &&& work.head == head && work.stage is Issued
            &&& ask matches SubmitAsk::WriteFile { handle, ptr, start, len, offset: o }
            &&& is_number(h, handle)
            &&& ptr == buf.ptr && start == buf_offset && o == offset
            &&& reaches_up_to(start, len, buf.len)
        }),
        takes_part(answer) ==> (head.op matches IocpOp::ReadFixed { buf, buf_offset, offset, .. }
            ==> {
            &&& step matches SubmitStep::Ask { ask, work }
            &&& work.head == head && work.stage is Issued
            &&& ask matches SubmitAsk::ReadFile { handle, ptr, start, len, offset: o }
            &&& is_number(h, handle)
            &&& ptr == buf.ptr && start == buf_offset && o == offset
            &&& reaches_up_to(start, len, buf.len)
        }),
        answer.value == 0 && 0 <= answer.error && answer.error != 87 ==> (step matches SubmitStep::Failed {
            code,
            status,
            ..
        } && code == Some(answer.error) && status == SubmitStatus::Void),
{
}

/// What is asked of the system follows the kind of the operation, at every stage that needs
/// no answer.
pub proof fn asks_follow_the_operation<P>(
    before: IocpDriver<P>,
    after: IocpDriver<P>,
    head: SubmitHead,
    stage: SubmitStage,
    now: u64,
    step: OpStep,
)
    requires
        stage.suits(head, &before),
        before.op_advanced(&after, head, &stage, now, &step),
    ensures
        step matches OpStep::Ask { ask, .. } ==> {
            &&& !(ask is ReadFile) && !(ask is WriteFile)
            &&& ask is WsaSend ==> head.op is Send || head.op is UdpSend
            &&& ask is WsaRecv ==> head.op is Recv || head.op is UdpRecv || head.op is UdpRecvStream
            &&& !(ask is ConnectEx) && !(ask is Bind) && !(ask is SocketName) && !(ask is AcceptEx)
        },
{
}

/// What is asked of the system follows the kind of the operation, after every answer: a
/// file is read for a read alone and written for a write alone, and a connection is asked
/// for or taken only for an operation of that kind.
pub proof fn asks_after_answers_follow_the_operation<P>(
    before: IocpDriver<P>,
    after: IocpDriver<P>,
    head: SubmitHead,
    stage: SubmitStage,
    answer: Answer,
    now: u64,
    step: OpStep,
)
    requires
        stage.suits(head, &before),
        before.op_answered(&after, head, &stage, answer, now, &step),
    ensures
        step matches OpStep::Ask { ask, .. } ==> {
            &&& ask is ReadFile ==> head.op is ReadFixed
            &&& ask is WriteFile ==> head.op is WriteFixed
            &&& !(ask is WsaSend) && !(ask is WsaRecv)
            &&& ask is ConnectEx || ask is SocketName ==> head.op is Connect
            &&& ask is AcceptEx ==> head.op is Accept
        },
{
}

/// The start of a submission: an operation on a descriptor that refers to nothing is
/// refused. A file is associated with the port before it is read or written, and a socket
/// before it connects or listens.
pub proof fn submissions_start_with_the_port<P>(
    before: IocpDriver<P>,
    after: IocpDriver<P>,
    head: SubmitHead,
    fd: IoFd,
    step: OpStep,
)
    requires
        head.op.fd_spec() == Some(fd),
        before.begun(&after, head, &step),
    ensures
        fd matches IoFd::Fixed { index } ==> (index >= before.files.entries@.len()
            || before.files.entries@[index as int] is None ==> (step matches OpStep::Failed {
            failure,
            ..
        } && failure.error is ResolveFd)),
        fd matches IoFd::Raw { handle: h } ==> {
            &&& head.op is ReadFixed || head.op is WriteFixed || head.op is Connect
                || head.op is Accept ==> {
                &&& step matches OpStep::Ask { ask, stage }
                &&& ask matches SubmitAsk::Associate { handle, port }
                &&& is_number(h, handle) && port == before.port.handle.raw
                &&& head.op is ReadFixed || head.op is WriteFixed ==> stage == (
                SubmitStage::FileAssociated { handle: h })
                &&& head.op is Connect ==> stage == (SubmitStage::ConnectAssociated { handle: h })
                &&& head.op is Accept ==> stage == (SubmitStage::ListenAssociated { handle: h })
            }
        },
{
}

/// An operation that blocks is handed to the thread pool, as a call on the handle that its
/// descriptor refers to, with what the operation says; a packet comes to the port for that
/// operation.
pub proof fn blocking_operations_are_offloaded<P>(
    before: IocpDriver<P>,
    after: IocpDriver<P>,
    head: SubmitHead,
    h: IocpHandle,
    n: usize,
    step: OpStep,
)
    requires
        before.begun(&after, head, &step),
        is_number(h, n),
    ensures
        head.op matches IocpOp::Open { path_ptr, flags, mode } ==> (step matches OpStep::Done {
            result: SubmissionResult::Offload { task },
            ..
        } && task.port == before.port.handle.raw && task.user_data == head.user_data && task.call
            == (BlockingCall::Open { path_ptr, flags, mode })),
        head.op matches IocpOp::Close { fd: IoFd::Raw { handle } } ==> (handle == h ==> (
        step matches OpStep::Done { result: SubmissionResult::Offload { task }, .. } && task.port
            == before.port.handle.raw && task.user_data == head.user_data && task.call == (
        BlockingCall::Close { handle: n }))),
        head.op matches IocpOp::Fsync { fd: IoFd::Raw { handle } } ==> (handle == h ==> (
        step matches OpStep::Done { result: SubmissionResult::Offload { task }, .. } && task.port
            == before.port.handle.raw && task.user_data == head.user_data && task.call == (
        BlockingCall::Fsync { handle: n }))),
        head.op matches IocpOp::SyncRange { fd: IoFd::Raw { handle } } ==> (handle == h ==> (
        step matches OpStep::Done { result: SubmissionResult::Offload { task }, .. } && task.port
            == before.port.handle.raw && task.user_data == head.user_data && task.call == (
        BlockingCall::SyncFileRange { handle: n }))),
        head.op matches IocpOp::Fallocate { fd: IoFd::Raw { handle }, mode, offset, len } ==> (
        handle == h ==> (step matches OpStep::Done {
            result: SubmissionResult::Offload { task },
            ..
        } && task.port == before.port.handle.raw && task.user_data == head.user_data && task.call
            == (BlockingCall::Fallocate { handle: n, mode, offset, len }))),
        head.op is Wakeup ==> (step matches OpStep::Done { result, .. } && result is PostToQueue),
        head.op matches IocpOp::Timeout { nanos } ==> (step matches OpStep::Done {
            result: SubmissionResult::Timer { nanos: n },
            ..
        } && n == nanos),
        step matches OpStep::Done { result: SubmissionResult::Offload { .. }, .. } ==> head.op is Open
            || head.op is Close || head.op is Fsync || head.op is SyncRange || head.op is Fallocate,
        step matches OpStep::Done { result: SubmissionResult::Timer { .. }, .. }
            ==> head.op is Timeout,
{
}

/// What registered I/O is asked to do for a transfer has the direction of the operation,
/// its buffer, its offset and, for a send to an address, that address. What it is asked to
/// do for an operation that wants a datagram is to give one in the form that the operation
/// takes.
pub proof fn requests_follow_the_operation<P>(
    before: IocpDriver<P>,
    after: IocpDriver<P>,
    head: SubmitHead,
    step: OpStep,
)
    requires
        before.begun(&after, head, &step),
    ensures
        step matches OpStep::Next { stage: SubmitStage::Rio { work }, .. } ==> {
            &&& work.stage is FindActor
            &&& work.target.user_data == head.user_data
            &&& work.target.generation == head.generation
            &&& before.files.resolved(head.op.fd_spec()->Some_0) == Some(work.target.handle)
            &&& head.op matches IocpOp::Recv { buf, buf_offset, .. } ==> (
            work.request matches RioRequest::Recv { transfer } && transfer.buf == buf
                && transfer.buf_offset == buf_offset && transfer.chunk == head.chunk)
            &&& head.op matches IocpOp::Send { buf, buf_offset, .. } ==> (
            work.request matches RioRequest::Send { transfer } && transfer.buf == buf
                && transfer.buf_offset == buf_offset && transfer.chunk == head.chunk)
            &&& head.op matches IocpOp::UdpSend { buf, buf_offset, .. } ==> (
            work.request matches RioRequest::Send { transfer } && transfer.buf == buf
                && transfer.buf_offset == buf_offset && transfer.chunk == head.chunk)
            &&& head.op matches IocpOp::SendTo { buf, buf_offset, addr, addr_ptr, .. } ==> (
            work.request matches RioRequest::SendTo { transfer, addr: a, addr_ptr: p, page, .. }
                && transfer.buf == buf && transfer.buf_offset == buf_offset && transfer.chunk
                == head.chunk && a == addr && p == addr_ptr && page == Some(before.slot_memory))
            &&& head.op is UdpRecv ==> (work.request matches RioRequest::Pool { kind, .. } && kind
                == UdpWaiterKind::Recv)
            &&& head.op is UdpRecvStream ==> (work.request matches RioRequest::Pool { kind, .. }
                && kind == UdpWaiterKind::Stream)
            &&& work.request is Recv ==> head.op is Recv
            &&& work.request is Send ==> head.op is Send || head.op is UdpSend
            &&& work.request is SendTo ==> head.op is SendTo
        },
        head.op is Recv || head.op is Send || head.op is UdpSend || head.op is UdpRecv
            || head.op is SendTo || head.op is UdpRecvStream ==> {
            ||| step matches OpStep::Next { stage: SubmitStage::Rio { .. }, .. }
            ||| step matches OpStep::Next { stage: SubmitStage::FallbackWanted { .. }, .. }
            ||| step is Failed
        },
        head.op is SendTo || head.op is UdpRecvStream ==> !(step matches OpStep::Next {
            stage: SubmitStage::FallbackWanted { .. },
            ..
        }),
{
}

/// The chunks of a receive pool have room for what its first operation can take: the part
/// of its buffer that a datagram goes into, or all of the buffer that it hands over.
pub proof fn datagrams_fit_the_first_operation<P>(
    before: IocpDriver<P>,
    after: IocpDriver<P>,
    head: SubmitHead,
    step: OpStep,
)
    requires
        before.begun(&after, head, &step),
    ensures
        step matches OpStep::Next { stage: SubmitStage::Rio { work }, .. } ==> {
            &&& head.op matches IocpOp::UdpRecv { buf, buf_offset, .. } ==> (
            work.request matches RioRequest::Pool { chunk_size, .. } && buf_offset + chunk_size
                >= buf.len)
            &&& head.op matches IocpOp::UdpRecvStream { buf: Some(buf), .. } ==> (
            work.request matches RioRequest::Pool { chunk_size, .. } && chunk_size >= buf.len
                && chunk_size >= buf.capacity)
        },
{
}

/// A transfer on a socket that has left registered I/O goes through the port in its own
/// direction, on that socket, with the part of its buffer from the offset up to the end of
/// what is filled.
pub proof fn transfers_through_the_port_keep_direction<P>(
    before: IocpDriver<P>,
    mid: IocpDriver<P>,
    after: IocpDriver<P>,
    head: SubmitHead,
    h: IocpHandle,
    now: u64,
    op_step: OpStep,
    released: Seq<RioBufferId>,
    step: SubmitStep,
)
    requires
        before.op_advanced(&mid, head, &SubmitStage::FallbackReady { handle: h }, now, &op_step),
        mid.settled(&after, head, released, op_step, &step),
    ensures
        head.op matches IocpOp::Send { buf, buf_offset, .. } ==> {
            &&& step matches SubmitStep::Ask { ask: SubmitAsk::WsaSend { socket, ptr, start, len }, .. }
            &&& is_number(h, socket) && ptr == buf.ptr && start == buf_offset
            &&& reaches_up_to(start, len, buf.len)
        },
        head.op matches IocpOp::UdpSend { buf, buf_offset, .. } ==> {
            &&& step matches SubmitStep::Ask { ask: SubmitAsk::WsaSend { socket, ptr, start, len }, .. }
            &&& is_number(h, socket) && ptr == buf.ptr && start == buf_offset
            &&& reaches_up_to(start, len, buf.len)
        },
        head.op matches IocpOp::Recv { buf, buf_offset, .. } ==> {
            &&& step matches SubmitStep::Ask { ask: SubmitAsk::WsaRecv { socket, ptr, start, len }, .. }
            &&& is_number(h, socket) && ptr == buf.ptr && start == buf_offset
            &&& reaches_up_to(start, len, buf.len)
        },
        head.op matches IocpOp::UdpRecv { buf, buf_offset, .. } ==> {
            &&& step matches SubmitStep::Ask { ask: SubmitAsk::WsaRecv { socket, ptr, start, len }, .. }
            &&& is_number(h, socket) && ptr == buf.ptr && start == buf_offset
            &&& reaches_up_to(start, len, buf.len)
        },
        head.op matches IocpOp::UdpRecvStream { buf: Some(buf), .. } ==> {
            &&& step matches SubmitStep::Ask { ask: SubmitAsk::WsaRecv { socket, ptr, start, len }, .. }
            &&& is_number(h, socket) && ptr == buf.ptr && start == 0
            &&& reaches_up_to(start, len, buf.len)
        },
{
}

/// A socket that is to connect asks for its name once it is associated with the port.
/// Where the name is an address with a port, the connection to the operation's address is
/// asked for; otherwise the socket is first bound to the address without a port and
/// without a place that has the family of the operation's address.
pub proof fn sockets_are_bound_before_they_connect<P>(
    d: IocpDriver<P>,
    head: SubmitHead,
    h: IocpHandle,
    name: Option<Seq<u8>>,
    addr: SocketAddr,
    a: SocketAddr,
    step: OpStep,
)
    requires
        head.op matches IocpOp::Connect { addr: to, .. } && to == addr,
        d.name_read(head, h, name, &step),
    ensures
        step matches OpStep::Ask { ask, stage } && {
            ||| {
                &&& ask matches SubmitAsk::ConnectEx { socket, addr: to }
                &&& is_number(h, socket) && to == addr && stage is Issued
            }
            ||| {
                &&& ask matches SubmitAsk::Bind { socket, addr: place }
                &&& is_number(h, socket) && stage == (SubmitStage::Bound { handle: h })
                &&& place is V4 <==> addr is V4
                &&& match place {
                    SocketAddr::V4(p) => p.port == 0 && (forall|k: int|
                        0 <= k < 4 ==> #[trigger] p.ip@[k] == 0),
                    SocketAddr::V6(p) => p.port == 0 && p.flowinfo == 0 && p.scope_id == 0 && (
                    forall|k: int| 0 <= k < 16 ==> #[trigger] p.ip@[k] == 0),
                }
            }
        },
        name matches Some(bytes) ==> (decodes_to(d.order, 23, bytes, Ok(a)) ==> {
            &&& (a matches SocketAddr::V4(p) ==> (p.port != 0 <==> (step matches OpStep::Ask {
                ask: SubmitAsk::ConnectEx { .. },
                ..
            })))
            &&& (a matches SocketAddr::V6(p) ==> (p.port != 0 <==> (step matches OpStep::Ask {
                ask: SubmitAsk::ConnectEx { .. },
                ..
            })))
        }),
        name is None ==> (step matches OpStep::Ask { ask: SubmitAsk::Bind { .. }, .. }),
        name matches Some(bytes) ==> ((exists|e: AddrError|
            decodes_to(d.order, 23, bytes, Err(e))) ==> (step matches OpStep::Ask {
            ask: SubmitAsk::Bind { .. },
            ..
        })),
{
}

/// A connection is asked for on the socket of the operation, to the address of the
/// operation, and only when the socket is bound; its name is asked for on the same socket.
pub proof fn connections_go_to_the_address_given<P>(
    before: IocpDriver<P>,
    after: IocpDriver<P>,
    head: SubmitHead,
    h: IocpHandle,
    addr: SocketAddr,
    answer: Answer,
    now: u64,
    step: OpStep,
)
    requires
        head.op matches IocpOp::Connect { addr: to, .. } && to == addr,
    ensures
        before.op_answered(
            &after,
            head,
            &SubmitStage::ConnectAssociated { handle: h },
            answer,
            now,
            &step,
        ) && takes_part(answer) ==> (step matches OpStep::Ask { ask, stage } && {
            &&& ask matches SubmitAsk::SocketName { socket }
            &&& is_number(h, socket) && stage == (SubmitStage::NameRead { handle: h })
        }),
        before.op_answered(&after, head, &SubmitStage::Bound { handle: h }, answer, now, &step) ==> {
            &&& answer.value != 0 ==> (step matches OpStep::Ask { ask, stage } && {
                &&& ask matches SubmitAsk::ConnectEx { socket, addr: to }
                &&& is_number(h, socket) && to == addr && stage is Issued
            })
            &&& answer.value == 0 ==> (step matches OpStep::Failed { failure, .. } && failure.code
                == Some(answer.error))
        },
{
}

/// A connection is taken by the socket that the operation brought, from the socket that
/// listens, once both are associated with the port; the output has room for an address of
/// each side.
pub proof fn connections_are_taken_by_the_socket_given<P>(
    before: IocpDriver<P>,
    after: IocpDriver<P>,
    head: SubmitHead,
    h: IocpHandle,
    taker: usize,
    answer: Answer,
    now: u64,
    step: OpStep,
)
    requires
        head.op matches IocpOp::Accept { accept_socket, .. } && accept_socket == taker,
        takes_part(answer),
    ensures
        before.op_answered(
            &after,
            head,
            &SubmitStage::ListenAssociated { handle: h },
            answer,
            now,
            &step,
        ) ==> (step matches OpStep::Ask { ask, stage } && {
            &&& ask matches SubmitAsk::Associate { handle, port }
            &&& handle == taker && port == before.port.handle.raw
            &&& stage == (SubmitStage::AcceptAssociated { handle: h })
        }),
        before.op_answered(
            &after,
            head,
            &SubmitStage::AcceptAssociated { handle: h },
            answer,
            now,
            &step,
        ) ==> (step matches OpStep::Ask { ask, stage } && {
            &&& ask matches SubmitAsk::AcceptEx { listen, accept, section_len }
            &&& is_number(h, listen) && accept == taker && section_len == 128 + 16
            &&& stage is Issued
        }),
{
}

/// An operation is under way when the call that starts it reports no failure, or reports
/// that it is pending, which is error 997; any other failure is passed on with its number.
pub proof fn started_calls_are_pending<P>(
    before: IocpDriver<P>,
    after: IocpDriver<P>,
    head: SubmitHead,
    answer: Answer,
    now: u64,
    step: OpStep,
)
    requires
        before.op_answered(&after, head, &SubmitStage::Issued, answer, now, &step),
    ensures
        answer.value != 0 || answer.error == 997 ==> (step matches OpStep::Done { result, .. }
            && result is Pending),
        answer.value == 0 && 0 <= answer.error && answer.error != 997 ==> (step matches OpStep::Failed {
            failure,
            ..
        } && failure.code == Some(answer.error)),
        after.table.model() == before.table.model(),
{
}

/// A datagram that was waiting goes to the operation whole: a stream is handed the chunk
/// that the datagram came into, with its length and its sender; a receive gets a copy of
/// the front of that chunk, from the offset of its buffer on, as far as it is filled, and
/// reports as many bytes as were copied.
pub proof fn waiting_datagrams_are_given<P>(
    before: IocpDriver<P>,
    after: IocpDriver<P>,
    head: SubmitHead,
    h: IocpHandle,
    p: UdpPoolPacket,
    released: Vec<RioBufferId>,
    step: OpStep,
)
    requires
        head.user_data < before.table.model().slots.len(),
        before.rio_came_to(
            &after,
            head,
            h,
            RioStep::Done { served: Some(p), released },
            &step,
        ),
    ensures
        step matches OpStep::Done { result, .. } && result is PostToQueue,
        after.table.model().deliveries.len() == before.table.model().deliveries.len() + 1,
        head.op is UdpRecvStream ==> {
            &&& after.table.model().deliveries.last() matches Delivery::Hand {
                user_data,
                generation,
                chunk,
                len,
                peer,
            }
            &&& user_data == head.user_data && generation == head.generation
            &&& chunk == p.chunk && len == p.len && peer == p.peer
            &&& after.table.model().slots[head.user_data as int].platform.datagram == Some(p)
        },
        head.op matches IocpOp::UdpRecv { buf, buf_offset, .. } ==> {
            &&& after.table.model().deliveries.last() matches Delivery::Copy {
                user_data,
                generation,
                chunk,
                start,
                copied,
            }
            &&& user_data == head.user_data && generation == head.generation
            &&& chunk == p.chunk
            &&& copied <= p.len && start + copied <= buf.len
            &&& copied < p.len ==> start + copied == buf.len
            &&& buf_offset <= buf.len ==> start == buf_offset
            &&& buf_offset > buf.len ==> copied == 0
            &&& after.table.model().slots[head.user_data as int].platform.blocking_result == Some(
                Ok::<usize, Option<i32>>(copied),
            )
        },
{
}

/// A request that registered I/O made or could not make is answered for: one that was made
/// leaves the operation pending, and one that failed is refused with the system's number,
/// unless the failure was that there is no more room, error 10055. Then the socket is
/// served by the port from now on, but for a send to an address.
pub proof fn only_lack_of_room_leads_to_the_port<P>(
    before: IocpDriver<P>,
    after: IocpDriver<P>,
    head: SubmitHead,
    h: IocpHandle,
    failure: RioFailure,
    released: Vec<RioBufferId>,
    rio_step: RioStep,
    step: OpStep,
)
    requires
        before.rio_came_to(&after, head, h, rio_step, &step),
    ensures
        rio_step == (RioStep::Done { served: None, released }) ==> (step matches OpStep::Done {
            result,
            ..
        } && result is Pending && after.table.model() == before.table.model()),
        rio_step == (RioStep::Failed { failure, released }) && head.op is SendTo ==> (
        step matches OpStep::Failed { failure: f, .. } && f.code == failure.code),
        rio_step == (RioStep::Failed { failure, released }) && !(head.op is SendTo) && failure.code
            == Some(10055i32) ==> (step matches OpStep::Next { stage, .. } && stage == (
        SubmitStage::FallbackWanted { handle: h })),
        rio_step == (RioStep::Failed { failure, released }) && failure.code != Some(10055i32)
            && step is Next ==> after.rio.sockets == before.rio.sockets,
        rio_step is Ask ==> (step matches OpStep::Ask { ask: SubmitAsk::Rio { ask }, stage } && (
        rio_step matches RioStep::Ask { ask: a, work } && a == ask && stage == (SubmitStage::Rio {
            work,
        }))),
{
}

/// When an operation is under way, its submission is over. What has to be posted, handed to
/// the thread pool or timed is asked for under the operation's own number, at the driver's
/// port, for as long as the operation says.
pub proof fn submissions_end_as_the_operation_needs<P>(
    before: IocpDriver<P>,
    after: IocpDriver<P>,
    head: SubmitHead,
    earlier: Seq<RioBufferId>,
    more: Vec<RioBufferId>,
    result: SubmissionResult,
    task: BlockingTask,
    nanos: u64,
    step: SubmitStep,
)
    requires
        !head.background,
        before.settled(&after, head, earlier, OpStep::Done { result, released: more }, &step),
    ensures
        result is Pending ==> (step matches SubmitStep::Done { released } && released@ == earlier
            + more@),
        result is PostToQueue ==> (step matches SubmitStep::Ask {
            ask: SubmitAsk::Notify { port, user_data },
            ..
        } && port == before.port.handle.raw && user_data == head.user_data),
        result == (SubmissionResult::Offload { task }) ==> (step matches SubmitStep::Ask {
            ask: SubmitAsk::Offload { task: t },
            ..
        } && t == task),
        result == (SubmissionResult::Timer { nanos }) ==> (step matches SubmitStep::Ask {
            ask: SubmitAsk::StartTimer { user_data, nanos: n },
            ..
        } && user_data == head.user_data && n == nanos),
        step matches SubmitStep::Ask { work, .. } ==> work.head == head && work.released@ == earlier
            + more@,
        after.table.model().events == before.table.model().events,
{
}

} // verus!
