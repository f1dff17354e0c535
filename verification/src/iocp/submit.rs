//! Submitting operations, step by step. Where the system has to do something the
//! work stops, says what is asked, and goes on with the answer.
use vstd::prelude::*;
use crate::slots::SlotState;
use crate::sockaddr::{
    family_of, u16_from, ByteOrder, SocketAddr, SocketAddrV4, SocketAddrV6, AF_INET,
};
use super::buffer::{IocpBuffer, MemoryRange};
use super::config::IocpHandle;
use super::driver::IocpDriver;
use super::error::IocpError;
use super::net::{to_socket_addr_in, AF_INET6};
use super::op::{actor_key, socket_key_spec, IocpOp, IocpOpState};
use super::rio::kernel::RioBufferId;
use super::rio::pool::{
    Answer, RioFailure, UdpPoolPacket, UdpWaiterKind, UDP_RECV_POOL_CHUNK_SIZE,
};
use super::rio::pool_delivery::{copied_len, copy_start};
use super::rio::sockets::{demotes, SocketRuntime};
use super::rio::state::RioState;
use super::rio::submit::{
    RioAsk, RioRequest, RioStage, RioStep, RioTarget, RioTransfer, RioWork,
};
use super::table::{Delivery, TableModel};
use super::win32::{call_accepted, overlapped_result, IoCompletionPort, ERROR_INVALID_PARAMETER};

verus! {

/// The space for an address in the output of `AcceptEx`: a `SOCKADDR_STORAGE` and 16
/// bytes more.
pub const ACCEPT_EX_ADDR_SECTION_LEN: u32 = 144;

/// The space for both addresses.
pub const ACCEPT_EX_OUTPUT_BUFFER_LEN: u32 = 288;

/// A call that may block, and is made by a thread pool.
#[derive(Debug, Clone, Copy, PartialEq, Eq, Structural)]
#[allow(inconsistent_fields)]
pub enum BlockingCall {
    /// Open the file whose path lies at `path_ptr`.
    Open { path_ptr: usize, flags: i32, mode: u32 },
    Close { handle: usize },
    Fsync { handle: usize },
    SyncFileRange { handle: usize },
    Fallocate { handle: usize, mode: i32, offset: u64, len: u64 },
}

/// A call for the thread pool. When it has been made, a packet is posted to the port
/// for the operation.
#[derive(Debug, Clone, Copy, PartialEq, Eq, Structural)]
pub struct BlockingTask {
    pub call: BlockingCall,
    pub port: usize,
    pub user_data: usize,
}

/// What has become of an operation that was submitted.
#[derive(Debug, Clone, Copy, PartialEq, Eq, Structural)]
pub enum SubmissionResult {
    /// Its completion will come by itself.
    Pending,
    /// It is over; a packet has to be posted to the port.
    PostToQueue,
    /// The thread pool has to make a call.
    Offload { task: BlockingTask },
    /// It is over when the time has passed.
    Timer { nanos: u64 },
}

/// What is asked of the system. The answer to a call is 0 when the call reports a
/// failure.
#[derive(Debug, Clone, Copy, PartialEq, Eq)]
#[allow(inconsistent_fields)]
pub enum SubmitAsk {
    /// Associate the handle with the port, under key 0, with `CreateIoCompletionPort`.
    Associate { handle: usize, port: usize },
    /// `ReadFile` into the buffer at `ptr`, from byte `start` of it on.
    ReadFile { handle: usize, ptr: usize, start: usize, len: u32, offset: u64 },
    /// `WriteFile` from the buffer at `ptr`, from byte `start` of it on.
    WriteFile { handle: usize, ptr: usize, start: usize, len: u32, offset: u64 },
    /// `WSARecv` into the buffer at `ptr`, from byte `start` of it on.
    WsaRecv { socket: usize, ptr: usize, start: usize, len: u32 },
    /// `WSASend` from the buffer at `ptr`, from byte `start` of it on.
    WsaSend { socket: usize, ptr: usize, start: usize, len: u32 },
    /// `getsockname`.
    SocketName { socket: usize },
    /// `bind`.
    Bind { socket: usize, addr: SocketAddr },
    /// `ConnectEx`, without data.
    ConnectEx { socket: usize, addr: SocketAddr },
    /// `AcceptEx`, without data.
    AcceptEx { listen: usize, accept: usize, section_len: u32 },
    /// Do what registered I/O asks for.
    Rio { ask: RioAsk },
    /// Post a packet for the operation to the port.
    Notify { port: usize, user_data: usize },
    /// Hand the call to the thread pool.
    Offload { task: BlockingTask },
    /// Start a timer; the answer is its number.
    StartTimer { user_data: usize, nanos: u64 },
}

/// An operation on its way to the system.
#[derive(Debug, Clone, Copy)]
pub struct SubmitHead {
    pub user_data: usize,
    pub generation: u32,
    pub op: IocpOp,
    /// The memory of the chunk that the operation's buffer lies in, if anybody can
    /// tell.
    pub chunk: Option<MemoryRange>,
    /// Nobody waits for it.
    pub background: bool,
}

/// How far a submission has come.
#[derive(Debug)]
#[allow(inconsistent_fields)]
pub enum SubmitStage {
    Begin,
    /// Waits for the association of a file.
    FileAssociated { handle: IocpHandle },
    /// The socket has left registered I/O.
    FallbackWanted { handle: IocpHandle },
    /// Waits for the association of that socket.
    FallbackAssociated { handle: IocpHandle },
    /// The socket is associated with the port.
    FallbackReady { handle: IocpHandle },
    /// Registered I/O works on it.
    Rio { work: RioWork },
    /// Waits for the association of a socket that is to connect.
    ConnectAssociated { handle: IocpHandle },
    /// Waits for the name of that socket.
    NameRead { handle: IocpHandle },
    /// Waits for that socket to be bound.
    Bound { handle: IocpHandle },
    /// Waits for the association of a socket that listens.
    ListenAssociated { handle: IocpHandle },
    /// Waits for the association of the socket that takes the connection.
    AcceptAssociated { handle: IocpHandle },
    /// Waits for the answer to the call that starts the operation.
    Issued,
    /// Waits for the packet to be posted.
    Notified,
    /// Waits for the thread pool to take the call.
    Offloaded,
    /// Waits for the timer to be started.
    TimerStarted { nanos: u64 },
}

/// A submission under way.
#[derive(Debug)]
pub struct SubmitWork {
    pub head: SubmitHead,
    pub stage: SubmitStage,
    /// Buffers that the caller has to deregister when the submission is over.
    pub released: Vec<RioBufferId>,
}

/// Why the system did not take an operation.
#[derive(Debug, Clone, Copy, PartialEq, Eq, Structural)]
pub struct SubmitFailure {
    pub error: IocpError,
    pub code: Option<i32>,
}

/// Where an operation stands on its way to the system.
#[derive(Debug)]
#[allow(inconsistent_fields)]
pub enum OpStep {
    Ask { ask: SubmitAsk, stage: SubmitStage },
    Next { stage: SubmitStage, released: Vec<RioBufferId> },
    Done { result: SubmissionResult, released: Vec<RioBufferId> },
    Failed { failure: SubmitFailure, released: Vec<RioBufferId> },
}

impl OpStep {
    /// The system is asked for something.
    pub open spec fn asks(&self, a: SubmitAsk, s: SubmitStage) -> bool {
        *self == (OpStep::Ask { ask: a, stage: s })
    }

    /// The submission goes on, with nothing to deregister.
    pub open spec fn goes_on(&self, s: SubmitStage) -> bool {
        self matches OpStep::Next { stage, released } && stage == s && released@.len() == 0
    }

    /// The operation was submitted, with nothing to deregister.
    pub open spec fn done_with(&self, r: SubmissionResult) -> bool {
        self matches OpStep::Done { result, released } && result == r && released@.len() == 0
    }

    /// The operation was refused, with nothing to deregister.
    pub open spec fn fails_with(&self, e: IocpError, code: Option<i32>) -> bool {
        self matches OpStep::Failed { failure, released } && failure == (SubmitFailure {
            error: e,
            code,
        }) && released@.len() == 0
    }

    /// A step of an operation that registered I/O works on keeps to that operation.
    pub open spec fn fits<P>(&self, head: SubmitHead, d: &IocpDriver<P>) -> bool {
        match self {
            OpStep::Ask { stage, .. } => stage.suits(head, d) && stage.waits(),
            OpStep::Next { stage, .. } => stage.suits(head, d) && !stage.waits(),
            _ => true,
        }
    }
}

impl SubmitStage {
    /// Waits for an answer.
    pub open spec fn waits(&self) -> bool {
        match self {
            SubmitStage::Begin => false,
            SubmitStage::FallbackWanted { .. } => false,
            SubmitStage::FallbackReady { .. } => false,
            SubmitStage::Rio { work } => work.waits(),
            _ => true,
        }
    }

    /// An operation can be at this stage.
    pub open spec fn suits<P>(&self, head: SubmitHead, d: &IocpDriver<P>) -> bool {
        let op = head.op;
        match self {
            SubmitStage::FileAssociated { .. } => op is ReadFixed || op is WriteFixed,
            SubmitStage::FallbackWanted { .. } => op.rio_spec() && !(op is SendTo),
            SubmitStage::FallbackAssociated { .. } => op.rio_spec() && !(op is SendTo),
            SubmitStage::FallbackReady { .. } => op.rio_spec() && !(op is SendTo),
            SubmitStage::Rio { work } => {
                &&& op.rio_spec()
                &&& work.fits(&d.rio)
                &&& work.target.user_data == head.user_data
                &&& work.target.generation == head.generation
            },
            SubmitStage::ConnectAssociated { .. } => op is Connect,
            SubmitStage::NameRead { .. } => op is Connect,
            SubmitStage::Bound { .. } => op is Connect,
            SubmitStage::ListenAssociated { .. } => op is Accept,
            SubmitStage::AcceptAssociated { .. } => op is Accept,
            _ => true,
        }
    }

    /// The counts of requests have room for what the stage may add.
    pub open spec fn has_room(&self, s: &RioState) -> bool {
        self matches SubmitStage::Rio { work } ==> {
            &&& s.outstanding_count < usize::MAX
            &&& work.stage matches RioStage::Pool { task, .. } ==> s.outstanding_count
                + task.submissions < usize::MAX
        }
    }

    /// Whether the counts of requests have room for what the stage may add.
    pub fn counts_fit(&self, s: &RioState) -> (b: bool)
        ensures
            b == self.has_room(s),
    {
        match self {
            SubmitStage::Rio { work } => {
                if s.outstanding_count == usize::MAX {
                    return false;
                }
                match &work.stage {
                    RioStage::Pool { task, .. } => task.submissions < usize::MAX
                        - s.outstanding_count,
                    _ => true,
                }
            },
            _ => true,
        }
    }
}

impl SubmitHead {
    /// The slot holds the operation, which is under way.
    pub open spec fn holds<P>(&self, t: TableModel<P>) -> bool {
        let i = self.user_data as int;
        &&& t.in_state(i, SlotState::InFlightWaiting)
        &&& t.slots[i].generation == self.generation
        &&& t.slots[i].platform.generation == self.generation
        &&& t.slots[i].op == Some(self.op)
        &&& self.op.wf()
    }

    /// What registered I/O is asked for. Addresses lie in the memory of the slots.
    pub open spec fn rio_request(&self, memory: MemoryRange) -> RioRequest {
        match self.op {
            IocpOp::Recv { buf, buf_offset, .. } => RioRequest::Recv {
                transfer: RioTransfer { buf, buf_offset, chunk: self.chunk },
            },
            IocpOp::Send { buf, buf_offset, .. } => RioRequest::Send {
                transfer: RioTransfer { buf, buf_offset, chunk: self.chunk },
            },
            IocpOp::UdpSend { buf, buf_offset, .. } => RioRequest::Send {
                transfer: RioTransfer { buf, buf_offset, chunk: self.chunk },
            },
            IocpOp::SendTo { buf, buf_offset, addr, addr_ptr, .. } => RioRequest::SendTo {
                transfer: RioTransfer { buf, buf_offset, chunk: self.chunk },
                addr,
                addr_ptr,
                page_idx: 0,
                page: Some(memory),
            },
            IocpOp::UdpRecv { buf, buf_offset, .. } => RioRequest::Pool {
                kind: UdpWaiterKind::Recv,
                chunk_size: if buf.len > buf_offset {
                    (buf.len - buf_offset) as usize
                } else {
                    1
                },
            },
            IocpOp::UdpRecvStream { buf, .. } => RioRequest::Pool {
                kind: UdpWaiterKind::Stream,
                chunk_size: match buf {
                    Some(b) => if b.len < b.capacity {
                        b.capacity
                    } else {
                        b.len
                    },
                    None => UDP_RECV_POOL_CHUNK_SIZE,
                },
            },
            _ => arbitrary(),
        }
    }

    /// The notes on the operation once it has got a datagram.
    pub open spec fn notes_with(&self, platform: IocpOpState, p: UdpPoolPacket) -> IocpOpState {
        match self.op {
            IocpOp::UdpRecv { buf, buf_offset, .. } => IocpOpState {
                blocking_result: Some(Ok(copied_len(buf.len, buf_offset, p.len) as usize)),
                ..platform
            },
            _ => IocpOpState { datagram: Some(p), ..platform },
        }
    }

    /// How the operation gets a datagram: as a copy, or as it is.
    pub open spec fn delivery_of(&self, p: UdpPoolPacket) -> Delivery {
        match self.op {
            IocpOp::UdpRecv { buf, buf_offset, .. } => Delivery::Copy {
                user_data: self.user_data,
                generation: self.generation,
                chunk: p.chunk,
                start: copy_start(buf.len, buf_offset),
                copied: copied_len(buf.len, buf_offset, p.len) as usize,
            },
            _ => Delivery::Hand {
                user_data: self.user_data,
                generation: self.generation,
                chunk: p.chunk,
                len: p.len,
                peer: p.peer,
            },
        }
    }

    /// The notes on the operation once it has got a datagram, and how it gets it.
    pub fn gift(&self, platform: IocpOpState, p: UdpPoolPacket) -> (r: (IocpOpState, Delivery))
        ensures
            r.0 == self.notes_with(platform, p),
            r.1 == self.delivery_of(p),
    {
        match self.op {
            IocpOp::UdpRecv { buf, buf_offset, .. } => {
                let start: usize = if buf_offset < buf.len {
                    buf_offset
                } else {
                    buf.len
                };
                let room: usize = buf.len - start;
                let copied: usize = if p.len < room {
                    p.len
                } else {
                    room
                };
                (
                    IocpOpState { blocking_result: Some(Ok(copied)), ..platform },
                    Delivery::Copy {
                        user_data: self.user_data,
                        generation: self.generation,
                        chunk: p.chunk,
                        start,
                        copied,
                    },
                )
            },
            _ => (
                IocpOpState { datagram: Some(p), ..platform },
                Delivery::Hand {
                    user_data: self.user_data,
                    generation: self.generation,
                    chunk: p.chunk,
                    len: p.len,
                    peer: p.peer,
                },
            ),
        }
    }

    /// The call that carries the operation out for a socket that has left registered
    /// I/O, if it has a buffer.
    pub open spec fn fallback_call(&self, handle: IocpHandle) -> Option<SubmitAsk> {
        let socket = handle.handle_spec();
        match self.op {
            IocpOp::Recv { buf, buf_offset, .. } => Some(
                SubmitAsk::WsaRecv {
                    socket,
                    ptr: buf.ptr,
                    start: buf_offset,
                    len: buf.filled_after(buf_offset),
                },
            ),
            IocpOp::UdpRecv { buf, buf_offset, .. } => Some(
                SubmitAsk::WsaRecv {
                    socket,
                    ptr: buf.ptr,
                    start: buf_offset,
                    len: buf.filled_after(buf_offset),
                },
            ),
            IocpOp::Send { buf, buf_offset, .. } => Some(
                SubmitAsk::WsaSend {
                    socket,
                    ptr: buf.ptr,
                    start: buf_offset,
                    len: buf.filled_after(buf_offset),
                },
            ),
            IocpOp::UdpSend { buf, buf_offset, .. } => Some(
                SubmitAsk::WsaSend {
                    socket,
                    ptr: buf.ptr,
                    start: buf_offset,
                    len: buf.filled_after(buf_offset),
                },
            ),
            IocpOp::UdpRecvStream { buf: Some(buf), .. } => Some(
                SubmitAsk::WsaRecv { socket, ptr: buf.ptr, start: 0, len: buf.filled_after(0) },
            ),
            _ => None,
        }
    }

    /// The call that reads or writes a file.
    pub open spec fn file_call(&self, handle: IocpHandle) -> SubmitAsk {
        let handle = handle.handle_spec();
        match self.op {
            IocpOp::ReadFixed { buf, buf_offset, offset, .. } => SubmitAsk::ReadFile {
                handle,
                ptr: buf.ptr,
                start: buf_offset,
                len: buf.filled_after(buf_offset),
                offset,
            },
            IocpOp::WriteFixed { buf, buf_offset, offset, .. } => SubmitAsk::WriteFile {
                handle,
                ptr: buf.ptr,
                start: buf_offset,
                len: buf.filled_after(buf_offset),
                offset,
            },
            _ => arbitrary(),
        }
    }

    /// The call for the thread pool, if the operation needs one. `handle` is what it
    /// works on.
    pub open spec fn blocking_call(&self, handle: usize) -> Option<BlockingCall> {
        match self.op {
            IocpOp::Open { path_ptr, flags, mode } => Some(
                BlockingCall::Open { path_ptr, flags, mode },
            ),
            IocpOp::Close { .. } => Some(BlockingCall::Close { handle }),
            IocpOp::Fsync { .. } => Some(BlockingCall::Fsync { handle }),
            IocpOp::SyncRange { .. } => Some(BlockingCall::SyncFileRange { handle }),
            IocpOp::Fallocate { mode, offset, len, .. } => Some(
                BlockingCall::Fallocate { handle, mode, offset, len },
            ),
            _ => None,
        }
    }
}

/// The answer to associating a handle with the port is no failure: a handle that is
/// associated already is refused with `ERROR_INVALID_PARAMETER`.
pub open spec fn associated(answer: Answer) -> bool {
    answer.value != 0 || answer.error as u32 == ERROR_INVALID_PARAMETER
}

/// The address family's unspecified address, with no port.
pub open spec fn unspecified(like: SocketAddr) -> SocketAddr {
    if like is V4 {
        SocketAddr::V4(SocketAddrV4 { ip: [0u8, 0u8, 0u8, 0u8], port: 0 })
    } else {
        SocketAddr::V6(
            SocketAddrV6 {
                ip: [
                    0u8,
                    0u8,
                    0u8,
                    0u8,
                    0u8,
                    0u8,
                    0u8,
                    0u8,
                    0u8,
                    0u8,
                    0u8,
                    0u8,
                    0u8,
                    0u8,
                    0u8,
                    0u8,
                ],
                port: 0,
                flowinfo: 0,
                scope_id: 0,
            },
        )
    }
}

/// A socket with this name is bound: it is an internet address with a port.
pub open spec fn name_is_bound(order: ByteOrder, name: Seq<u8>) -> bool {
    &&& name.len() >= 2
    &&& {
        ||| family_of(order, name) == AF_INET && name.len() >= 16
        ||| family_of(order, name) == AF_INET6 && name.len() >= 28
    }
    &&& u16_from(ByteOrder::Big, name.subrange(2, 4)) != 0
}

/// The bytes of a name, if there is one.
pub open spec fn bytes_of(name: Option<Vec<u8>>) -> Option<Seq<u8>> {
    match name {
        Some(bytes) => Some(bytes@),
        None => None,
    }
}

/// Whether a socket with this name is bound.
pub fn is_bound(order: ByteOrder, name: &Vec<u8>) -> (b: bool)
    ensures
        b == name_is_bound(order, name@),
{
    match to_socket_addr_in(order, name.as_slice()) {
        Ok(SocketAddr::V4(a)) => a.port != 0,
        Ok(SocketAddr::V6(a)) => a.port != 0,
        Err(_) => false,
    }
}

impl<P> IocpDriver<P> {
    /// Nothing differs.
    pub open spec fn unchanged(&self, after: &Self) -> bool {
        after.same_but_table(self) && after.table.model() == self.table.model()
    }

    /// Nothing but the notes on the operation in slot `i` differs.
    pub open spec fn noted(&self, after: &Self, i: int, platform: IocpOpState) -> bool {
        after.same_but_table(self) && after.table.model() == self.table.model().with_platform(
            i,
            platform,
        )
    }

    /// The notes on the operation in slot `i`.
    pub open spec fn notes(&self, i: int) -> IocpOpState {
        self.table.ops.slots@[i].platform
    }

    /// Associate a handle with the port.
    pub open spec fn associate_ask(&self, handle: usize) -> SubmitAsk {
        SubmitAsk::Associate { handle, port: self.port.handle.raw }
    }

    /// The task for the thread pool.
    pub open spec fn offload(&self, head: SubmitHead, call: BlockingCall) -> SubmissionResult {
        SubmissionResult::Offload {
            task: BlockingTask { call, port: self.port.handle.raw, user_data: head.user_data },
        }
    }

    /// What the start of a submission leads to. What the operation works on is looked
    /// up; transfers on sockets note it. A socket that has left registered I/O is
    /// served through the port, but for sends to an address and streams of datagrams.
    pub open spec fn begun(&self, after: &Self, head: SubmitHead, step: &OpStep) -> bool {
        let i = head.user_data as int;
        let op = head.op;
        match op.fd_spec() {
            None => {
                &&& self.unchanged(after)
                &&& match op {
                    IocpOp::Wakeup => step.done_with(SubmissionResult::PostToQueue),
                    IocpOp::Timeout { nanos } => step.done_with(SubmissionResult::Timer { nanos }),
                    _ => step.done_with(self.offload(head, head.blocking_call(0)->Some_0)),
                }
            },
            Some(fd) => match self.files.resolved(fd) {
                None => self.unchanged(after) && step.fails_with(IocpError::ResolveFd, None),
                Some(h) => {
                    let with_handle = IocpOpState { resolved_handle: Some(h), ..self.notes(i) };
                    match head.blocking_call(h.handle_spec()) {
                        Some(call) => self.unchanged(after) && step.done_with(
                            self.offload(head, call),
                        ),
                        None => if op is ReadFixed || op is WriteFixed {
                            &&& self.unchanged(after)
                            &&& step.asks(
                                self.associate_ask(h.handle_spec()),
                                SubmitStage::FileAssociated { handle: h },
                            )
                        } else {
                            &&& self.noted(after, i, with_handle)
                            &&& if op is Connect {
                                step.asks(
                                    self.associate_ask(h.handle_spec()),
                                    SubmitStage::ConnectAssociated { handle: h },
                                )
                            } else if op is Accept {
                                step.asks(
                                    self.associate_ask(h.handle_spec()),
                                    SubmitStage::ListenAssociated { handle: h },
                                )
                            } else if !(op is SendTo) && !(op is UdpRecvStream)
                                && self.rio.sockets.of(socket_key_spec(h)).fallback {
                                step.goes_on(SubmitStage::FallbackWanted { handle: h })
                            } else {
                                step.goes_on(
                                    SubmitStage::Rio {
                                        work: RioWork {
                                            target: RioTarget {
                                                handle: h,
                                                user_data: head.user_data,
                                                generation: head.generation,
                                            },
                                            request: head.rio_request(self.slot_memory),
                                            stage: RioStage::FindActor,
                                        },
                                    },
                                )
                            }
                        },
                    }
                },
            },
        }
    }

    /// Nothing but the notes on an operation differs.
    fn note(&mut self, user_data: usize, platform: IocpOpState)
        requires
            old(self).wf(),
            old(self).table.ops.live(user_data as int),
            platform.wf(),
        ensures
            final(self).wf(),
            old(self).noted(final(self), user_data as int, platform),
    {
        self.table.set_platform(user_data, platform);
    }

    /// Starts an operation that the thread pool carries out.
    fn submit_blocking(&self, head: SubmitHead, call: BlockingCall) -> (step: OpStep)
        ensures
            step.done_with(self.offload(head, call)),
    {
        OpStep::Done {
            result: SubmissionResult::Offload {
                task: BlockingTask {
                    call,
                    port: self.port.handle.as_raw(),
                    user_data: head.user_data,
                },
            },
            released: Vec::new(),
        }
    }

    /// What registered I/O is asked for.
    fn make_request(&self, head: SubmitHead) -> (r: RioRequest)
        requires
            self.table.ops.live(head.user_data as int),
            head.op.rio_spec(),
            head.op.wf(),
        ensures
            r == head.rio_request(self.slot_memory),
            r.wf(),
    {
        match head.op {
            IocpOp::Recv { buf, buf_offset, .. } => RioRequest::Recv {
                transfer: RioTransfer { buf, buf_offset, chunk: head.chunk },
            },
            IocpOp::Send { buf, buf_offset, .. } => RioRequest::Send {
                transfer: RioTransfer { buf, buf_offset, chunk: head.chunk },
            },
            IocpOp::UdpSend { buf, buf_offset, .. } => RioRequest::Send {
                transfer: RioTransfer { buf, buf_offset, chunk: head.chunk },
            },
            IocpOp::SendTo { buf, buf_offset, addr, addr_ptr, .. } => {
                let slots_per_page: usize = self.table.ops.len();
                let page_idx: usize = head.user_data / slots_per_page;
                assert(page_idx == 0) by (nonlinear_arith)
                    requires
                        head.user_data < slots_per_page,
                        page_idx == head.user_data / slots_per_page,
                ;
                RioRequest::SendTo {
                    transfer: RioTransfer { buf, buf_offset, chunk: head.chunk },
                    addr,
                    addr_ptr,
                    page_idx,
                    page: if page_idx == 0 {
                        Some(self.slot_memory)
                    } else {
                        None
                    },
                }
            },
            IocpOp::UdpRecv { buf, buf_offset, .. } => {
                let len: usize = buf.len.saturating_sub(buf_offset);
                RioRequest::Pool {
                    kind: UdpWaiterKind::Recv,
                    chunk_size: if len > 1 {
                        len
                    } else {
                        1
                    },
                }
            },
            IocpOp::UdpRecvStream { buf, .. } => {
                let chunk_size: usize = match buf {
                    Some(b) => if b.len < b.capacity {
                        b.capacity
                    } else {
                        b.len
                    },
                    None => UDP_RECV_POOL_CHUNK_SIZE,
                };
                RioRequest::Pool { kind: UdpWaiterKind::Stream, chunk_size }
            },
            _ => RioRequest::Pool { kind: UdpWaiterKind::Stream, chunk_size: 1 },
        }
    }

    /// Starts an operation on a handle that is associated with the port first.
    fn submit_associated(&self, handle: usize, stage: SubmitStage) -> (step: OpStep)
        ensures
            step.asks(self.associate_ask(handle), stage),
    {
        OpStep::Ask {
            ask: SubmitAsk::Associate { handle, port: self.port.handle.as_raw() },
            stage,
        }
    }

    /// Starts a transfer on a socket.
    fn submit_transfer(&mut self, head: SubmitHead, h: IocpHandle) -> (step: OpStep)
        requires
            old(self).wf(),
            head.holds(old(self).table.model()),
            head.op.rio_spec(),
            old(self).files.resolved(head.op.fd_spec()->Some_0) == Some(h),
        ensures
            final(self).wf(),
            head.holds(final(self).table.model()),
            step.fits(head, final(self)),
            old(self).begun(final(self), head, &step),
    {
        let platform: IocpOpState = self.table.ops.slots[head.user_data].platform;
        self.note(head.user_data, IocpOpState { resolved_handle: Some(h), ..platform });
        let may_leave: bool = match head.op {
            IocpOp::SendTo { .. } => false,
            IocpOp::UdpRecvStream { .. } => false,
            _ => true,
        };
        if may_leave && self.rio.sockets.is_iocp_fallback(actor_key(h)) {
            return OpStep::Next {
                stage: SubmitStage::FallbackWanted { handle: h },
                released: Vec::new(),
            };
        }
        let request = self.make_request(head);
        OpStep::Next {
            stage: SubmitStage::Rio {
                work: RioWork {
                    target: RioTarget {
                        handle: h,
                        user_data: head.user_data,
                        generation: head.generation,
                    },
                    request,
                    stage: RioStage::FindActor,
                },
            },
            released: Vec::new(),
        }
    }

    /// Starts a submission.
    fn begin_op(&mut self, head: SubmitHead) -> (step: OpStep)
        requires
            old(self).wf(),
            head.holds(old(self).table.model()),
        ensures
            final(self).wf(),
            head.holds(final(self).table.model()),
            step.fits(head, final(self)),
            old(self).begun(final(self), head, &step),
    {
        let fd = match head.op.get_fd() {
            Some(fd) => fd,
            None => {
                return match head.op {
                    IocpOp::Wakeup => OpStep::Done {
                        result: SubmissionResult::PostToQueue,
                        released: Vec::new(),
                    },
                    IocpOp::Timeout { nanos } => OpStep::Done {
                        result: SubmissionResult::Timer { nanos },
                        released: Vec::new(),
                    },
                    IocpOp::Open { path_ptr, flags, mode } => self.submit_blocking(
                        head,
                        BlockingCall::Open { path_ptr, flags, mode },
                    ),
                    _ => OpStep::Failed {
                        failure: SubmitFailure { error: IocpError::Internal, code: None },
                        released: Vec::new(),
                    },
                };
            },
        };
        let h = match self.files.resolve_fd(fd) {
            Ok(h) => h,
            Err(error) => {
                return OpStep::Failed {
                    failure: SubmitFailure { error, code: None },
                    released: Vec::new(),
                };
            },
        };
        let handle: usize = h.as_handle();
        match head.op {
            IocpOp::ReadFixed { .. } => self.submit_associated(
                handle,
                SubmitStage::FileAssociated { handle: h },
            ),
            IocpOp::WriteFixed { .. } => self.submit_associated(
                handle,
                SubmitStage::FileAssociated { handle: h },
            ),
            IocpOp::Close { .. } => self.submit_blocking(head, BlockingCall::Close { handle }),
            IocpOp::Fsync { .. } => self.submit_blocking(head, BlockingCall::Fsync { handle }),
            IocpOp::SyncRange { .. } => self.submit_blocking(
                head,
                BlockingCall::SyncFileRange { handle },
            ),
            IocpOp::Fallocate { mode, offset, len, .. } => self.submit_blocking(
                head,
                BlockingCall::Fallocate { handle, mode, offset, len },
            ),
            IocpOp::Connect { .. } => {
                let platform: IocpOpState = self.table.ops.slots[head.user_data].platform;
                self.note(head.user_data, IocpOpState { resolved_handle: Some(h), ..platform });
                self.submit_associated(handle, SubmitStage::ConnectAssociated { handle: h })
            },
            IocpOp::Accept { .. } => {
                let platform: IocpOpState = self.table.ops.slots[head.user_data].platform;
                self.note(head.user_data, IocpOpState { resolved_handle: Some(h), ..platform });
                self.submit_associated(handle, SubmitStage::ListenAssociated { handle: h })
            },
            _ => self.submit_transfer(head, h),
        }
    }

    /// Registered I/O has gone on with a request, without an answer.
    pub open spec fn rio_advanced(
        &self,
        mid: &Self,
        work: &RioWork,
        now: u64,
        rio_step: RioStep,
    ) -> bool {
        &&& mid.same_but_table_and_rio(self)
        &&& mid.table.model() == self.table.model()
        &&& self.rio.advanced(
            &mid.rio,
            self.table.model(),
            self.table.model(),
            work,
            now,
            &rio_step,
        )
    }

    /// Registered I/O has gone on with a request, with an answer.
    pub open spec fn rio_answered(
        &self,
        mid: &Self,
        work: &RioWork,
        answer: Answer,
        now: u64,
        rio_step: RioStep,
    ) -> bool {
        &&& mid.same_but_table_and_rio(self)
        &&& mid.table.model() == self.table.model()
        &&& self.rio.answered(&mid.rio, work, answer, now, &rio_step)
    }

    /// The operation has got a datagram that was waiting.
    pub open spec fn given(&self, after: &Self, head: SubmitHead, p: UdpPoolPacket) -> bool {
        let i = head.user_data as int;
        &&& after.same_but_table(self)
        &&& after.table.model() == self.table.model().with_platform(
            i,
            head.notes_with(self.notes(i), p),
        ).delivering(head.delivery_of(p))
    }

    /// The socket leaves registered I/O if the failure says so.
    pub open spec fn demoted(&self, after: &Self, h: IocpHandle, failure: RioFailure) -> bool {
        let key = socket_key_spec(h);
        &&& after.same_but_table_and_rio(self)
        &&& after.table.model() == self.table.model()
        &&& after.rio.same_but_sockets(&self.rio)
        &&& if demotes(failure) {
            self.rio.sockets.with(
                &after.rio.sockets,
                key,
                SocketRuntime { fallback: true, ..self.rio.sockets.of(key) },
            )
        } else {
            after.rio.sockets == self.rio.sockets
        }
    }

    /// What a step of registered I/O means for the submission. A socket that has to
    /// leave registered I/O is served through the port, but for sends to an address.
    pub open spec fn rio_came_to(
        &self,
        after: &Self,
        head: SubmitHead,
        h: IocpHandle,
        rio_step: RioStep,
        step: &OpStep,
    ) -> bool {
        match rio_step {
            RioStep::Ask { ask, work } => self.unchanged(after) && step.asks(
                SubmitAsk::Rio { ask },
                SubmitStage::Rio { work },
            ),
            RioStep::Next { work } => self.unchanged(after) && step.goes_on(
                SubmitStage::Rio { work },
            ),
            RioStep::Done { served: None, released } => self.unchanged(after) && *step == (
            OpStep::Done { result: SubmissionResult::Pending, released }),
            RioStep::Done { served: Some(p), released } => self.given(after, head, p) && *step == (
            OpStep::Done { result: SubmissionResult::PostToQueue, released }),
            RioStep::Failed { failure, released } => {
                if head.op is SendTo {
                    &&& self.unchanged(after)
                    &&& *step == (OpStep::Failed {
                        failure: SubmitFailure { error: IocpError::Submission, code: failure.code },
                        released,
                    })
                } else {
                    &&& self.demoted(after, h, failure)
                    &&& *step == (if after.rio.sockets.of(socket_key_spec(h)).fallback {
                        OpStep::Next { stage: SubmitStage::FallbackWanted { handle: h }, released }
                    } else {
                        OpStep::Failed {
                            failure: SubmitFailure {
                                error: IocpError::Submission,
                                code: failure.code,
                            },
                            released,
                        }
                    })
                }
            },
        }
    }

    /// Takes a step of registered I/O.
    fn take_rio_step(&mut self, head: SubmitHead, h: IocpHandle, rio_step: RioStep) -> (step: OpStep)
        requires
            old(self).wf(),
            head.holds(old(self).table.model()),
            head.op.rio_spec(),
            rio_step.fits(&old(self).rio),
            rio_step matches RioStep::Ask { work, .. } ==> work.target.user_data == head.user_data
                && work.target.generation == head.generation,
            rio_step matches RioStep::Next { work } ==> work.target.user_data == head.user_data
                && work.target.generation == head.generation,
        ensures
            final(self).wf(),
            head.holds(final(self).table.model()),
            step.fits(head, final(self)),
            old(self).rio_came_to(final(self), head, h, rio_step, &step),
    {
        match rio_step {
            RioStep::Ask { ask, work } => OpStep::Ask {
                ask: SubmitAsk::Rio { ask },
                stage: SubmitStage::Rio { work },
            },
            RioStep::Next { work } => OpStep::Next {
                stage: SubmitStage::Rio { work },
                released: Vec::new(),
            },
            RioStep::Done { served: None, released } => OpStep::Done {
                result: SubmissionResult::Pending,
                released,
            },
            RioStep::Done { served: Some(p), released } => {
                self.give(head, p);
                OpStep::Done { result: SubmissionResult::PostToQueue, released }
            },
            RioStep::Failed { failure, released } => {
                let refused = SubmitFailure { error: IocpError::Submission, code: failure.code };
                if let IocpOp::SendTo { .. } = head.op {
                    return OpStep::Failed { failure: refused, released };
                }
                let key = actor_key(h);
                self.rio.sockets.maybe_mark_iocp_fallback(key, &failure);
                if self.rio.sockets.is_iocp_fallback(key) {
                    OpStep::Next { stage: SubmitStage::FallbackWanted { handle: h }, released }
                } else {
                    OpStep::Failed { failure: refused, released }
                }
            },
        }
    }

    /// Gives an operation a datagram that was waiting.
    fn give(&mut self, head: SubmitHead, p: UdpPoolPacket)
        requires
            old(self).wf(),
            head.holds(old(self).table.model()),
        ensures
            final(self).wf(),
            head.holds(final(self).table.model()),
            old(self).given(final(self), head, p),
    {
        let platform: IocpOpState = self.table.ops.slots[head.user_data].platform;
        let (platform, delivery) = head.gift(platform, p);
        self.note(head.user_data, platform);
        self.table.add_delivery(delivery);
    }

    /// What a piece of work that needs no answer leads to.
    pub open spec fn op_advanced(
        &self,
        after: &Self,
        head: SubmitHead,
        stage: &SubmitStage,
        now: u64,
        step: &OpStep,
    ) -> bool {
        let i = head.user_data as int;
        match stage {
            SubmitStage::Begin => self.begun(after, head, step),
            SubmitStage::FallbackWanted { handle } => {
                let known = self.rio.sockets.of(socket_key_spec(*handle));
                &&& self.unchanged(after)
                &&& if known.fallback && !known.fallback_associated {
                    step.asks(
                        self.associate_ask(handle.handle_spec()),
                        SubmitStage::FallbackAssociated { handle: *handle },
                    )
                } else {
                    step.goes_on(SubmitStage::FallbackReady { handle: *handle })
                }
            },
            SubmitStage::FallbackReady { handle } => {
                &&& self.noted(after, i, IocpOpState { in_flight: true, ..self.notes(i) })
                &&& match head.fallback_call(*handle) {
                    Some(call) => step.asks(call, SubmitStage::Issued),
                    None => step.fails_with(IocpError::Submission, None),
                }
            },
            SubmitStage::Rio { work } => exists|mid: Self, rio_step: RioStep| #[trigger]
                self.rio_advanced(&mid, work, now, rio_step) && mid.rio_came_to(
                    after,
                    head,
                    work.target.handle,
                    rio_step,
                    step,
                ),
            _ => false,
        }
    }

    /// What an answer leads to.
    pub open spec fn op_answered(
        &self,
        after: &Self,
        head: SubmitHead,
        stage: &SubmitStage,
        answer: Answer,
        now: u64,
        step: &OpStep,
    ) -> bool {
        let i = head.user_data as int;
        let in_flight = IocpOpState { in_flight: true, ..self.notes(i) };
        let refused = step.fails_with(IocpError::Submission, Some(answer.error));
        match stage {
            SubmitStage::FileAssociated { handle } => {
                &&& self.unchanged(after)
                &&& if associated(answer) {
                    step.asks(head.file_call(*handle), SubmitStage::Issued)
                } else {
                    refused
                }
            },
            SubmitStage::FallbackAssociated { handle } => if associated(answer) {
                let key = socket_key_spec(*handle);
                &&& after.same_but_table_and_rio(self)
                &&& after.table.model() == self.table.model()
                &&& after.rio.same_but_sockets(&self.rio)
                &&& self.rio.sockets.with(
                    &after.rio.sockets,
                    key,
                    SocketRuntime { fallback_associated: true, ..self.rio.sockets.of(key) },
                )
                &&& step.goes_on(SubmitStage::FallbackReady { handle: *handle })
            } else {
                self.unchanged(after) && refused
            },
            SubmitStage::ConnectAssociated { handle } => if associated(answer) {
                &&& self.noted(after, i, in_flight)
                &&& step.asks(
                    SubmitAsk::SocketName { socket: handle.handle_spec() },
                    SubmitStage::NameRead { handle: *handle },
                )
            } else {
                self.unchanged(after) && refused
            },
            SubmitStage::Bound { handle } => {
                &&& self.unchanged(after)
                &&& if answer.value != 0 {
                    step.asks(connect_call(head.op, *handle), SubmitStage::Issued)
                } else {
                    refused
                }
            },
            SubmitStage::ListenAssociated { handle } => {
                &&& self.unchanged(after)
                &&& if associated(answer) {
                    step.asks(
                        self.associate_ask(head.op->Accept_accept_socket),
                        SubmitStage::AcceptAssociated { handle: *handle },
                    )
                } else {
                    refused
                }
            },
            SubmitStage::AcceptAssociated { handle } => if associated(answer) {
                &&& self.noted(after, i, in_flight)
                &&& step.asks(
                    SubmitAsk::AcceptEx {
                        listen: handle.handle_spec(),
                        accept: head.op->Accept_accept_socket,
                        section_len: ACCEPT_EX_ADDR_SECTION_LEN,
                    },
                    SubmitStage::Issued,
                )
            } else {
                self.unchanged(after) && refused
            },
            SubmitStage::Issued => {
                &&& self.unchanged(after)
                &&& if call_accepted(answer.value == 0, answer.error as u32) {
                    step.done_with(SubmissionResult::Pending)
                } else {
                    refused
                }
            },
            SubmitStage::Rio { work } => exists|mid: Self, rio_step: RioStep| #[trigger]
                self.rio_answered(&mid, work, answer, now, rio_step) && mid.rio_came_to(
                    after,
                    head,
                    work.target.handle,
                    rio_step,
                    step,
                ),
            _ => false,
        }
    }
}

/// The call that connects a socket.
pub open spec fn connect_call(op: IocpOp, handle: IocpHandle) -> SubmitAsk {
    SubmitAsk::ConnectEx { socket: handle.handle_spec(), addr: op->Connect_addr }
}

impl<P> IocpDriver<P> {
    /// Has the operation carried out by the port, for a socket that has left
    /// registered I/O.
    fn submit_fallback(&mut self, head: SubmitHead, handle: IocpHandle) -> (step: OpStep)
        requires
            old(self).wf(),
            head.holds(old(self).table.model()),
            head.op.rio_spec() && !(head.op is SendTo),
        ensures
            final(self).wf(),
            head.holds(final(self).table.model()),
            step.fits(head, final(self)),
            old(self).op_advanced(
                final(self),
                head,
                &SubmitStage::FallbackReady { handle },
                0,
                &step,
            ),
    {
        let platform: IocpOpState = self.table.ops.slots[head.user_data].platform;
        self.note(head.user_data, IocpOpState { in_flight: true, ..platform });
        let socket: usize = handle.as_socket();
        let (recv, buf, start): (bool, IocpBuffer, usize) = match head.op {
            IocpOp::Recv { buf, buf_offset, .. } => (true, buf, buf_offset),
            IocpOp::UdpRecv { buf, buf_offset, .. } => (true, buf, buf_offset),
            IocpOp::Send { buf, buf_offset, .. } => (false, buf, buf_offset),
            IocpOp::UdpSend { buf, buf_offset, .. } => (false, buf, buf_offset),
            IocpOp::UdpRecvStream { buf: Some(buf), .. } => (true, buf, 0),
            _ => {
                return OpStep::Failed {
                    failure: SubmitFailure { error: IocpError::Submission, code: None },
                    released: Vec::new(),
                };
            },
        };
        let len: u32 = buf.remaining_len(start);
        let ask = if recv {
            SubmitAsk::WsaRecv { socket, ptr: buf.ptr, start, len }
        } else {
            SubmitAsk::WsaSend { socket, ptr: buf.ptr, start, len }
        };
        OpStep::Ask { ask, stage: SubmitStage::Issued }
    }

    /// Goes on with a piece of work that needs no answer.
    pub(crate) fn op_advance(&mut self, head: SubmitHead, stage: SubmitStage, now: u64) -> (step:
        OpStep)
        requires
            old(self).wf(),
            head.holds(old(self).table.model()),
            stage.suits(head, old(self)),
            !stage.waits(),
            stage.has_room(&old(self).rio),
        ensures
            final(self).wf(),
            head.holds(final(self).table.model()),
            step.fits(head, final(self)),
            old(self).op_advanced(final(self), head, &stage, now, &step),
    {
        match stage {
            SubmitStage::Begin => self.begin_op(head),
            SubmitStage::FallbackWanted { handle } => {
                if self.rio.sockets.needs_iocp_fallback_association(actor_key(handle)) {
                    return self.submit_associated(
                        handle.as_handle(),
                        SubmitStage::FallbackAssociated { handle },
                    );
                }
                OpStep::Next {
                    stage: SubmitStage::FallbackReady { handle },
                    released: Vec::new(),
                }
            },
            SubmitStage::FallbackReady { handle } => self.submit_fallback(head, handle),
            SubmitStage::Rio { work } => {
                let handle = work.target.handle;
                let rio_step = self.rio.advance(work, &mut self.table, now);
                let ghost mid = *self;
                assert(old(self).rio_advanced(&mid, &work, now, rio_step));
                let step = self.take_rio_step(head, handle, rio_step);
                assert(mid.rio_came_to(self, head, handle, rio_step, &step));
                step
            },
            stage => OpStep::Next { stage, released: Vec::new() },
        }
    }

    /// The system refused to do something.
    fn refused(answer: Answer) -> (step: OpStep)
        ensures
            step.fails_with(IocpError::Submission, Some(answer.error)),
    {
        OpStep::Failed {
            failure: SubmitFailure { error: IocpError::Submission, code: Some(answer.error) },
            released: Vec::new(),
        }
    }

    /// Whether a handle is associated with the port after the answer.
    fn ensure_iocp_association(answer: Answer) -> (b: bool)
        ensures
            b == associated(answer),
    {
        let last_error: u32 =
            #[verifier::truncate]
            (answer.error as u32);
        let result: usize = if answer.value == 0 {
            0
        } else {
            1
        };
        IoCompletionPort::associate(result, last_error).is_ok()
    }

    /// Goes on with the system's answer.
    pub(crate) fn op_answer(
        &mut self,
        head: SubmitHead,
        stage: SubmitStage,
        answer: Answer,
        now: u64,
    ) -> (step: OpStep)
        requires
            old(self).wf(),
            head.holds(old(self).table.model()),
            stage.suits(head, old(self)),
            stage.waits(),
            stage.has_room(&old(self).rio),
            !(stage is NameRead) && !(stage is Notified) && !(stage is Offloaded)
                && !(stage is TimerStarted),
        ensures
            final(self).wf(),
            head.holds(final(self).table.model()),
            step.fits(head, final(self)),
            old(self).op_answered(final(self), head, &stage, answer, now, &step),
    {
        let associated: bool = Self::ensure_iocp_association(answer);
        match stage {
            SubmitStage::FileAssociated { handle } => {
                if !associated {
                    return Self::refused(answer);
                }
                let handle: usize = handle.as_handle();
                let ask = match head.op {
                    IocpOp::ReadFixed { buf, buf_offset, offset, .. } => SubmitAsk::ReadFile {
                        handle,
                        ptr: buf.ptr,
                        start: buf_offset,
                        len: buf.remaining_len(buf_offset),
                        offset,
                    },
                    IocpOp::WriteFixed { buf, buf_offset, offset, .. } => SubmitAsk::WriteFile {
                        handle,
                        ptr: buf.ptr,
                        start: buf_offset,
                        len: buf.remaining_len(buf_offset),
                        offset,
                    },
                    _ => SubmitAsk::SocketName { socket: handle },
                };
                OpStep::Ask { ask, stage: SubmitStage::Issued }
            },
            SubmitStage::FallbackAssociated { handle } => {
                if !associated {
                    return Self::refused(answer);
                }
                self.rio.sockets.mark_iocp_fallback_associated(actor_key(handle));
                OpStep::Next {
                    stage: SubmitStage::FallbackReady { handle },
                    released: Vec::new(),
                }
            },
            SubmitStage::ConnectAssociated { handle } => {
                if !associated {
                    return Self::refused(answer);
                }
                let platform: IocpOpState = self.table.ops.slots[head.user_data].platform;
                self.note(head.user_data, IocpOpState { in_flight: true, ..platform });
                OpStep::Ask {
                    ask: SubmitAsk::SocketName { socket: handle.as_socket() },
                    stage: SubmitStage::NameRead { handle },
                }
            },
            SubmitStage::Bound { handle } => {
                if answer.value == 0 {
                    return Self::refused(answer);
                }
                Self::connect(head, handle)
            },
            SubmitStage::ListenAssociated { handle } => {
                if !associated {
                    return Self::refused(answer);
                }
                let accept: usize = match head.op {
                    IocpOp::Accept { accept_socket, .. } => accept_socket,
                    _ => 0,
                };
                self.submit_associated(accept, SubmitStage::AcceptAssociated { handle })
            },
            SubmitStage::AcceptAssociated { handle } => {
                if !associated {
                    return Self::refused(answer);
                }
                let platform: IocpOpState = self.table.ops.slots[head.user_data].platform;
                self.note(head.user_data, IocpOpState { in_flight: true, ..platform });
                let accept: usize = match head.op {
                    IocpOp::Accept { accept_socket, .. } => accept_socket,
                    _ => 0,
                };
                OpStep::Ask {
                    ask: SubmitAsk::AcceptEx {
                        listen: handle.as_socket(),
                        accept,
                        section_len: ACCEPT_EX_ADDR_SECTION_LEN,
                    },
                    stage: SubmitStage::Issued,
                }
            },
            SubmitStage::Issued => {
                let last_error: u32 =
                    #[verifier::truncate]
                    (answer.error as u32);
                if overlapped_result(answer.value == 0, last_error).is_err() {
                    return Self::refused(answer);
                }
                OpStep::Done { result: SubmissionResult::Pending, released: Vec::new() }
            },
            SubmitStage::Rio { work } => {
                let handle = work.target.handle;
                let rio_step = self.rio.answer(work, answer, now);
                let ghost mid = *self;
                assert(old(self).rio_answered(&mid, &work, answer, now, rio_step));
                let step = self.take_rio_step(head, handle, rio_step);
                assert(mid.rio_came_to(self, head, handle, rio_step, &step));
                step
            },
            stage => OpStep::Next { stage, released: Vec::new() },
        }
    }

    /// Asks for the connection.
    fn connect(head: SubmitHead, handle: IocpHandle) -> (step: OpStep)
        requires
            head.op is Connect,
        ensures
            step.asks(connect_call(head.op, handle), SubmitStage::Issued),
    {
        match head.op {
            IocpOp::Connect { addr, .. } => OpStep::Ask {
                ask: SubmitAsk::ConnectEx { socket: handle.as_socket(), addr },
                stage: SubmitStage::Issued,
            },
            _ => OpStep::Ask {
                ask: SubmitAsk::SocketName { socket: 0 },
                stage: SubmitStage::Issued,
            },
        }
    }

    /// What the name of a socket that is to connect leads to. One that is not bound is
    /// bound to any address first.
    pub open spec fn name_read(
        &self,
        head: SubmitHead,
        handle: IocpHandle,
        name: Option<Seq<u8>>,
        step: &OpStep,
    ) -> bool {
        if name matches Some(bytes) && name_is_bound(self.order, bytes) {
            step.asks(connect_call(head.op, handle), SubmitStage::Issued)
        } else {
            step.asks(
                SubmitAsk::Bind {
                    socket: handle.handle_spec(),
                    addr: unspecified(head.op->Connect_addr),
                },
                SubmitStage::Bound { handle },
            )
        }
    }

    /// Goes on with the name of a socket that is to connect, if it could be read.
    pub(crate) fn ensure_socket_bound(
        &self,
        head: SubmitHead,
        handle: IocpHandle,
        name: Option<Vec<u8>>,
    ) -> (step: OpStep)
        requires
            head.op is Connect,
        ensures
            step.fits(head, self),
            self.name_read(
                head,
                handle,
                bytes_of(name),
                &step,
            ),
    {
        let bound: bool = match &name {
            Some(bytes) => is_bound(self.order, bytes),
            None => false,
        };
        if bound {
            return Self::connect(head, handle);
        }
        let addr = match head.op {
            IocpOp::Connect { addr: SocketAddr::V6(_), .. } => SocketAddr::V6(
                SocketAddrV6 {
                    ip: [0, 0, 0, 0, 0, 0, 0, 0, 0, 0, 0, 0, 0, 0, 0, 0],
                    port: 0,
                    flowinfo: 0,
                    scope_id: 0,
                },
            ),
            _ => SocketAddr::V4(SocketAddrV4 { ip: [0, 0, 0, 0], port: 0 }),
        };
        OpStep::Ask {
            ask: SubmitAsk::Bind { socket: handle.as_socket(), addr },
            stage: SubmitStage::Bound { handle },
        }
    }
}

} // verus!
