//! Operations, and what the driver notes about each of them.
use vstd::prelude::*;
use crate::sockaddr::SocketAddr;
use super::buffer::IocpBuffer;
use super::config::IocpHandle;
use super::rio::pool::UdpPoolPacket;

verus! {

/// What an operation works on: a handle, or a place in the table of registered
/// handles.
#[derive(Debug, Clone, Copy, PartialEq, Eq, Structural)]
pub enum IoFd {
    Raw { handle: IocpHandle },
    Fixed { index: u32 },
}

/// An operation handed to the driver.
#[derive(Debug, Clone, Copy)]
#[allow(inconsistent_fields)]
pub enum IocpOp {
    ReadFixed { fd: IoFd, buf: IocpBuffer, buf_offset: usize, offset: u64 },
    WriteFixed { fd: IoFd, buf: IocpBuffer, buf_offset: usize, offset: u64 },
    Recv { fd: IoFd, buf: IocpBuffer, buf_offset: usize },
    Send { fd: IoFd, buf: IocpBuffer, buf_offset: usize },
    UdpRecv { fd: IoFd, buf: IocpBuffer, buf_offset: usize },
    UdpSend { fd: IoFd, buf: IocpBuffer, buf_offset: usize },
    Connect { fd: IoFd, addr: SocketAddr },
    /// `accept_socket` takes the incoming connection.
    Accept { fd: IoFd, accept_socket: usize },
    /// `addr_ptr` is where the address lies in memory.
    SendTo { fd: IoFd, buf: IocpBuffer, buf_offset: usize, addr: SocketAddr, addr_ptr: usize },
    UdpRecvStream { fd: IoFd, buf: Option<IocpBuffer> },
    /// `path_ptr` is where the path lies in memory.
    Open { path_ptr: usize, flags: i32, mode: u32 },
    Close { fd: IoFd },
    Fsync { fd: IoFd },
    SyncRange { fd: IoFd },
    Fallocate { fd: IoFd, mode: i32, offset: u64, len: u64 },
    Wakeup,
    Timeout { nanos: u64 },
}

/// What the driver notes about an operation.
#[derive(Debug, Clone, Copy)]
pub struct IocpOpState {
    /// The generation of the slot when the operation was put into it.
    pub generation: u32,
    pub timer_id: Option<u64>,
    /// In nanoseconds, on the clock of the caller.
    pub timer_deadline: Option<u64>,
    /// Nobody waits for it.
    pub is_background: bool,
    /// A completion of the kernel is still to come after the operation has ended.
    pub rio_needs_drain: bool,
    /// That completion has come.
    pub rio_drained: bool,
    /// It waits for a datagram of the receive pool; the kernel does not know of it.
    pub rio_pool_waiting: bool,
    /// The system works on it through the completion port.
    pub in_flight: bool,
    /// The handle it works on, once that was looked up.
    pub resolved_handle: Option<IocpHandle>,
    /// A result that was found without the completion port.
    pub blocking_result: Option<Result<usize, Option<i32>>>,
    /// The datagram it was given when it was submitted.
    pub datagram: Option<UdpPoolPacket>,
}

impl IocpOpState {
    /// A system error that was found without the completion port can be published:
    /// its negation is a number.
    pub open spec fn wf(self) -> bool {
        self.blocking_result matches Some(Err(Some(code))) ==> code > i32::MIN
    }

    /// The notes on an operation that has just been put into a slot of the given
    /// generation.
    pub open spec fn fresh(generation: u32) -> Self {
        IocpOpState {
            generation,
            timer_id: None,
            timer_deadline: None,
            is_background: false,
            rio_needs_drain: false,
            rio_drained: false,
            rio_pool_waiting: false,
            in_flight: false,
            resolved_handle: None,
            blocking_result: None,
            datagram: None,
        }
    }

    /// The notes on an operation that has just been put into a slot of the given
    /// generation.
    pub fn new(generation: u32) -> (s: Self)
        ensures
            s == IocpOpState::fresh(generation),
    {
        IocpOpState {
            generation,
            timer_id: None,
            timer_deadline: None,
            is_background: false,
            rio_needs_drain: false,
            rio_drained: false,
            rio_pool_waiting: false,
            in_flight: false,
            resolved_handle: None,
            blocking_result: None,
            datagram: None,
        }
    }
}

impl Default for IocpOpState {
    fn default() -> (s: Self)
        ensures
            s == IocpOpState::fresh(0),
    {
        IocpOpState::new(0)
    }
}

impl IocpOp {
    /// A transfer can start where the operation says.
    pub open spec fn wf(self) -> bool {
        match self {
            IocpOp::Recv { buf, buf_offset, .. } => buf.reaches(buf_offset),
            IocpOp::Send { buf, buf_offset, .. } => buf.reaches(buf_offset),
            IocpOp::UdpSend { buf, buf_offset, .. } => buf.reaches(buf_offset),
            IocpOp::SendTo { buf, buf_offset, .. } => buf.reaches(buf_offset),
            _ => true,
        }
    }

    /// What the operation works on.
    pub open spec fn fd_spec(self) -> Option<IoFd> {
        match self {
            IocpOp::ReadFixed { fd, .. } => Some(fd),
            IocpOp::WriteFixed { fd, .. } => Some(fd),
            IocpOp::Recv { fd, .. } => Some(fd),
            IocpOp::Send { fd, .. } => Some(fd),
            IocpOp::UdpRecv { fd, .. } => Some(fd),
            IocpOp::UdpSend { fd, .. } => Some(fd),
            IocpOp::Connect { fd, .. } => Some(fd),
            IocpOp::Accept { fd, .. } => Some(fd),
            IocpOp::SendTo { fd, .. } => Some(fd),
            IocpOp::UdpRecvStream { fd, .. } => Some(fd),
            IocpOp::Close { fd } => Some(fd),
            IocpOp::Fsync { fd } => Some(fd),
            IocpOp::SyncRange { fd } => Some(fd),
            IocpOp::Fallocate { fd, .. } => Some(fd),
            IocpOp::Open { .. } => None,
            IocpOp::Wakeup => None,
            IocpOp::Timeout { .. } => None,
        }
    }

    /// What the operation works on, if it works on anything.
    pub fn get_fd(&self) -> (r: Option<IoFd>)
        ensures
            r == self.fd_spec(),
    {
        match self {
            IocpOp::ReadFixed { fd, .. } => Some(*fd),
            IocpOp::WriteFixed { fd, .. } => Some(*fd),
            IocpOp::Recv { fd, .. } => Some(*fd),
            IocpOp::Send { fd, .. } => Some(*fd),
            IocpOp::UdpRecv { fd, .. } => Some(*fd),
            IocpOp::UdpSend { fd, .. } => Some(*fd),
            IocpOp::Connect { fd, .. } => Some(*fd),
            IocpOp::Accept { fd, .. } => Some(*fd),
            IocpOp::SendTo { fd, .. } => Some(*fd),
            IocpOp::UdpRecvStream { fd, .. } => Some(*fd),
            IocpOp::Close { fd } => Some(*fd),
            IocpOp::Fsync { fd } => Some(*fd),
            IocpOp::SyncRange { fd } => Some(*fd),
            IocpOp::Fallocate { fd, .. } => Some(*fd),
            IocpOp::Open { .. } => None,
            IocpOp::Wakeup => None,
            IocpOp::Timeout { .. } => None,
        }
    }

    /// Registered I/O carries the operation out.
    pub open spec fn rio_spec(self) -> bool {
        self is Recv || self is Send || self is UdpRecv || self is UdpSend || self is SendTo
            || self is UdpRecvStream
    }

    /// Whether registered I/O carries the operation out.
    pub fn is_rio_op(&self) -> (b: bool)
        ensures
            b == self.rio_spec(),
    {
        match self {
            IocpOp::Recv { .. } => true,
            IocpOp::Send { .. } => true,
            IocpOp::UdpRecv { .. } => true,
            IocpOp::UdpSend { .. } => true,
            IocpOp::SendTo { .. } => true,
            IocpOp::UdpRecvStream { .. } => true,
            _ => false,
        }
    }

    /// Whether the operation may have to wait for a datagram of the receive pool.
    pub fn waits_for_pool(&self) -> (b: bool)
        ensures
            b <==> (*self is UdpRecv || *self is UdpRecvStream),
    {
        match self {
            IocpOp::UdpRecv { .. } => true,
            IocpOp::UdpRecvStream { .. } => true,
            _ => false,
        }
    }
}

/// The key under which a socket is known: what it refers to, the handle, and its
/// generation.
pub open spec fn socket_key_spec(h: IocpHandle) -> (usize, usize, u64) {
    match h {
        IocpHandle::File { handle } => (0usize, handle, 0u64),
        IocpHandle::Socket { handle, generation } => (1usize, handle, generation),
    }
}

/// The key under which a handle is known.
pub fn actor_key(h: IocpHandle) -> (k: (usize, usize, u64))
    ensures
        k == socket_key_spec(h),
{
    match h {
        IocpHandle::File { handle } => (0, handle, 0),
        IocpHandle::Socket { handle, generation } => (1, handle, generation),
    }
}

/// Different handles, and the same socket handle under different generations, have
/// different keys.
pub proof fn actor_keys_are_distinct(a: IocpHandle, b: IocpHandle)
    requires
        a != b,
    ensures
        socket_key_spec(a) != socket_key_spec(b),
{
}

} // verus!
