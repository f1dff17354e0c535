//! Operations and the submission-queue entries that carry them out.
use vstd::prelude::*;
use crate::sockaddr::SocketAddr;
use super::chunks::ChunkSet;
use super::error::UringError;

verus! {

/// The descriptor an operation works on: a plain one, or an index into the
/// registered-file table.
#[derive(Debug, Clone, Copy, PartialEq, Eq, Structural)]
pub enum IoFd {
    Raw { fd: i32 },
    Fixed { index: u32 },
}

/// Where a buffer was allocated.
#[derive(Debug, Clone, Copy, PartialEq, Eq, Structural)]
pub enum PoolKind {
    /// From a chunk of a slot pool; the chunk can be registered with the kernel.
    SlotBased,
    /// Anywhere else.
    Heap,
}

/// The region of memory a buffer lies in.
#[derive(Debug, Clone, Copy, PartialEq, Eq, Structural)]
pub struct RegionInfo {
    pub pool_kind: PoolKind,
    pub id: u16,
}

/// A buffer as the driver sees it: its size, how much of it is filled, and the
/// region it lies in.
#[derive(Debug, Clone, Copy, PartialEq, Eq, Structural)]
pub struct BufferView {
    pub capacity: usize,
    pub len: usize,
    pub region: RegionInfo,
}

/// An operation handed to the driver.
#[derive(Debug, Clone, Copy)]
#[allow(inconsistent_fields)]
pub enum UringOp {
    ReadFixed { fd: IoFd, buf: BufferView, buf_offset: usize, offset: u64 },
    WriteFixed { fd: IoFd, buf: BufferView, buf_offset: usize, offset: u64 },
    Recv { fd: IoFd, buf: BufferView, buf_offset: usize },
    Send { fd: IoFd, buf: BufferView, buf_offset: usize },
    UdpRecv { fd: IoFd, buf: BufferView, buf_offset: usize },
    UdpSend { fd: IoFd, buf: BufferView, buf_offset: usize },
    Connect { fd: IoFd, addr_len: u32 },
    Close { fd: IoFd },
    Fsync { fd: IoFd, datasync: bool },
    SyncRange { fd: IoFd, offset: u64, nbytes: u64, flags: u32 },
    Fallocate { fd: IoFd, mode: i32, offset: u64, len: u64 },
    Accept { fd: IoFd },
    SendTo { fd: IoFd, buf: BufferView, buf_offset: usize, addr: SocketAddr },
    UdpRecvStream { fd: IoFd, buf: Option<BufferView> },
    UdpRefill { fd: IoFd },
    Open { flags: i32, mode: u32 },
    Wakeup { fd: IoFd },
    Timeout { secs: u64, nanos: u32 },
}

/// How an operation reaches the kernel.
#[derive(Debug, Clone, Copy, PartialEq, Eq, Structural)]
pub enum SubmissionStrategy {
    /// As an entry in the submission queue.
    SubmitSqe,
    /// Not at all: the software timer wheel carries it out.
    SoftwareTimer,
    /// As an entry whose completion nobody waits for.
    BackgroundOnly,
}

/// A submission-queue entry. A buffer range is given by its start inside the
/// operation's buffer and its length.
#[derive(Debug, Clone, Copy)]
#[allow(inconsistent_fields)]
pub enum Sqe {
    Read { fd: IoFd, start: usize, len: u32, offset: u64 },
    ReadFixed { fd: IoFd, start: usize, len: u32, offset: u64, buf_index: u16 },
    Write { fd: IoFd, start: usize, len: u32, offset: u64 },
    WriteFixed { fd: IoFd, start: usize, len: u32, offset: u64, buf_index: u16 },
    Recv { fd: IoFd, start: usize, len: u32 },
    Send { fd: IoFd, start: usize, len: u32 },
    Connect { fd: IoFd, addr_len: u32 },
    Accept { fd: IoFd },
    /// One message of `len` bytes to `addr`.
    SendMsg { fd: IoFd, start: usize, len: usize, addr: SocketAddr },
    /// One message of at most `len` bytes, with room for any sender address.
    RecvMsg { fd: IoFd, len: usize },
    Close { fd: IoFd },
    Fsync { fd: IoFd, flags: u32 },
    SyncFileRange { fd: IoFd, len: u32, offset: u64, flags: u32 },
    Fallocate { fd: IoFd, len: u64, offset: u64, mode: i32 },
    OpenAt { flags: i32, mode: u32 },
    Timeout { secs: u64, nanos: u32 },
    /// Reads the eight-byte counter of the wake-up descriptor.
    WakeupRead { fd: IoFd },
    Nop,
}

/// `IORING_FSYNC_DATASYNC`.
pub const FSYNC_DATASYNC: u32 = 1;

impl UringOp {
    /// The buffer offset of the operation lies inside its buffer.
    pub open spec fn wf(self) -> bool {
        match self {
            UringOp::ReadFixed { fd, buf, buf_offset, offset } => buf_offset <= buf.capacity,
            UringOp::WriteFixed { fd, buf, buf_offset, offset } => buf_offset <= buf.len,
            UringOp::Recv { fd, buf, buf_offset } => buf_offset <= buf.capacity,
            UringOp::Send { fd, buf, buf_offset } => buf_offset <= buf.len,
            UringOp::UdpRecv { fd, buf, buf_offset } => buf_offset <= buf.capacity,
            UringOp::UdpSend { fd, buf, buf_offset } => buf_offset <= buf.len,
            UringOp::SendTo { fd, buf, buf_offset, addr } => buf_offset <= buf.len,
            _ => true,
        }
    }

    /// How the operation reaches the kernel, in specifications.
    pub open spec fn strategy_spec(self) -> SubmissionStrategy {
        match self {
            UringOp::Close { fd } => SubmissionStrategy::BackgroundOnly,
            UringOp::Timeout { secs, nanos } => SubmissionStrategy::SoftwareTimer,
            _ => SubmissionStrategy::SubmitSqe,
        }
    }

    /// How the operation reaches the kernel.
    pub fn strategy(&self) -> (s: SubmissionStrategy)
        ensures
            s == self.strategy_spec(),
    {
        match self {
            UringOp::Close { .. } => SubmissionStrategy::BackgroundOnly,
            UringOp::Timeout { .. } => SubmissionStrategy::SoftwareTimer,
            _ => SubmissionStrategy::SubmitSqe,
        }
    }

    /// The duration of a timeout, in specifications.
    pub open spec fn timeout_spec(self) -> Option<(u64, u32)> {
        match self {
            UringOp::Timeout { secs, nanos } => Some((secs, nanos)),
            _ => None,
        }
    }

    /// The duration of a timeout, in seconds and nanoseconds.
    pub fn get_timeout(&self) -> (d: Option<(u64, u32)>)
        ensures
            d == self.timeout_spec(),
    {
        match self {
            UringOp::Timeout { secs, nanos } => Some((*secs, *nanos)),
            _ => None,
        }
    }

    /// The registrable chunks an operation refers to, in specifications.
    pub open spec fn chunks_spec(self) -> Seq<u16> {
        match self {
            UringOp::ReadFixed { fd, buf, buf_offset, offset } => region_chunks(buf.region),
            UringOp::WriteFixed { fd, buf, buf_offset, offset } => region_chunks(buf.region),
            _ => Seq::empty(),
        }
    }

    /// The chunks that must be registered before the operation is submitted: the
    /// chunk of a slot-based buffer of a fixed read or write.
    pub fn resolve_chunks(&self) -> (chunks: Vec<u16>)
        ensures
            chunks@ == self.chunks_spec(),
            chunks@.len() <= 1,
    {
        let mut chunks: Vec<u16> = Vec::new();
        match self {
            UringOp::ReadFixed { buf, .. } => {
                if matches!(buf.region.pool_kind, PoolKind::SlotBased) {
                    chunks.push(buf.region.id);
                }
            },
            UringOp::WriteFixed { buf, .. } => {
                if matches!(buf.region.pool_kind, PoolKind::SlotBased) {
                    chunks.push(buf.region.id);
                }
            },
            _ => {},
        }
        assert(chunks@ =~= self.chunks_spec());
        chunks
    }

    /// The entry that carries the operation out, or why there is none, in
    /// specifications.
    pub open spec fn sqe_spec(self, registered: Set<int>) -> Result<Sqe, UringError> {
        match self {
            UringOp::ReadFixed { fd, buf, buf_offset, offset } => {
                let len = (buf.capacity - buf_offset) as u32;
                if usable_fixed(buf.region, registered) {
                    Ok(
                        Sqe::ReadFixed {
                            fd,
                            start: buf_offset,
                            len,
                            offset,
                            buf_index: buf.region.id,
                        },
                    )
                } else {
                    Ok(Sqe::Read { fd, start: buf_offset, len, offset })
                }
            },
            UringOp::WriteFixed { fd, buf, buf_offset, offset } => {
                let len = (buf.len - buf_offset) as u32;
                if usable_fixed(buf.region, registered) {
                    Ok(
                        Sqe::WriteFixed {
                            fd,
                            start: buf_offset,
                            len,
                            offset,
                            buf_index: buf.region.id,
                        },
                    )
                } else {
                    Ok(Sqe::Write { fd, start: buf_offset, len, offset })
                }
            },
            UringOp::Recv { fd, buf, buf_offset } => Ok(
                Sqe::Recv { fd, start: buf_offset, len: (buf.capacity - buf_offset) as u32 },
            ),
            UringOp::UdpRecv { fd, buf, buf_offset } => Ok(
                Sqe::Recv { fd, start: buf_offset, len: (buf.capacity - buf_offset) as u32 },
            ),
            UringOp::Send { fd, buf, buf_offset } => Ok(
                Sqe::Send { fd, start: buf_offset, len: (buf.len - buf_offset) as u32 },
            ),
            UringOp::UdpSend { fd, buf, buf_offset } => Ok(
                Sqe::Send { fd, start: buf_offset, len: (buf.len - buf_offset) as u32 },
            ),
            UringOp::Connect { fd, addr_len } => Ok(Sqe::Connect { fd, addr_len }),
            UringOp::Close { fd } => Ok(Sqe::Close { fd }),
            UringOp::Fsync { fd, datasync } => Ok(
                Sqe::Fsync { fd, flags: if datasync { FSYNC_DATASYNC } else { 0 } },
            ),
            UringOp::SyncRange { fd, offset, nbytes, flags } => {
                if nbytes <= u32::MAX {
                    Ok(Sqe::SyncFileRange { fd, len: nbytes as u32, offset, flags })
                } else if nbytes == u64::MAX {
                    Ok(Sqe::SyncFileRange { fd, len: 0, offset, flags })
                } else {
                    Err(UringError::InvalidInput)
                }
            },
            UringOp::Fallocate { fd, mode, offset, len } => Ok(
                Sqe::Fallocate { fd, len, offset, mode },
            ),
            UringOp::Accept { fd } => Ok(Sqe::Accept { fd }),
            UringOp::SendTo { fd, buf, buf_offset, addr } => Ok(
                Sqe::SendMsg { fd, start: buf_offset, len: (buf.len - buf_offset) as usize, addr },
            ),
            UringOp::UdpRecvStream { fd, buf } => match buf {
                Some(b) => Ok(Sqe::RecvMsg { fd, len: b.capacity }),
                None => Err(UringError::InvalidState),
            },
            UringOp::UdpRefill { fd } => Ok(Sqe::Nop),
            UringOp::Open { flags, mode } => Ok(Sqe::OpenAt { flags, mode }),
            UringOp::Wakeup { fd } => Ok(Sqe::WakeupRead { fd }),
            UringOp::Timeout { secs, nanos } => Ok(Sqe::Timeout { secs, nanos }),
        }
    }

    /// Builds the entry that carries the operation out. A read or write uses the
    /// registered buffer if its chunk is registered by now, and plain memory
    /// otherwise. A range to synchronise whose length does not fit into 32 bits is
    /// refused, except that the largest 64-bit length means "to the end", which
    /// the kernel writes as 0.
    pub fn make_sqe(&self, registered: &ChunkSet) -> (r: Result<Sqe, UringError>)
        requires
            self.wf(),
            registered.wf(),
        ensures
            r == self.sqe_spec(registered@),
    {
        match self {
            UringOp::ReadFixed { fd, buf, buf_offset, offset } => {
                let len: u32 = #[verifier::truncate]
                ((buf.capacity - *buf_offset) as u32);
                if is_usable_fixed(&buf.region, registered) {
                    Ok(
                        Sqe::ReadFixed {
                            fd: *fd,
                            start: *buf_offset,
                            len,
                            offset: *offset,
                            buf_index: buf.region.id,
                        },
                    )
                } else {
                    Ok(Sqe::Read { fd: *fd, start: *buf_offset, len, offset: *offset })
                }
            },
            UringOp::WriteFixed { fd, buf, buf_offset, offset } => {
                let len: u32 = #[verifier::truncate]
                ((buf.len - *buf_offset) as u32);
                if is_usable_fixed(&buf.region, registered) {
                    Ok(
                        Sqe::WriteFixed {
                            fd: *fd,
                            start: *buf_offset,
                            len,
                            offset: *offset,
                            buf_index: buf.region.id,
                        },
                    )
                } else {
                    Ok(Sqe::Write { fd: *fd, start: *buf_offset, len, offset: *offset })
                }
            },
            UringOp::Recv { fd, buf, buf_offset } => {
                let len: u32 = #[verifier::truncate]
                ((buf.capacity - *buf_offset) as u32);
                Ok(Sqe::Recv { fd: *fd, start: *buf_offset, len })
            },
            UringOp::UdpRecv { fd, buf, buf_offset } => {
                let len: u32 = #[verifier::truncate]
                ((buf.capacity - *buf_offset) as u32);
                Ok(Sqe::Recv { fd: *fd, start: *buf_offset, len })
            },
            UringOp::Send { fd, buf, buf_offset } => {
                let len: u32 = #[verifier::truncate]
                ((buf.len - *buf_offset) as u32);
                Ok(Sqe::Send { fd: *fd, start: *buf_offset, len })
            },
            UringOp::UdpSend { fd, buf, buf_offset } => {
                let len: u32 = #[verifier::truncate]
                ((buf.len - *buf_offset) as u32);
                Ok(Sqe::Send { fd: *fd, start: *buf_offset, len })
            },
            UringOp::Connect { fd, addr_len } => Ok(Sqe::Connect { fd: *fd, addr_len: *addr_len }),
            UringOp::Close { fd } => Ok(Sqe::Close { fd: *fd }),
            UringOp::Fsync { fd, datasync } => {
                let flags: u32 = if *datasync {
                    FSYNC_DATASYNC
                } else {
                    0
                };
                Ok(Sqe::Fsync { fd: *fd, flags })
            },
            UringOp::SyncRange { fd, offset, nbytes, flags } => {
                if *nbytes > 0xffff_ffff {
                    if *nbytes == u64::MAX {
                        Ok(Sqe::SyncFileRange { fd: *fd, len: 0, offset: *offset, flags: *flags })
                    } else {
                        Err(UringError::InvalidInput)
                    }
                } else {
                    Ok(
                        Sqe::SyncFileRange {
                            fd: *fd,
                            len: *nbytes as u32,
                            offset: *offset,
                            flags: *flags,
                        },
                    )
                }
            },
            UringOp::Fallocate { fd, mode, offset, len } => Ok(
                Sqe::Fallocate { fd: *fd, len: *len, offset: *offset, mode: *mode },
            ),
            UringOp::Accept { fd } => Ok(Sqe::Accept { fd: *fd }),
            UringOp::SendTo { fd, buf, buf_offset, addr } => Ok(
                Sqe::SendMsg {
                    fd: *fd,
                    start: *buf_offset,
                    len: buf.len - *buf_offset,
                    addr: *addr,
                },
            ),
            UringOp::UdpRecvStream { fd, buf } => match buf {
                Some(b) => Ok(Sqe::RecvMsg { fd: *fd, len: b.capacity }),
                None => Err(UringError::InvalidState),
            },
            UringOp::UdpRefill { .. } => Ok(Sqe::Nop),
            UringOp::Open { flags, mode } => Ok(Sqe::OpenAt { flags: *flags, mode: *mode }),
            UringOp::Wakeup { fd } => Ok(Sqe::WakeupRead { fd: *fd }),
            UringOp::Timeout { secs, nanos } => Ok(Sqe::Timeout { secs: *secs, nanos: *nanos }),
        }
    }
}

/// The registrable chunk of a region, if it has one.
pub open spec fn region_chunks(region: RegionInfo) -> Seq<u16> {
    if region.pool_kind is SlotBased {
        seq![region.id]
    } else {
        Seq::empty()
    }
}

/// Whether a region lies in a chunk that is registered with the kernel.
pub open spec fn usable_fixed(region: RegionInfo, registered: Set<int>) -> bool {
    region.pool_kind is SlotBased && registered.contains(region.id as int)
}

fn is_usable_fixed(region: &RegionInfo, registered: &ChunkSet) -> (b: bool)
    requires
        registered.wf(),
    ensures
        b == usable_fixed(*region, registered@),
{
    match region.pool_kind {
        PoolKind::SlotBased => match registered.get(region.id as usize) {
            Ok(b) => b,
            Err(_) => false,
        },
        PoolKind::Heap => false,
    }
}

} // verus!
