//! What holds of the submission-queue entries that operations become.
use vstd::prelude::*;
use super::entry::{
    close_fd_entry_of, close_fixed_entry_of, fallocate_fd_entry_of, fallocate_fixed_entry_of,
    fsync_fd_entry_of, fsync_fixed_entry_of, sync_range_fd_entry_of, sync_range_fixed_entry_of,
};
use super::error::UringError;
use super::op::{IoFd, PoolKind, Sqe, UringOp};

verus! {

/// The descriptor that an operation was given, if it works on one.
pub open spec fn given_fd(op: UringOp) -> Option<IoFd> {
    match op {
        UringOp::ReadFixed { fd, .. } => Some(fd),
        UringOp::WriteFixed { fd, .. } => Some(fd),
        UringOp::Recv { fd, .. } => Some(fd),
        UringOp::Send { fd, .. } => Some(fd),
        UringOp::UdpRecv { fd, .. } => Some(fd),
        UringOp::UdpSend { fd, .. } => Some(fd),
        UringOp::Connect { fd, .. } => Some(fd),
        UringOp::Close { fd } => Some(fd),
        UringOp::Fsync { fd, .. } => Some(fd),
        UringOp::SyncRange { fd, .. } => Some(fd),
        UringOp::Fallocate { fd, .. } => Some(fd),
        UringOp::Accept { fd } => Some(fd),
        UringOp::SendTo { fd, .. } => Some(fd),
        UringOp::UdpRecvStream { fd, .. } => Some(fd),
        UringOp::UdpRefill { fd } => Some(fd),
        UringOp::Wakeup { fd } => Some(fd),
        _ => None,
    }
}

/// The descriptor that an entry works on, if it works on one.
pub open spec fn used_fd(sqe: Sqe) -> Option<IoFd> {
    match sqe {
        Sqe::Read { fd, .. } => Some(fd),
        Sqe::ReadFixed { fd, .. } => Some(fd),
        Sqe::Write { fd, .. } => Some(fd),
        Sqe::WriteFixed { fd, .. } => Some(fd),
        Sqe::Recv { fd, .. } => Some(fd),
        Sqe::Send { fd, .. } => Some(fd),
        Sqe::Connect { fd, .. } => Some(fd),
        Sqe::Accept { fd } => Some(fd),
        Sqe::SendMsg { fd, .. } => Some(fd),
        Sqe::RecvMsg { fd, .. } => Some(fd),
        Sqe::Close { fd } => Some(fd),
        Sqe::Fsync { fd, .. } => Some(fd),
        Sqe::SyncFileRange { fd, .. } => Some(fd),
        Sqe::Fallocate { fd, .. } => Some(fd),
        Sqe::WakeupRead { fd } => Some(fd),
        _ => None,
    }
}

/// No entry works on another descriptor than the one its operation was given.
pub proof fn entries_work_on_the_descriptor_given(op: UringOp, registered: Set<int>, sqe: Sqe)
    requires
        op.wf(),
        op.sqe_spec(registered) == Ok::<Sqe, UringError>(sqe),
    ensures
        used_fd(sqe) is Some ==> used_fd(sqe) == given_fd(op),
        used_fd(sqe) is None ==> given_fd(op) is None || op is UdpRefill,
{
}

/// Entries follow the direction of the operation. Data leaves by the entries of sends and
/// of writes alone, and comes in by those of receives and of reads alone.
pub proof fn entries_follow_the_direction(op: UringOp, registered: Set<int>, sqe: Sqe)
    requires
        op.wf(),
        op.sqe_spec(registered) == Ok::<Sqe, UringError>(sqe),
    ensures
        sqe is Send <==> op is Send || op is UdpSend,
        sqe is SendMsg <==> op is SendTo,
        sqe is Write || sqe is WriteFixed <==> op is WriteFixed,
        sqe is Recv <==> op is Recv || op is UdpRecv,
        sqe is RecvMsg <==> op is UdpRecvStream,
        sqe is Read || sqe is ReadFixed <==> op is ReadFixed,
        sqe is Connect <==> op is Connect,
        sqe is Accept <==> op is Accept,
        sqe is Close <==> op is Close,
        sqe is Fsync <==> op is Fsync,
        sqe is SyncFileRange <==> op is SyncRange,
        sqe is Fallocate <==> op is Fallocate,
        sqe is OpenAt <==> op is Open,
        sqe is Timeout <==> op is Timeout,
        sqe is WakeupRead <==> op is Wakeup,
        sqe is Nop <==> op is UdpRefill,
{
}

/// A send or a write hands out exactly what is filled of its buffer from the offset on:
/// the range starts at the offset and ends where the filled part ends. The length of a
/// range is a 32-bit number, but for a message to an address.
pub proof fn sent_ranges_end_with_the_filled_part(op: UringOp, registered: Set<int>)
    requires
        op.wf(),
    ensures
        op matches UringOp::Send { fd, buf, buf_offset } ==> {
            &&& op.sqe_spec(registered) matches Ok(Sqe::Send { fd: f, start, len })
            &&& f == fd && start == buf_offset
            &&& buf.len - buf_offset <= u32::MAX ==> start + len == buf.len
        },
        op matches UringOp::UdpSend { fd, buf, buf_offset } ==> {
            &&& op.sqe_spec(registered) matches Ok(Sqe::Send { fd: f, start, len })
            &&& f == fd && start == buf_offset
            &&& buf.len - buf_offset <= u32::MAX ==> start + len == buf.len
        },
        op matches UringOp::SendTo { fd, buf, buf_offset, addr } ==> {
            &&& op.sqe_spec(registered) matches Ok(Sqe::SendMsg { fd: f, start, len, addr: a })
            &&& f == fd && start == buf_offset && start + len == buf.len
            &&& a == addr
        },
        op matches UringOp::WriteFixed { fd, buf, buf_offset, offset } ==> {
            ||| {
                &&& op.sqe_spec(registered) matches Ok(Sqe::Write { fd: f, start, len, offset: o })
                &&& f == fd && start == buf_offset && o == offset
                &&& buf.len - buf_offset <= u32::MAX ==> start + len == buf.len
            }
            ||| {
                &&& op.sqe_spec(registered) matches Ok(Sqe::WriteFixed {
                    fd: f,
                    start,
                    len,
                    offset: o,
                    buf_index,
                })
                &&& f == fd && start == buf_offset && o == offset
                &&& buf.len - buf_offset <= u32::MAX ==> start + len == buf.len
                &&& buf_index == buf.region.id
            }
        },
{
}

/// A receive or a read may fill all of its buffer from the offset on: the range starts at
/// the offset and ends where the buffer ends.
pub proof fn received_ranges_end_with_the_buffer(op: UringOp, registered: Set<int>)
    requires
        op.wf(),
    ensures
        op matches UringOp::Recv { fd, buf, buf_offset } ==> {
            &&& op.sqe_spec(registered) matches Ok(Sqe::Recv { fd: f, start, len })
            &&& f == fd && start == buf_offset
            &&& buf.capacity - buf_offset <= u32::MAX ==> start + len == buf.capacity
        },
        op matches UringOp::UdpRecv { fd, buf, buf_offset } ==> {
            &&& op.sqe_spec(registered) matches Ok(Sqe::Recv { fd: f, start, len })
            &&& f == fd && start == buf_offset
            &&& buf.capacity - buf_offset <= u32::MAX ==> start + len == buf.capacity
        },
        op matches UringOp::UdpRecvStream { fd, buf: Some(buf) } ==> {
            &&& op.sqe_spec(registered) matches Ok(Sqe::RecvMsg { fd: f, len })
            &&& f == fd && len == buf.capacity
        },
        op matches UringOp::UdpRecvStream { fd, buf: None } ==> op.sqe_spec(registered) == Err::<
            Sqe,
            UringError,
        >(UringError::InvalidState),
        op matches UringOp::ReadFixed { fd, buf, buf_offset, offset } ==> {
            ||| {
                &&& op.sqe_spec(registered) matches Ok(Sqe::Read { fd: f, start, len, offset: o })
                &&& f == fd && start == buf_offset && o == offset
                &&& buf.capacity - buf_offset <= u32::MAX ==> start + len == buf.capacity
            }
            ||| {
                &&& op.sqe_spec(registered) matches Ok(Sqe::ReadFixed {
                    fd: f,
                    start,
                    len,
                    offset: o,
                    buf_index,
                })
                &&& f == fd && start == buf_offset && o == offset
                &&& buf.capacity - buf_offset <= u32::MAX ==> start + len == buf.capacity
                &&& buf_index == buf.region.id
            }
        },
{
}

/// The kernel is pointed at a registered chunk exactly if the buffer of the read or write
/// lies in one: the chunk comes from a slot pool, and the kernel was told of it.
pub proof fn registered_chunks_are_used(op: UringOp, registered: Set<int>, sqe: Sqe)
    requires
        op.wf(),
        op.sqe_spec(registered) == Ok::<Sqe, UringError>(sqe),
    ensures
        op matches UringOp::WriteFixed { buf, .. } ==> (sqe is WriteFixed
            <==> buf.region.pool_kind == PoolKind::SlotBased && registered.contains(
            buf.region.id as int,
        )),
        op matches UringOp::ReadFixed { buf, .. } ==> (sqe is ReadFixed <==> buf.region.pool_kind
            == PoolKind::SlotBased && registered.contains(buf.region.id as int)),
{
}

/// A synchronised range is passed on as it is when its length is a 32-bit number, and as a
/// range without an end when it is the largest 64-bit number; any other length is refused.
/// The metadata of a file is left out of a synchronisation exactly if only data was asked
/// for.
pub proof fn ranges_are_synchronised_as_asked(op: UringOp, registered: Set<int>)
    ensures
        op matches UringOp::SyncRange { fd, offset, nbytes, flags } ==> {
            &&& nbytes <= u32::MAX ==> (op.sqe_spec(registered) matches Ok(Sqe::SyncFileRange {
                fd: f,
                len,
                offset: o,
                flags: g,
            }) && f == fd && len == nbytes && o == offset && g == flags)
            &&& nbytes == u64::MAX ==> (op.sqe_spec(registered) matches Ok(Sqe::SyncFileRange {
                fd: f,
                len,
                offset: o,
                flags: g,
            }) && f == fd && len == 0 && o == offset && g == flags)
            &&& u32::MAX < nbytes < u64::MAX ==> op.sqe_spec(registered) == Err::<Sqe, UringError>(
                UringError::InvalidInput,
            )
        },
        op matches UringOp::Fsync { fd, datasync } ==> {
            &&& op.sqe_spec(registered) matches Ok(Sqe::Fsync { fd: f, flags })
            &&& f == fd
            &&& datasync ==> flags == 1
            &&& !datasync ==> flags == 0
        },
        op matches UringOp::Fallocate { fd, mode, offset, len } ==> {
            &&& op.sqe_spec(registered) matches Ok(Sqe::Fallocate {
                fd: f,
                len: l,
                offset: o,
                mode: m,
            })
            &&& f == fd && l == len && o == offset && m == mode
        },
{
}

/// Entries without data say what their operations say.
pub proof fn arguments_are_passed_on(op: UringOp, registered: Set<int>)
    ensures
        op matches UringOp::Connect { fd, addr_len } ==> (op.sqe_spec(registered) matches Ok(
            Sqe::Connect { fd: f, addr_len: n },
        ) && f == fd && n == addr_len),
        op matches UringOp::Accept { fd } ==> (op.sqe_spec(registered) matches Ok(
            Sqe::Accept { fd: f },
        ) && f == fd),
        op matches UringOp::Close { fd } ==> (op.sqe_spec(registered) matches Ok(
            Sqe::Close { fd: f },
        ) && f == fd),
        op matches UringOp::Open { flags, mode } ==> (op.sqe_spec(registered) matches Ok(
            Sqe::OpenAt { flags: g, mode: m },
        ) && g == flags && m == mode),
        op matches UringOp::Wakeup { fd } ==> (op.sqe_spec(registered) matches Ok(
            Sqe::WakeupRead { fd: f },
        ) && f == fd),
        op matches UringOp::Timeout { secs, nanos } ==> (op.sqe_spec(registered) matches Ok(
            Sqe::Timeout { secs: s, nanos: n },
        ) && s == secs && n == nanos),
{
}

/// Whether an entry is refused depends on the operation alone, and only two kinds ever
/// are: a range of a length that the kernel cannot take, and a stream without a buffer.
pub proof fn few_operations_have_no_entry(op: UringOp, registered: Set<int>)
    ensures
        op.sqe_spec(registered) is Err <==> {
            ||| op matches UringOp::SyncRange { nbytes, .. } && u32::MAX < nbytes < u64::MAX
            ||| op matches UringOp::UdpRecvStream { buf: None, .. }
        },
{
}

/// A timeout is left to the timer wheel, for as long as it says; closing is left to the
/// background; every other operation goes to the kernel.
pub proof fn timeouts_wait_and_closes_run_behind(op: UringOp)
    ensures
        op.strategy_spec() is SoftwareTimer <==> op is Timeout,
        op.strategy_spec() is BackgroundOnly <==> op is Close,
        op matches UringOp::Timeout { secs, nanos } ==> op.timeout_spec() == Some((secs, nanos)),
        op.timeout_spec() is Some <==> op is Timeout,
{
}

/// The chunks that have to be registered first are those of reads and writes whose buffers
/// come from a slot pool: the one chunk that the buffer lies in.
pub proof fn reads_and_writes_register_their_chunk(op: UringOp)
    ensures
        op matches UringOp::ReadFixed { buf, .. } ==> op.chunks_spec() == (
        if buf.region.pool_kind == PoolKind::SlotBased {
            seq![buf.region.id]
        } else {
            seq![]
        }),
        op matches UringOp::WriteFixed { buf, .. } ==> op.chunks_spec() == (
        if buf.region.pool_kind == PoolKind::SlotBased {
            seq![buf.region.id]
        } else {
            seq![]
        }),
        !(op is ReadFixed) && !(op is WriteFixed) ==> op.chunks_spec().len() == 0,
{
}

/// The entry that goes into the submission queue for an operation without memory closes,
/// synchronises or allocates what the operation names, as it asks, under the number given. An
/// operation that has to wait for its memory has none yet.
pub proof fn plain_operations_go_out_as_asked(
    op: UringOp,
    registered: Set<int>,
    sqe: Sqe,
    user_data: u64,
)
    requires
        op.sqe_spec(registered) == Ok::<Sqe, UringError>(sqe),
    ensures
        op matches UringOp::Close { fd: IoFd::Raw { fd } } ==> sqe.entry_spec(user_data) == Some(
            close_fd_entry_of(fd, user_data),
        ),
        op matches UringOp::Close { fd: IoFd::Fixed { index } } ==> sqe.entry_spec(user_data)
            == Some(close_fixed_entry_of(index, user_data)),
        op matches UringOp::Fsync { fd: IoFd::Raw { fd }, datasync } ==> sqe.entry_spec(user_data)
            == Some(
            fsync_fd_entry_of(
                fd,
                if datasync {
                    1
                } else {
                    0
                },
                user_data,
            ),
        ),
        op matches UringOp::Fsync { fd: IoFd::Fixed { index }, datasync } ==> sqe.entry_spec(
            user_data,
        ) == Some(
            fsync_fixed_entry_of(
                index,
                if datasync {
                    1
                } else {
                    0
                },
                user_data,
            ),
        ),
        op matches UringOp::SyncRange { fd: IoFd::Raw { fd }, offset, nbytes, flags } ==> (nbytes
            <= 0xffff_ffff ==> sqe.entry_spec(user_data) == Some(
            sync_range_fd_entry_of(fd, nbytes as u32, offset, flags, user_data),
        )),
        op matches UringOp::SyncRange { fd: IoFd::Fixed { index }, offset, nbytes, flags } ==> (
        nbytes <= 0xffff_ffff ==> sqe.entry_spec(user_data) == Some(
            sync_range_fixed_entry_of(index, nbytes as u32, offset, flags, user_data),
        )),
        op matches UringOp::Fallocate { fd: IoFd::Raw { fd }, mode, offset, len }
            ==> sqe.entry_spec(user_data) == Some(
            fallocate_fd_entry_of(fd, len, offset, mode, user_data),
        ),
        op matches UringOp::Fallocate { fd: IoFd::Fixed { index }, mode, offset, len }
            ==> sqe.entry_spec(user_data) == Some(
            fallocate_fixed_entry_of(index, len, offset, mode, user_data),
        ),
        op is ReadFixed || op is WriteFixed || op is Recv || op is Send || op is UdpRecv
            || op is UdpSend || op is SendTo || op is UdpRecvStream || op is Connect || op is Accept
            || op is Open ==> sqe.entry_spec(user_data) is None,
{
}

} // verus!
