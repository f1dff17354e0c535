//! Submission-queue entries of the `io_uring` crate, for operations that refer to no
//! memory of the caller.
use io_uring::squeue::Entry;
use io_uring::{opcode, types};
use vstd::prelude::*;
use super::lifecycle::CANCEL_USER_DATA;
use super::op::{IoFd, Sqe};

verus! {

/// A submission-queue entry of the `io_uring` crate.
#[verifier::external_type_specification]
#[verifier::external_body]
pub struct ExEntry(Entry);

/// What `opcode::AsyncCancel::new(target).build().user_data(user_data)` gives.
pub uninterp spec fn cancel_entry_of(target: u64, user_data: u64) -> Entry;

/// What `opcode::Nop::new().build().user_data(user_data)` gives.
pub uninterp spec fn nop_entry_of(user_data: u64) -> Entry;

/// What `opcode::Close::new(types::Fd(fd)).build().user_data(user_data)` gives.
pub uninterp spec fn close_fd_entry_of(fd: i32, user_data: u64) -> Entry;

/// What `opcode::Close::new(types::Fixed(index)).build().user_data(user_data)` gives.
pub uninterp spec fn close_fixed_entry_of(index: u32, user_data: u64) -> Entry;

/// What `opcode::Fsync` builds for a plain descriptor.
pub uninterp spec fn fsync_fd_entry_of(fd: i32, flags: u32, user_data: u64) -> Entry;

/// What `opcode::Fsync` builds for a registered file.
pub uninterp spec fn fsync_fixed_entry_of(index: u32, flags: u32, user_data: u64) -> Entry;

/// What `opcode::SyncFileRange` builds for a plain descriptor.
pub uninterp spec fn sync_range_fd_entry_of(
    fd: i32,
    len: u32,
    offset: u64,
    flags: u32,
    user_data: u64,
) -> Entry;

/// What `opcode::SyncFileRange` builds for a registered file.
pub uninterp spec fn sync_range_fixed_entry_of(
    index: u32,
    len: u32,
    offset: u64,
    flags: u32,
    user_data: u64,
) -> Entry;

/// What `opcode::Fallocate` builds for a plain descriptor.
pub uninterp spec fn fallocate_fd_entry_of(
    fd: i32,
    len: u64,
    offset: u64,
    mode: i32,
    user_data: u64,
) -> Entry;

/// What `opcode::Fallocate` builds for a registered file.
pub uninterp spec fn fallocate_fixed_entry_of(
    index: u32,
    len: u64,
    offset: u64,
    mode: i32,
    user_data: u64,
) -> Entry;

/// Calls `opcode::AsyncCancel`; the entry is a function of the two numbers.
#[verifier::external_body]
fn async_cancel(target: u64, user_data: u64) -> (e: Entry)
    ensures
        e == cancel_entry_of(target, user_data),
{
    opcode::AsyncCancel::new(target).build().user_data(user_data)
}

/// Calls `opcode::Nop`; the entry is a function of the user data.
#[verifier::external_body]
fn nop(user_data: u64) -> (e: Entry)
    ensures
        e == nop_entry_of(user_data),
{
    opcode::Nop::new().build().user_data(user_data)
}

/// Calls `opcode::Close` on a plain descriptor; the entry is a function of the
/// arguments.
#[verifier::external_body]
fn close_fd(fd: i32, user_data: u64) -> (e: Entry)
    ensures
        e == close_fd_entry_of(fd, user_data),
{
    opcode::Close::new(types::Fd(fd)).build().user_data(user_data)
}

/// Calls `opcode::Close` on a registered file; the entry is a function of the
/// arguments. It holds the index plus one in 32 bits, so the largest index is left
/// out.
#[verifier::external_body]
fn close_fixed(index: u32, user_data: u64) -> (e: Entry)
    requires
        index < u32::MAX,
    ensures
        e == close_fixed_entry_of(index, user_data),
{
    opcode::Close::new(types::Fixed(index)).build().user_data(user_data)
}

/// Calls `opcode::Fsync` on a plain descriptor; the entry is a function of the
/// arguments.
#[verifier::external_body]
fn fsync_fd(fd: i32, flags: u32, user_data: u64) -> (e: Entry)
    ensures
        e == fsync_fd_entry_of(fd, flags, user_data),
{
    opcode::Fsync::new(types::Fd(fd))
        .flags(types::FsyncFlags::from_bits_retain(flags))
        .build()
        .user_data(user_data)
}

/// Calls `opcode::Fsync` on a registered file; the entry is a function of the
/// arguments.
#[verifier::external_body]
fn fsync_fixed(index: u32, flags: u32, user_data: u64) -> (e: Entry)
    ensures
        e == fsync_fixed_entry_of(index, flags, user_data),
{
    opcode::Fsync::new(types::Fixed(index))
        .flags(types::FsyncFlags::from_bits_retain(flags))
        .build()
        .user_data(user_data)
}

/// Calls `opcode::SyncFileRange` on a plain descriptor; the entry is a function of
/// the arguments.
#[verifier::external_body]
fn sync_range_fd(fd: i32, len: u32, offset: u64, flags: u32, user_data: u64) -> (e: Entry)
    ensures
        e == sync_range_fd_entry_of(fd, len, offset, flags, user_data),
{
    opcode::SyncFileRange::new(types::Fd(fd), len)
        .offset(offset)
        .flags(flags)
        .build()
        .user_data(user_data)
}

/// Calls `opcode::SyncFileRange` on a registered file; the entry is a function of
/// the arguments.
#[verifier::external_body]
fn sync_range_fixed(index: u32, len: u32, offset: u64, flags: u32, user_data: u64) -> (e: Entry)
    ensures
        e == sync_range_fixed_entry_of(index, len, offset, flags, user_data),
{
    opcode::SyncFileRange::new(types::Fixed(index), len)
        .offset(offset)
        .flags(flags)
        .build()
        .user_data(user_data)
}

/// Calls `opcode::Fallocate` on a plain descriptor; the entry is a function of the
/// arguments.
#[verifier::external_body]
fn fallocate_fd(fd: i32, len: u64, offset: u64, mode: i32, user_data: u64) -> (e: Entry)
    ensures
        e == fallocate_fd_entry_of(fd, len, offset, mode, user_data),
{
    opcode::Fallocate::new(types::Fd(fd), len)
        .offset(offset)
        .mode(mode)
        .build()
        .user_data(user_data)
}

/// Calls `opcode::Fallocate` on a registered file; the entry is a function of the
/// arguments.
#[verifier::external_body]
fn fallocate_fixed(index: u32, len: u64, offset: u64, mode: i32, user_data: u64) -> (e: Entry)
    ensures
        e == fallocate_fixed_entry_of(index, len, offset, mode, user_data),
{
    opcode::Fallocate::new(types::Fixed(index), len)
        .offset(offset)
        .mode(mode)
        .build()
        .user_data(user_data)
}

/// The entry that asks the kernel to cancel the operation in slot `target`.
pub fn cancel_entry(target: usize) -> (e: Entry)
    ensures
        e == cancel_entry_of(target as u64, CANCEL_USER_DATA),
{
    async_cancel(target as u64, CANCEL_USER_DATA)
}

impl Sqe {
    /// The entry to put into the submission queue, where it refers to no memory of
    /// the caller, in specifications.
    pub open spec fn entry_spec(self, user_data: u64) -> Option<Entry> {
        match self {
            Sqe::Close { fd: IoFd::Raw { fd } } => Some(close_fd_entry_of(fd, user_data)),
            Sqe::Close { fd: IoFd::Fixed { index } } => Some(
                close_fixed_entry_of(index, user_data),
            ),
            Sqe::Fsync { fd: IoFd::Raw { fd }, flags } => Some(
                fsync_fd_entry_of(fd, flags, user_data),
            ),
            Sqe::Fsync { fd: IoFd::Fixed { index }, flags } => Some(
                fsync_fixed_entry_of(index, flags, user_data),
            ),
            Sqe::SyncFileRange { fd: IoFd::Raw { fd }, len, offset, flags } => Some(
                sync_range_fd_entry_of(fd, len, offset, flags, user_data),
            ),
            Sqe::SyncFileRange { fd: IoFd::Fixed { index }, len, offset, flags } => Some(
                sync_range_fixed_entry_of(index, len, offset, flags, user_data),
            ),
            Sqe::Fallocate { fd: IoFd::Raw { fd }, len, offset, mode } => Some(
                fallocate_fd_entry_of(fd, len, offset, mode, user_data),
            ),
            Sqe::Fallocate { fd: IoFd::Fixed { index }, len, offset, mode } => Some(
                fallocate_fixed_entry_of(index, len, offset, mode, user_data),
            ),
            Sqe::Nop => Some(nop_entry_of(user_data)),
            _ => None,
        }
    }

    /// The entry to put into the submission queue, where it refers to no memory of
    /// the caller. The owner of the memory has to build any other one. There is no
    /// entry that closes a registered file at the largest index.
    pub fn entry(&self, user_data: u64) -> (e: Option<Entry>)
        requires
            self matches Sqe::Close { fd: IoFd::Fixed { index } } ==> index < u32::MAX,
        ensures
            e == self.entry_spec(user_data),
    {
        match self {
            Sqe::Close { fd } => match fd {
                IoFd::Raw { fd } => Some(close_fd(*fd, user_data)),
                IoFd::Fixed { index } => Some(close_fixed(*index, user_data)),
            },
            Sqe::Fsync { fd, flags } => match fd {
                IoFd::Raw { fd } => Some(fsync_fd(*fd, *flags, user_data)),
                IoFd::Fixed { index } => Some(fsync_fixed(*index, *flags, user_data)),
            },
            Sqe::SyncFileRange { fd, len, offset, flags } => match fd {
                IoFd::Raw { fd } => Some(sync_range_fd(*fd, *len, *offset, *flags, user_data)),
                IoFd::Fixed { index } => Some(
                    sync_range_fixed(*index, *len, *offset, *flags, user_data),
                ),
            },
            Sqe::Fallocate { fd, len, offset, mode } => match fd {
                IoFd::Raw { fd } => Some(fallocate_fd(*fd, *len, *offset, *mode, user_data)),
                IoFd::Fixed { index } => Some(
                    fallocate_fixed(*index, *len, *offset, *mode, user_data),
                ),
            },
            Sqe::Nop => Some(nop(user_data)),
            _ => None,
        }
    }
}

} // verus!
