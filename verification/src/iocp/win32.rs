//! What Win32 calls on handles and completion ports report.
use vstd::prelude::*;
use super::config::INVALID_HANDLE_VALUE;

verus! {

/// `WAIT_TIMEOUT`.
pub const WAIT_TIMEOUT: u32 = 258;

/// `ERROR_INVALID_PARAMETER`.
pub const ERROR_INVALID_PARAMETER: u32 = 87;

/// `ERROR_IO_PENDING`.
pub const ERROR_IO_PENDING: u32 = 997;

/// `SOCKET_ERROR`.
pub const SOCKET_ERROR: i32 = -1;

/// A handle that is closed when its owner goes away.
#[derive(Debug, PartialEq, Eq, Structural)]
pub struct OwnedHandle {
    pub raw: usize,
}

impl OwnedHandle {
    /// Takes ownership of `handle`.
    pub fn from_raw(handle: usize) -> (h: Self)
        ensures
            h.raw == handle,
    {
        OwnedHandle { raw: handle }
    }

    /// The handle held.
    pub fn as_raw(&self) -> (h: usize)
        ensures
            h == self.raw,
    {
        self.raw
    }

    /// Whether there is anything to close: neither null nor the invalid handle.
    pub fn is_valid(&self) -> (b: bool)
        ensures
            b <==> self.raw != 0 && self.raw != INVALID_HANDLE_VALUE,
    {
        self.raw != 0 && self.raw != INVALID_HANDLE_VALUE
    }
}

/// An I/O completion port.
#[derive(Debug, PartialEq, Eq, Structural)]
pub struct IoCompletionPort {
    pub handle: OwnedHandle,
}

/// What waiting on a completion port brought.
#[derive(Debug, Clone, Copy, PartialEq, Eq, Structural)]
pub enum CompletionStatus {
    /// A completion packet. `overlapped` tells which operation it belongs to, if it
    /// belongs to one.
    Completed {
        bytes: u32,
        key: usize,
        overlapped: Option<usize>,
        success: bool,
        error_code: Option<u32>,
    },
    /// Nothing, in the time given.
    Timeout,
}

impl IoCompletionPort {
    /// Takes over the port that `CreateIoCompletionPort` made; with a null handle, its
    /// error.
    pub fn new(handle: usize, last_error: i32) -> (r: Result<Self, i32>)
        ensures
            handle == 0 ==> r == Err::<IoCompletionPort, i32>(last_error),
            handle != 0 ==> (r matches Ok(p) && p.handle.raw == handle),
    {
        if handle == 0 {
            return Err(last_error);
        }
        Ok(IoCompletionPort { handle: OwnedHandle::from_raw(handle) })
    }

    /// The answer to associating a handle with a port. A handle that is associated
    /// already is refused with `ERROR_INVALID_PARAMETER`, which is no failure.
    pub fn associate(result: usize, last_error: u32) -> (r: Result<(), i32>)
        ensures
            r is Ok <==> result != 0 || last_error == ERROR_INVALID_PARAMETER,
            r matches Err(code) ==> code == last_error as i32,
    {
        if result == 0 {
            if last_error == ERROR_INVALID_PARAMETER {
                return Ok(());
            }
            return Err(
                #[verifier::truncate]
                (last_error as i32),
            );
        }
        Ok(())
    }

    /// The answer to posting a packet to a port.
    pub fn post(result: i32, last_error: i32) -> (r: Result<(), i32>)
        ensures
            result == 0 ==> r == Err::<(), i32>(last_error),
            result != 0 ==> r is Ok,
    {
        if result == 0 {
            return Err(last_error);
        }
        Ok(())
    }

    /// The answer to waiting on a port. A failure that comes with an operation is that
    /// operation's failure; one without is a timeout or a failure to wait.
    pub fn get_status(
        result: i32,
        last_error: u32,
        bytes: u32,
        key: usize,
        overlapped: Option<usize>,
    ) -> (r: Result<CompletionStatus, i32>)
        ensures
            r == (if result != 0 {
                Ok::<CompletionStatus, i32>(
                    CompletionStatus::Completed {
                        bytes,
                        key,
                        overlapped,
                        success: true,
                        error_code: None,
                    },
                )
            } else if overlapped is Some {
                Ok(
                    CompletionStatus::Completed {
                        bytes,
                        key,
                        overlapped,
                        success: false,
                        error_code: Some(last_error),
                    },
                )
            } else if last_error == WAIT_TIMEOUT {
                Ok(CompletionStatus::Timeout)
            } else {
                Err(last_error as i32)
            }),
    {
        if result == 0 {
            if overlapped.is_none() {
                if last_error == WAIT_TIMEOUT {
                    return Ok(CompletionStatus::Timeout);
                }
                return Err(
                    #[verifier::truncate]
                    (last_error as i32),
                );
            }
            return Ok(
                CompletionStatus::Completed {
                    bytes,
                    key,
                    overlapped,
                    success: false,
                    error_code: Some(last_error),
                },
            );
        }
        Ok(
            CompletionStatus::Completed { bytes, key, overlapped, success: true, error_code: None },
        )
    }
}

/// Asks for wake-ups of the driver from other threads.
#[derive(Debug, Clone, Copy, PartialEq, Eq, Structural)]
pub struct IocpWaker {
    pub is_notified: bool,
}

impl IocpWaker {
    /// Asks for a wake-up, and says whether a packet has to be posted: only the first
    /// request since the driver last woke up has to.
    pub fn begin_wake(&mut self) -> (post: bool)
        ensures
            post == !old(self).is_notified,
            final(self).is_notified,
    {
        if self.is_notified {
            return false;
        }
        self.is_notified = true;
        true
    }
}

/// Whether an overlapped call was accepted: it succeeded at once, or it is pending.
pub open spec fn call_accepted(failed: bool, last_error: u32) -> bool {
    !failed || last_error == ERROR_IO_PENDING
}

/// The answer to an overlapped call.
pub fn overlapped_result(failed: bool, last_error: u32) -> (r: Result<(), i32>)
    ensures
        r is Ok <==> call_accepted(failed, last_error),
        r matches Err(code) ==> code == last_error as i32,
{
    if failed {
        if last_error != ERROR_IO_PENDING {
            return Err(
                #[verifier::truncate]
                (last_error as i32),
            );
        }
    }
    Ok(())
}

} // verus!
