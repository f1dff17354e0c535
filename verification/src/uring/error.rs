//! Errors of the io_uring driver.
use vstd::prelude::*;

verus! {

/// What went wrong inside the driver.
#[derive(Debug, Clone, Copy, PartialEq, Eq, Structural)]
pub enum UringError {
    DriverInit,
    CompletionWait,
    Submission,
    Registration,
    ResolveFd,
    Socket,
    InvalidInput,
    InvalidState,
    Unsupported,
    Internal,
}

impl UringError {
    /// The error in words.
    pub fn message(self) -> (s: &'static str)
        ensures
            s@ == (match self {
                UringError::DriverInit => "io_uring driver initialization failed"@,
                UringError::CompletionWait => "io_uring completion wait failed"@,
                UringError::Submission => "io_uring operation submission failed"@,
                UringError::Registration => "io_uring registration failed"@,
                UringError::ResolveFd => "failed to resolve io_uring file descriptor"@,
                UringError::Socket => "socket operation failed"@,
                UringError::InvalidInput => "invalid input"@,
                UringError::InvalidState => "invalid internal state"@,
                UringError::Unsupported => "unsupported operation"@,
                UringError::Internal => "internal error"@,
            }),
    {
        match self {
            UringError::DriverInit => "io_uring driver initialization failed",
            UringError::CompletionWait => "io_uring completion wait failed",
            UringError::Submission => "io_uring operation submission failed",
            UringError::Registration => "io_uring registration failed",
            UringError::ResolveFd => "failed to resolve io_uring file descriptor",
            UringError::Socket => "socket operation failed",
            UringError::InvalidInput => "invalid input",
            UringError::InvalidState => "invalid internal state",
            UringError::Unsupported => "unsupported operation",
            UringError::Internal => "internal error",
        }
    }
}

/// The operation of the driver's interface that failed.
#[derive(Debug, Clone, Copy, PartialEq, Eq, Structural)]
pub enum DriverErrorKind {
    Submission,
    Completion,
    Registration,
    System,
    InvalidState,
    Unsupported,
    Internal,
}

} // verus!
