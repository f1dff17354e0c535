//! The RIO function table and what its functions report.
use vstd::prelude::*;
use crate::iocp::error::{IocpError, RioError};
use crate::iocp::win32::SOCKET_ERROR;

verus! {

/// A registered buffer. 0 is none.
#[derive(Debug, Clone, Copy, PartialEq, Eq, Structural)]
pub struct RioBufferId {
    pub id: u64,
}

/// A completion queue. 0 is none.
#[derive(Debug, Clone, Copy, PartialEq, Eq, Structural)]
pub struct RioCq {
    pub id: u64,
}

/// A request queue.
#[derive(Debug, Clone, Copy, PartialEq, Eq, Structural)]
pub struct RioRq {
    pub id: u64,
}

/// A range of a registered buffer.
#[derive(Debug, Clone, Copy, PartialEq, Eq, Structural)]
pub struct RioBuf {
    pub buffer_id: RioBufferId,
    pub offset: u32,
    pub length: u32,
}

/// A dequeued completion.
#[derive(Debug, Clone, Copy, PartialEq, Eq, Structural)]
pub struct RioResult {
    pub status: i32,
    pub bytes_transferred: u32,
    pub request_context: u64,
}

/// `RIO_CORRUPT_CQ`, given back in place of a number of completions.
pub const RIO_CORRUPT_CQ: u32 = 0xffff_ffff;

/// How many completions are dequeued at a time.
pub const MAX_RIO_RESULTS: u32 = 128;

impl RioBufferId {
    /// No buffer.
    pub fn invalid() -> (b: Self)
        ensures
            b.id == 0,
    {
        RioBufferId { id: 0 }
    }

    /// Whether this is no buffer.
    pub fn is_invalid(&self) -> (b: bool)
        ensures
            b <==> self.id == 0,
    {
        self.id == 0
    }

    /// The answer of `RIORegisterBuffer`.
    pub fn registered(id: u64) -> (r: Result<Self, RioError>)
        ensures
            id == 0 ==> r == Err::<RioBufferId, RioError>(RioError::BufferRegistration),
            id != 0 ==> r == Ok::<RioBufferId, RioError>(RioBufferId { id }),
    {
        if id == 0 {
            return Err(RioError::BufferRegistration);
        }
        Ok(RioBufferId { id })
    }
}

impl RioRq {
    /// The answer of `RIOCreateRequestQueue`.
    pub fn created(id: u64) -> (r: Result<Self, RioError>)
        ensures
            id == 0 ==> r == Err::<RioRq, RioError>(RioError::RqCreation),
            id != 0 ==> r == Ok::<RioRq, RioError>(RioRq { id }),
    {
        if id == 0 {
            return Err(RioError::RqCreation);
        }
        Ok(RioRq { id })
    }
}

/// The functions of the RIO table that the driver needs.
#[derive(Debug, Clone, Copy, PartialEq, Eq, Structural)]
pub enum RioFunction {
    CreateCompletionQueue,
    CreateRequestQueue,
    RegisterBuffer,
    DeregisterBuffer,
    DequeueCompletion,
    Notify,
    CloseCompletionQueue,
    Receive,
    Send,
    SendEx,
    ReceiveEx,
}

/// The order in which the functions are asked for.
pub open spec fn rank(f: RioFunction) -> int {
    match f {
        RioFunction::CreateCompletionQueue => 0,
        RioFunction::CreateRequestQueue => 1,
        RioFunction::RegisterBuffer => 2,
        RioFunction::DeregisterBuffer => 3,
        RioFunction::DequeueCompletion => 4,
        RioFunction::Notify => 5,
        RioFunction::CloseCompletionQueue => 6,
        RioFunction::Receive => 7,
        RioFunction::Send => 8,
        RioFunction::SendEx => 9,
        RioFunction::ReceiveEx => 10,
    }
}

/// Which functions the system has in its RIO table.
#[derive(Debug, Clone, Copy, PartialEq, Eq, Structural)]
pub struct RioTable {
    pub create_completion_queue: bool,
    pub create_request_queue: bool,
    pub register_buffer: bool,
    pub deregister_buffer: bool,
    pub dequeue_completion: bool,
    pub notify: bool,
    pub close_completion_queue: bool,
    pub receive: bool,
    pub send: bool,
    pub send_ex: bool,
    pub receive_ex: bool,
}

impl RioTable {
    /// Whether a function is there.
    pub open spec fn has(self, f: RioFunction) -> bool {
        match f {
            RioFunction::CreateCompletionQueue => self.create_completion_queue,
            RioFunction::CreateRequestQueue => self.create_request_queue,
            RioFunction::RegisterBuffer => self.register_buffer,
            RioFunction::DeregisterBuffer => self.deregister_buffer,
            RioFunction::DequeueCompletion => self.dequeue_completion,
            RioFunction::Notify => self.notify,
            RioFunction::CloseCompletionQueue => self.close_completion_queue,
            RioFunction::Receive => self.receive,
            RioFunction::Send => self.send,
            RioFunction::SendEx => self.send_ex,
            RioFunction::ReceiveEx => self.receive_ex,
        }
    }

    /// A table with every function.
    pub fn complete() -> (t: Self)
        ensures
            forall|f: RioFunction| t.has(f),
    {
        RioTable {
            create_completion_queue: true,
            create_request_queue: true,
            register_buffer: true,
            deregister_buffer: true,
            dequeue_completion: true,
            notify: true,
            close_completion_queue: true,
            receive: true,
            send: true,
            send_ex: true,
            receive_ex: true,
        }
    }

    /// The first function that is missing, in the order in which they are asked for.
    pub fn first_missing(&self) -> (r: Option<RioFunction>)
        ensures
            r is None <==> forall|f: RioFunction| self.has(f),
            r matches Some(f) ==> !self.has(f) && forall|g: RioFunction|
                rank(g) < rank(f) ==> #[trigger] self.has(g),
    {
        let r = if !self.create_completion_queue {
            Some(RioFunction::CreateCompletionQueue)
        } else if !self.create_request_queue {
            Some(RioFunction::CreateRequestQueue)
        } else if !self.register_buffer {
            Some(RioFunction::RegisterBuffer)
        } else if !self.deregister_buffer {
            Some(RioFunction::DeregisterBuffer)
        } else if !self.dequeue_completion {
            Some(RioFunction::DequeueCompletion)
        } else if !self.notify {
            Some(RioFunction::Notify)
        } else if !self.close_completion_queue {
            Some(RioFunction::CloseCompletionQueue)
        } else if !self.receive {
            Some(RioFunction::Receive)
        } else if !self.send {
            Some(RioFunction::Send)
        } else if !self.send_ex {
            Some(RioFunction::SendEx)
        } else if !self.receive_ex {
            Some(RioFunction::ReceiveEx)
        } else {
            None
        };
        proof {
            if let Some(f) = r {
                assert(!self.has(f));
            }
        }
        r
    }
}

/// What the system reports of its socket extensions.
#[derive(Debug, Clone, Copy, PartialEq, Eq, Structural)]
pub struct ExtensionAnswers {
    pub connect_ex: bool,
    pub accept_ex: bool,
    pub get_accept_ex_sockaddrs: bool,
    pub rio_table: Option<RioTable>,
}

/// The socket extensions, all of them loaded.
#[derive(Debug, Clone, Copy, PartialEq, Eq, Structural)]
pub struct Extensions {
    pub rio_table: RioTable,
}

impl Extensions {
    /// Loads the extensions. Each of them is needed.
    pub fn new(answers: ExtensionAnswers) -> (r: Result<Self, IocpError>)
        ensures
            r is Ok <==> answers.connect_ex && answers.accept_ex && answers.get_accept_ex_sockaddrs
                && answers.rio_table is Some,
            r matches Err(e) ==> e is Win32,
            r matches Ok(x) ==> Some(x.rio_table) == answers.rio_table,
    {
        if !answers.connect_ex || !answers.accept_ex || !answers.get_accept_ex_sockaddrs {
            return Err(IocpError::Win32);
        }
        match answers.rio_table {
            Some(rio_table) => Ok(Extensions { rio_table }),
            None => Err(IocpError::Win32),
        }
    }
}

/// The completion queue and whether the function table is there.
#[derive(Debug, Clone, Copy, PartialEq, Eq, Structural)]
pub struct RioKernel {
    pub cq: RioCq,
    pub dispatch: bool,
}

/// What the caller has to do to set the RIO kernel up.
#[derive(Debug, Clone, Copy, PartialEq, Eq, Structural)]
pub enum KernelSetup {
    /// Create a completion queue with that many entries that reports to the port, and
    /// ask for its first notification.
    CreateCq { entries: u32 },
}

impl RioKernel {
    /// Checks the function table, and gives the size of the completion queue: one
    /// place per entry, but 128 at least.
    pub fn from_extensions(entries: u32, ext: &Extensions) -> (r: Result<KernelSetup, RioError>)
        ensures
            r is Err <==> exists|f: RioFunction| !ext.rio_table.has(f),
            r matches Err(e) ==> e is LibraryLoad,
            r matches Ok(s) ==> s == (KernelSetup::CreateCq {
                entries: if entries < 128 {
                    128
                } else {
                    entries
                },
            }),
    {
        match ext.rio_table.first_missing() {
            Some(f) => {
                assert(!ext.rio_table.has(f));
                Err(RioError::LibraryLoad)
            },
            None => {
                let entries: u32 = if entries < 128 {
                    128
                } else {
                    entries
                };
                Ok(KernelSetup::CreateCq { entries })
            },
        }
    }

    /// Takes over the completion queue: `cq` is the answer of
    /// `RIOCreateCompletionQueue`, `notified` that of `RIONotify`.
    pub fn new(cq: u64, notified: i32) -> (r: Result<Self, RioError>)
        ensures
            cq == 0 ==> r == Err::<RioKernel, RioError>(RioError::CqCreation),
            cq != 0 && notified == SOCKET_ERROR ==> r == Err::<RioKernel, RioError>(
                RioError::Datapath,
            ),
            cq != 0 && notified != SOCKET_ERROR ==> r == Ok::<RioKernel, RioError>(
                RioKernel { cq: RioCq { id: cq }, dispatch: true },
            ),
    {
        if cq == 0 {
            return Err(RioError::CqCreation);
        }
        if notified == SOCKET_ERROR {
            return Err(RioError::Datapath);
        }
        Ok(RioKernel { cq: RioCq { id: cq }, dispatch: true })
    }

    /// A kernel that does nothing.
    pub fn noop() -> (k: Self)
        ensures
            k == (RioKernel { cq: RioCq { id: 0 }, dispatch: false }),
    {
        RioKernel { cq: RioCq { id: 0 }, dispatch: false }
    }

    /// Closes the completion queue, and gives the queue that the system has to close,
    /// if there is one.
    pub fn close(&mut self) -> (r: Option<RioCq>)
        ensures
            *final(self) == (RioKernel { cq: RioCq { id: 0 }, ..*old(self) }),
            r == (if old(self).cq.id != 0 && old(self).dispatch {
                Some(old(self).cq)
            } else {
                None
            }),
    {
        let cq = self.cq;
        self.cq = RioCq { id: 0 };
        if cq.id != 0 && self.dispatch {
            Some(cq)
        } else {
            None
        }
    }
}

} // verus!
