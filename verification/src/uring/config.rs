//! Handles, buffer registration modes and driver configuration.
use vstd::prelude::*;
use crate::nonzero::NonZeroU32;

verus! {

/// What a handle refers to.
#[derive(Debug, Clone, Copy, PartialEq, Eq, Structural)]
pub enum RawHandleKind {
    File,
    Socket,
}

/// A file descriptor together with what it refers to. Sockets carry a generation,
/// so that a descriptor number that the kernel hands out again is told apart.
#[derive(Debug, Clone, Copy, PartialEq, Eq, Structural)]
pub enum RawHandle {
    File { fd: i32 },
    Socket { fd: i32, generation: u32 },
}

/// A handle that the holder must close.
#[derive(Debug, PartialEq, Eq, Structural)]
pub struct OwnedRawHandle {
    pub raw: RawHandle,
}

/// A handle that somebody else closes.
#[derive(Debug, Clone, Copy, PartialEq, Eq, Structural)]
pub struct BorrowedRawHandle {
    pub raw: RawHandle,
}

/// The source of socket generations. It counts up from 1 and never gives out 0.
#[derive(Debug, Clone, Copy, PartialEq, Eq, Structural)]
pub struct SocketGenerations {
    pub next: u32,
}

impl SocketGenerations {
    /// The counter of a fresh process.
    pub fn new() -> (g: Self)
        ensures
            g.next == 1,
    {
        SocketGenerations { next: 1 }
    }

    /// The generation that is taken next.
    pub open spec fn next_generation(self) -> u32 {
        if self.next == 0 {
            1
        } else {
            self.next
        }
    }

    /// The counter after the next generation was taken.
    pub open spec fn after_generation(self) -> SocketGenerations {
        SocketGenerations {
            next: if self.next == u32::MAX {
                0
            } else {
                (self.next + 1) as u32
            },
        }
    }

    /// The counter after `n` generations were taken.
    pub open spec fn after_generations(self, n: nat) -> SocketGenerations
        decreases n,
    {
        if n == 0 {
            self
        } else {
            self.after_generations((n - 1) as nat).after_generation()
        }
    }

    /// Takes the next generation. When the counter has wrapped around to 0, it
    /// restarts at 1.
    pub fn alloc_socket_generation(&mut self) -> (generation: u32)
        ensures
            generation != 0,
            generation == old(self).next_generation(),
            *final(self) == old(self).after_generation(),
    {
        let generation: u32 = self.next;
        self.next = generation.wrapping_add(1);
        if generation == 0 {
            self.next = 1;
            1
        } else {
            generation
        }
    }
}

impl RawHandle {
    /// A handle to a file.
    pub fn for_file(fd: i32) -> (h: Self)
        ensures
            h == (RawHandle::File { fd }),
    {
        RawHandle::File { fd }
    }

    /// A handle to a socket, under a fresh generation.
    pub fn for_socket(fd: i32, generations: &mut SocketGenerations) -> (h: Self)
        ensures
            h == (RawHandle::Socket { fd, generation: old(generations).next_generation() }),
            *final(generations) == old(generations).after_generation(),
    {
        RawHandle::Socket { fd, generation: generations.alloc_socket_generation() }
    }

    /// The descriptor, in specifications.
    pub open spec fn fd_spec(self) -> i32 {
        match self {
            RawHandle::File { fd } => fd,
            RawHandle::Socket { fd, generation } => fd,
        }
    }

    /// The descriptor.
    pub fn as_fd(self) -> (fd: i32)
        ensures
            fd == self.fd_spec(),
    {
        match self {
            RawHandle::File { fd } => fd,
            RawHandle::Socket { fd, generation: _ } => fd,
        }
    }

    /// The generation of a socket; 0 for a file.
    pub fn generation(self) -> (g: u32)
        ensures
            g == (match self {
                RawHandle::File { fd } => 0u32,
                RawHandle::Socket { fd, generation } => generation,
            }),
    {
        match self {
            RawHandle::File { fd: _ } => 0,
            RawHandle::Socket { fd: _, generation } => generation,
        }
    }

    /// What the handle refers to.
    pub fn kind(self) -> (k: RawHandleKind)
        ensures
            k is File <==> self is File,
    {
        match self {
            RawHandle::File { fd: _ } => RawHandleKind::File,
            RawHandle::Socket { fd: _, generation: _ } => RawHandleKind::Socket,
        }
    }

    /// Whether this is a file.
    pub fn is_file(self) -> (b: bool)
        ensures
            b <==> self is File,
    {
        matches!(self, RawHandle::File { fd: _ })
    }

    /// Whether this is a socket.
    pub fn is_socket(self) -> (b: bool)
        ensures
            b <==> self is Socket,
    {
        matches!(self, RawHandle::Socket { fd: _, generation: _ })
    }

    /// A view of the handle that does not own it.
    pub fn borrow(&self) -> (b: BorrowedRawHandle)
        ensures
            b.raw == *self,
    {
        BorrowedRawHandle { raw: *self }
    }

    /// Takes ownership of the descriptor.
    pub fn into_owned(self) -> (o: OwnedRawHandle)
        ensures
            o.raw == self,
    {
        OwnedRawHandle { raw: self }
    }
}

impl OwnedRawHandle {
    /// The handle held.
    pub fn as_raw(&self) -> (h: RawHandle)
        ensures
            h == self.raw,
    {
        self.raw
    }

    /// A view of the handle that does not own it.
    pub fn borrow(&self) -> (b: BorrowedRawHandle)
        ensures
            b.raw == self.raw,
    {
        BorrowedRawHandle { raw: self.raw }
    }

    /// What the handle refers to.
    pub fn kind(&self) -> (k: RawHandleKind)
        ensures
            k is File <==> self.raw is File,
    {
        self.raw.kind()
    }

    /// The descriptor.
    pub fn as_fd(&self) -> (fd: i32)
        ensures
            fd == self.raw.fd_spec(),
    {
        self.raw.as_fd()
    }

    /// Takes ownership of `raw`.
    pub fn from_raw_owned(raw: RawHandle) -> (o: Self)
        ensures
            o.raw == raw,
    {
        OwnedRawHandle { raw }
    }

    /// Gives the ownership up.
    pub fn into_raw(self) -> (h: RawHandle)
        ensures
            h == self.raw,
    {
        self.raw
    }

    /// The descriptor to close when the owner goes away: none for a negative
    /// number, which never came from the kernel.
    pub fn fd_to_close(&self) -> (fd: Option<i32>)
        ensures
            self.raw.fd_spec() >= 0 ==> fd == Some(self.raw.fd_spec()),
            self.raw.fd_spec() < 0 ==> fd is None,
    {
        let fd: i32 = self.raw.as_fd();
        if fd >= 0 {
            Some(fd)
        } else {
            None
        }
    }
}

impl BorrowedRawHandle {
    /// The handle viewed.
    pub fn as_raw(self) -> (h: RawHandle)
        ensures
            h == self.raw,
    {
        self.raw
    }

    /// The descriptor.
    pub fn as_fd(self) -> (fd: i32)
        ensures
            fd == self.raw.fd_spec(),
    {
        self.raw.as_fd()
    }

    /// What the handle refers to.
    pub fn kind(self) -> (k: RawHandleKind)
        ensures
            k is File <==> self.raw is File,
    {
        self.raw.kind()
    }

    /// Whether this is a socket.
    pub fn is_socket(self) -> (b: bool)
        ensures
            b <==> self.raw is Socket,
    {
        self.raw.is_socket()
    }

    /// The generation of a socket; 0 for a file.
    pub fn generation(self) -> (g: u32)
        ensures
            g == (match self.raw {
                RawHandle::File { fd } => 0u32,
                RawHandle::Socket { fd, generation } => generation,
            }),
    {
        self.raw.generation()
    }
}

/// How strictly buffers must be registered before they are used.
#[derive(Debug, Clone, Copy, PartialEq, Eq, Structural)]
pub enum BufferRegistrationMode {
    Strict,
    Compatible,
}

impl Default for BufferRegistrationMode {
    fn default() -> (m: Self)
        ensures
            m is Strict,
    {
        BufferRegistrationMode::Strict
    }
}

impl BufferRegistrationMode {
    /// Whether the mode is strict.
    pub fn is_strict(self) -> (b: bool)
        ensures
            b <==> self is Strict,
    {
        matches!(self, BufferRegistrationMode::Strict)
    }
}

/// How completions are picked up.
#[derive(Debug, Clone, Copy, PartialEq, Eq)]
pub enum IoMode {
    /// The kernel signals them.
    Interrupt,
    /// A kernel thread polls the submission queue, and sleeps after that many
    /// idle milliseconds.
    Polling(NonZeroU32),
}

/// One of the optional `io_uring_setup` flags.
#[derive(Debug, Clone, Copy, PartialEq, Eq, Structural)]
pub enum SetupFlag {
    CoopTaskrun,
    SingleIssuer,
    DeferTaskrun,
}

/// Which setup flags the ring is created with. A flag that is on is required: the
/// kernel either accepts it or the driver does not start.
#[derive(Debug, Clone, Copy, PartialEq, Eq, Structural)]
pub struct SetupPolicy {
    pub coop_taskrun: bool,
    pub single_issuer: bool,
    pub defer_taskrun: bool,
}

impl Default for SetupPolicy {
    fn default() -> (p: Self)
        ensures
            forall|flag: SetupFlag| p.requires_flag(flag),
    {
        SetupPolicy { coop_taskrun: true, single_issuer: true, defer_taskrun: true }
    }
}

impl SetupPolicy {
    /// Whether the ring is created with `flag`.
    pub open spec fn requires_flag(self, flag: SetupFlag) -> bool {
        match flag {
            SetupFlag::CoopTaskrun => self.coop_taskrun,
            SetupFlag::SingleIssuer => self.single_issuer,
            SetupFlag::DeferTaskrun => self.defer_taskrun,
        }
    }

    /// The same policy with one flag switched off.
    pub fn with_disabled(self, flag: SetupFlag) -> (p: Self)
        ensures
            !p.requires_flag(flag),
            forall|other: SetupFlag|
                other != flag ==> p.requires_flag(other) == self.requires_flag(other),
    {
        let mut p = self;
        match flag {
            SetupFlag::CoopTaskrun => {
                p.coop_taskrun = false;
            },
            SetupFlag::SingleIssuer => {
                p.single_issuer = false;
            },
            SetupFlag::DeferTaskrun => {
                p.defer_taskrun = false;
            },
        }
        p
    }
}

/// Configuration of the driver.
#[derive(Debug, Clone, Copy)]
pub struct UringConfig {
    pub mode: IoMode,
    pub entries: NonZeroU32,
    pub registration_mode: BufferRegistrationMode,
    pub setup: SetupPolicy,
}

impl Default for UringConfig {
    fn default() -> (c: Self)
        ensures
            c.mode is Interrupt,
            c.entries.spec_get() == 1024,
            c.registration_mode is Strict,
            forall|flag: SetupFlag| c.setup.requires_flag(flag),
    {
        UringConfig {
            mode: IoMode::Interrupt,
            entries: NonZeroU32::default_entries(),
            registration_mode: BufferRegistrationMode::Strict,
            setup: SetupPolicy::default(),
        }
    }
}

impl UringConfig {
    /// The same configuration with another registration mode.
    pub fn registration_mode(self, mode: BufferRegistrationMode) -> (c: Self)
        ensures
            c == (UringConfig { registration_mode: mode, ..self }),
    {
        UringConfig { registration_mode: mode, ..self }
    }
}

/// The generations that a process takes are different, as long as the counter does not
/// start over.
pub proof fn generations_differ(i: nat, j: nat)
    requires
        i < j < u32::MAX,
    ensures
        ({
            let start = SocketGenerations { next: 1 };
            &&& start.after_generations(i).next_generation() == i + 1
            &&& start.after_generations(i).next_generation() != start.after_generations(
                j,
            ).next_generation()
        }),
{
    generations_count(i);
    generations_count(j);
}

proof fn generations_count(n: nat)
    requires
        n < u32::MAX,
    ensures
        (SocketGenerations { next: 1 }).after_generations(n).next == n + 1,
    decreases n,
{
    if n > 0 {
        generations_count((n - 1) as nat);
    }
}

} // verus!
