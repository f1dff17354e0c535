//! Handles, buffer registration modes and driver configuration.
use vstd::prelude::*;
use crate::nonzero::NonZeroU32;
use crate::uring::config::RawHandleKind;

verus! {

/// How strictly buffers must be registered before they are used.
#[derive(Debug, Clone, Copy, PartialEq, Eq, Structural)]
pub enum BufferRegistrationMode {
    /// Strict registration with validation.
    Strict,
    /// Compatible registration for fallback.
    Compatible,
}

impl Default for BufferRegistrationMode {
    fn default() -> (m: Self)
        ensures
            m is Strict,
    {
        BufferRegistrationMode::Strict
    }
}

impl BufferRegistrationMode {
    /// Whether the mode is strict.
    pub fn is_strict(self) -> (b: bool)
        ensures
            b <==> self is Strict,
    {
        matches!(self, BufferRegistrationMode::Strict)
    }
}

/// Configuration of the driver.
#[derive(Debug, Clone, Copy)]
pub struct IocpConfig {
    /// Number of entries in the completion port.
    pub entries: NonZeroU32,
    /// How buffers are registered.
    pub registration_mode: BufferRegistrationMode,
}

impl Default for IocpConfig {
    fn default() -> (c: Self)
        ensures
            c.entries.spec_get() == 1024,
            c.registration_mode is Strict,
    {
        IocpConfig {
            entries: NonZeroU32::default_entries(),
            registration_mode: BufferRegistrationMode::Strict,
        }
    }
}

impl IocpConfig {
    /// The same configuration with another registration mode.
    pub fn registration_mode(self, mode: BufferRegistrationMode) -> (c: Self)
        ensures
            c == (IocpConfig { registration_mode: mode, ..self }),
    {
        IocpConfig { registration_mode: mode, ..self }
    }
}

/// `INVALID_HANDLE_VALUE`, and `INVALID_SOCKET` too: every bit is set.
pub const INVALID_HANDLE_VALUE: usize = usize::MAX;

/// A system handle together with what it refers to. Sockets carry a generation, so
/// that a handle that the system hands out again is told apart.
#[derive(Debug, Clone, Copy, PartialEq, Eq, Structural)]
pub enum IocpHandle {
    File { handle: usize },
    Socket { handle: usize, generation: u64 },
}

/// How to close a handle.
#[derive(Debug, Clone, Copy, PartialEq, Eq, Structural)]
pub enum CloseCall {
    /// Not at all: the handle is none.
    Nothing,
    /// With `CloseHandle`.
    Handle(usize),
    /// With `closesocket`.
    Socket(usize),
}

/// The source of thread tags. It counts up from 1 and never gives out 0.
#[derive(Debug, Clone, Copy, PartialEq, Eq, Structural)]
pub struct ThreadTags {
    pub next: u32,
}

impl ThreadTags {
    /// The counter of a fresh process.
    pub fn new() -> (t: Self)
        ensures
            t.next == 1,
    {
        ThreadTags { next: 1 }
    }

    /// The tag that comes next.
    pub open spec fn next_tag(self) -> u32 {
        if self.next == 0 {
            1
        } else {
            self.next
        }
    }

    /// The counter after the next tag was taken.
    pub open spec fn after_tag(self) -> ThreadTags {
        ThreadTags {
            next: if self.next == u32::MAX {
                0
            } else {
                (self.next + 1) as u32
            },
        }
    }

    /// Takes the next tag.
    pub fn alloc_thread_tag(&mut self) -> (tag: u32)
        ensures
            tag == old(self).next_tag(),
            tag != 0,
            *final(self) == old(self).after_tag(),
    {
        let tag: u32 = self.next;
        self.next = tag.wrapping_add(1);
        if tag == 0 {
            1
        } else {
            tag
        }
    }
}

/// The socket generations of one thread: its tag, once it has one, and a counter
/// that skips 0.
#[derive(Debug, Clone, Copy, PartialEq, Eq, Structural)]
pub struct SocketGenerations {
    /// 0 until the thread gets its tag.
    pub tag: u32,
    pub counter: u32,
}

/// The generation made of a thread tag and a counter.
pub open spec fn generation_of(tag: u32, counter: u32) -> int {
    tag * 0x1_0000_0000 + counter
}

impl SocketGenerations {
    /// A thread that has not made a socket, in specifications.
    pub open spec fn fresh() -> SocketGenerations {
        SocketGenerations { tag: 0, counter: 1 }
    }

    /// The tag of the thread: its own, or else the next one.
    pub open spec fn tag_with(self, tags: ThreadTags) -> u32 {
        if self.tag != 0 {
            self.tag
        } else {
            tags.next_tag()
        }
    }

    /// The tags that are left when the thread has got its own.
    pub open spec fn tags_left(self, tags: ThreadTags) -> ThreadTags {
        if self.tag != 0 {
            tags
        } else {
            tags.after_tag()
        }
    }

    /// The generation that the thread takes next.
    pub open spec fn next_generation(self, tags: ThreadTags) -> u64 {
        generation_of(self.tag_with(tags), self.counter) as u64
    }

    /// The thread after it has taken a generation.
    pub open spec fn after_generation(self, tags: ThreadTags) -> SocketGenerations {
        SocketGenerations {
            tag: self.tag_with(tags),
            counter: if self.counter == u32::MAX {
                1
            } else {
                (self.counter + 1) as u32
            },
        }
    }

    /// A thread that has not made a socket.
    pub fn new() -> (g: Self)
        ensures
            g == SocketGenerations::fresh(),
    {
        SocketGenerations { tag: 0, counter: 1 }
    }

    /// The tag of this thread. The first call gets one; later calls keep it.
    pub fn current_thread_tag(&mut self, tags: &mut ThreadTags) -> (tag: u32)
        ensures
            tag != 0,
            tag == old(self).tag_with(*old(tags)),
            *final(self) == (SocketGenerations { tag, ..*old(self) }),
            *final(tags) == old(self).tags_left(*old(tags)),
    {
        if self.tag != 0 {
            return self.tag;
        }
        let allocated: u32 = tags.alloc_thread_tag();
        self.tag = allocated;
        allocated
    }

    /// Takes the next generation of this thread.
    pub fn alloc_socket_generation(&mut self, tags: &mut ThreadTags) -> (generation: u64)
        ensures
            generation == old(self).next_generation(*old(tags)),
            generation == generation_of(final(self).tag, old(self).counter),
            *final(self) == old(self).after_generation(*old(tags)),
            *final(tags) == old(self).tags_left(*old(tags)),
    {
        let thread_tag: u32 = self.current_thread_tag(tags);
        let local_counter: u32 = self.counter;
        let next: u32 = local_counter.wrapping_add(1);
        self.counter = if next == 0 {
            1
        } else {
            next
        };
        assert(((thread_tag as u64) << 32) | local_counter as u64 == thread_tag * 0x1_0000_0000
            + local_counter) by (bit_vector);
        ((thread_tag as u64) << 32) | local_counter as u64
    }
}

/// Generations of different threads, or with different counters, are different.
pub proof fn generations_are_distinct(tag1: u32, counter1: u32, tag2: u32, counter2: u32)
    requires
        tag1 != tag2 || counter1 != counter2,
    ensures
        generation_of(tag1, counter1) != generation_of(tag2, counter2),
{
}

impl IocpHandle {
    /// A handle to a file.
    pub fn for_file(handle: usize) -> (h: Self)
        ensures
            h == (IocpHandle::File { handle }),
    {
        IocpHandle::File { handle }
    }

    /// A handle to a socket, under a fresh generation of this thread.
    pub fn for_socket(handle: usize, generations: &mut SocketGenerations, tags: &mut ThreadTags) -> (h:
        Self)
        ensures
            h == (IocpHandle::Socket {
                handle,
                generation: old(generations).next_generation(*old(tags)),
            }),
            *final(generations) == old(generations).after_generation(*old(tags)),
            *final(tags) == old(generations).tags_left(*old(tags)),
    {
        IocpHandle::Socket { handle, generation: generations.alloc_socket_generation(tags) }
    }

    /// The system handle, in specifications.
    pub open spec fn handle_spec(self) -> usize {
        match self {
            IocpHandle::File { handle } => handle,
            IocpHandle::Socket { handle, generation } => handle,
        }
    }

    /// The system handle.
    pub fn as_handle(self) -> (h: usize)
        ensures
            h == self.handle_spec(),
    {
        match self {
            IocpHandle::File { handle } => handle,
            IocpHandle::Socket { handle, generation: _ } => handle,
        }
    }

    /// The handle as a socket number.
    pub fn as_socket(self) -> (s: usize)
        ensures
            s == self.handle_spec(),
    {
        self.as_handle()
    }

    /// What the handle refers to.
    pub fn kind(self) -> (k: RawHandleKind)
        ensures
            k is Socket <==> self is Socket,
    {
        match self {
            IocpHandle::File { .. } => RawHandleKind::File,
            IocpHandle::Socket { .. } => RawHandleKind::Socket,
        }
    }

    /// Whether this is a socket.
    pub fn is_socket(self) -> (b: bool)
        ensures
            b <==> self is Socket,
    {
        matches!(self, IocpHandle::Socket { .. })
    }

    /// Whether this is a file.
    pub fn is_file(self) -> (b: bool)
        ensures
            b <==> self is File,
    {
        matches!(self, IocpHandle::File { .. })
    }

    /// How to close the handle: one that is none is not closed.
    pub open spec fn closing(self) -> CloseCall {
        match self {
            IocpHandle::File { handle } => if handle == 0 || handle == INVALID_HANDLE_VALUE {
                CloseCall::Nothing
            } else {
                CloseCall::Handle(handle)
            },
            IocpHandle::Socket { handle, .. } => if handle == INVALID_HANDLE_VALUE {
                CloseCall::Nothing
            } else {
                CloseCall::Socket(handle)
            },
        }
    }

    /// How to close the handle: a null or invalid file handle and an invalid socket
    /// are none.
    pub fn close(self) -> (c: CloseCall)
        ensures
            c == self.closing(),
    {
        match self {
            IocpHandle::File { handle } => if handle == 0 || handle == INVALID_HANDLE_VALUE {
                CloseCall::Nothing
            } else {
                CloseCall::Handle(handle)
            },
            IocpHandle::Socket { handle, generation: _ } => if handle == INVALID_HANDLE_VALUE {
                CloseCall::Nothing
            } else {
                CloseCall::Socket(handle)
            },
        }
    }
}

/// A handle in the table of registered files.
#[derive(Debug, Clone, Copy, PartialEq, Eq, Structural)]
pub enum RegisteredHandle {
    /// The driver closes it.
    Owned(IocpHandle),
    /// Somebody else closes it.
    Weak(IocpHandle),
}

impl RegisteredHandle {
    /// The handle, in specifications.
    pub open spec fn raw_spec(self) -> IocpHandle {
        match self {
            RegisteredHandle::Owned(h) => h,
            RegisteredHandle::Weak(h) => h,
        }
    }

    /// The handle.
    pub fn as_raw(&self) -> (h: IocpHandle)
        ensures
            h == self.raw_spec(),
    {
        match self {
            RegisteredHandle::Owned(h) => *h,
            RegisteredHandle::Weak(h) => *h,
        }
    }

    /// How to close the handle when its entry goes away: only an owned one is closed.
    pub open spec fn dropping(self) -> CloseCall {
        match self {
            RegisteredHandle::Owned(h) => h.closing(),
            RegisteredHandle::Weak(_) => CloseCall::Nothing,
        }
    }

    /// How to close the handle when its entry goes away: only an owned one is closed.
    pub fn on_drop(&self) -> (c: CloseCall)
        ensures
            c == self.dropping(),
    {
        match self {
            RegisteredHandle::Owned(h) => h.close(),
            RegisteredHandle::Weak(_) => CloseCall::Nothing,
        }
    }
}

} // verus!
