//! The table of registered handles.
use vstd::prelude::*;
use super::config::{CloseCall, IocpHandle, RegisteredHandle, SocketGenerations, ThreadTags};
use super::error::IocpError;
use super::op::{socket_key_spec, IoFd};

verus! {

/// `WSAENOTSOCK`.
pub const WSAENOTSOCK: i32 = 10038;

/// A handle to register. For one that is tagged as a file, `probe_error` is the error
/// of asking for its socket type, if that failed.
#[derive(Debug, Clone, Copy, PartialEq, Eq, Structural)]
pub struct RegisterFd {
    pub handle: IocpHandle,
    /// The driver closes it.
    pub owned: bool,
    pub probe_error: Option<i32>,
}

/// The registered handles and the free places among them.
#[derive(Debug)]
pub struct HandleTable {
    pub entries: Vec<Option<RegisteredHandle>>,
    /// Free places. The last one is used first.
    pub free: Vec<usize>,
}

/// What asking a handle for its socket type tells: it has one, or it is no socket.
pub fn detect_socket_from_file_handle(probe_error: Option<i32>) -> (r: Result<bool, IocpError>)
    ensures
        r == (match probe_error {
            None => Ok::<bool, IocpError>(true),
            Some(e) => if e == WSAENOTSOCK {
                Ok(false)
            } else {
                Err(IocpError::ResolveFd)
            },
        }),
{
    match probe_error {
        None => Ok(true),
        Some(e) => if e == WSAENOTSOCK {
            Ok(false)
        } else {
            Err(IocpError::ResolveFd)
        },
    }
}

impl RegisterFd {
    /// The handle turns out not to be what anybody can tell.
    pub open spec fn unclear(self) -> bool {
        self.handle is File && (self.probe_error matches Some(e) && e != WSAENOTSOCK)
    }

    /// The handle is tagged as a file but is a socket.
    pub open spec fn mistagged(self) -> bool {
        self.handle is File && self.probe_error is None
    }

    /// Whether it cannot be told what the handle is.
    pub fn is_unclear(&self) -> (b: bool)
        ensures
            b == self.unclear(),
    {
        match self.handle {
            IocpHandle::File { .. } => detect_socket_from_file_handle(self.probe_error).is_err(),
            IocpHandle::Socket { .. } => false,
        }
    }

    /// How to close the handle when it is not registered: only one that was handed over
    /// is closed.
    pub open spec fn dropping(self) -> CloseCall {
        if self.owned {
            self.handle.closing()
        } else {
            CloseCall::Nothing
        }
    }

    /// How to close the handle when it is not registered: only one that was handed over
    /// is closed.
    pub fn on_drop(&self) -> (c: CloseCall)
        ensures
            c == self.dropping(),
    {
        if self.owned {
            self.handle.close()
        } else {
            CloseCall::Nothing
        }
    }

    /// The handle under its right tag. A socket that was tagged as a file gets the next
    /// generation of the thread.
    pub open spec fn canonical(self, generations: SocketGenerations, tags: ThreadTags) -> IocpHandle {
        if self.mistagged() {
            IocpHandle::Socket {
                handle: self.handle.handle_spec(),
                generation: generations.next_generation(tags),
            }
        } else {
            self.handle
        }
    }

    /// The handle is kept as `e`: owned or not as asked for, and under its right tag.
    pub open spec fn kept_as(self, e: RegisteredHandle) -> bool {
        &&& e is Owned <==> self.owned
        &&& if self.mistagged() {
            e.raw_spec() is Socket && e.raw_spec().handle_spec() == self.handle.handle_spec()
        } else {
            e.raw_spec() == self.handle
        }
    }

    /// The entry under which the handle is kept.
    pub open spec fn entry_with(
        self,
        generations: SocketGenerations,
        tags: ThreadTags,
    ) -> RegisteredHandle {
        if self.owned {
            RegisteredHandle::Owned(self.canonical(generations, tags))
        } else {
            RegisteredHandle::Weak(self.canonical(generations, tags))
        }
    }

    /// The thread after the entry was made.
    pub open spec fn generations_after(
        self,
        generations: SocketGenerations,
        tags: ThreadTags,
    ) -> SocketGenerations {
        if self.mistagged() {
            generations.after_generation(tags)
        } else {
            generations
        }
    }

    /// The thread tags after the entry was made.
    pub open spec fn tags_after(
        self,
        generations: SocketGenerations,
        tags: ThreadTags,
    ) -> ThreadTags {
        if self.mistagged() {
            generations.tags_left(tags)
        } else {
            tags
        }
    }

    /// The entry under which the handle is kept.
    pub fn into_entry(self, generations: &mut SocketGenerations, tags: &mut ThreadTags) -> (r: Result<
        RegisteredHandle,
        IocpError,
    >)
        ensures
            r == (if self.unclear() {
                Err::<RegisteredHandle, IocpError>(IocpError::InvalidInput)
            } else {
                Ok(self.entry_with(*old(generations), *old(tags)))
            }),
            *final(generations) == self.generations_after(*old(generations), *old(tags)),
            *final(tags) == self.tags_after(*old(generations), *old(tags)),
    {
        let handle = match self.handle {
            IocpHandle::Socket { .. } => self.handle,
            IocpHandle::File { handle } => match detect_socket_from_file_handle(self.probe_error) {
                Ok(true) => IocpHandle::for_socket(handle, generations, tags),
                Ok(false) => self.handle,
                Err(_) => {
                    return Err(IocpError::InvalidInput);
                },
            },
        };
        if self.owned {
            Ok(RegisteredHandle::Owned(handle))
        } else {
            Ok(RegisteredHandle::Weak(handle))
        }
    }
}

/// `n` is the place in the list of the first handle of which it cannot be told what it
/// is; the length of the list, if there is none.
pub open spec fn first_unclear(files: Seq<RegisterFd>, n: int) -> bool {
    &&& 0 <= n <= files.len()
    &&& forall|j: int| 0 <= j < n ==> !(#[trigger] files[j]).unclear()
    &&& n < files.len() ==> files[n].unclear()
}

/// How to close the handles in a list that stay behind when a registration stops at the
/// first handle of which it cannot be told what it is: those after it, as far as they
/// were handed over.
pub fn close_rest(files: &Vec<RegisterFd>) -> (closes: Vec<CloseCall>)
    ensures
        exists|n: int| #[trigger]
            first_unclear(files@, n) && closes@ == (if n < files@.len() {
                files@.skip(n + 1).map_values(|f: RegisterFd| f.dropping())
            } else {
                Seq::empty()
            }),
{
    let mut closes: Vec<CloseCall> = Vec::new();
    let mut n: usize = 0;
    while n < files.len() && !files[n].is_unclear()
        invariant
            n <= files@.len(),
            forall|j: int| 0 <= j < n ==> !(#[trigger] files@[j]).unclear(),
        decreases files@.len() - n,
    {
        n = n + 1;
    }
    assert(first_unclear(files@, n as int));
    if n == files.len() {
        return closes;
    }
    let mut i: usize = n + 1;
    let ghost rest = files@.skip(n + 1).map_values(|f: RegisterFd| f.dropping());
    assert(rest.take(0) =~= closes@);
    while i < files.len()
        invariant
            n < i <= files@.len(),
            rest == files@.skip(n + 1).map_values(|f: RegisterFd| f.dropping()),
            closes@ == rest.take(i - n - 1),
        decreases files@.len() - i,
    {
        closes.push(files[i].on_drop());
        assert(rest.take(i - n) =~= rest.take(i - n - 1).push(rest[i - n - 1]));
        i = i + 1;
    }
    assert(rest.take(i - n - 1) =~= rest);
    closes
}

/// The place that the next handle gets: the last free one, or else one at the end.
pub open spec fn next_place(entries: Seq<Option<RegisteredHandle>>, free: Seq<usize>) -> int {
    if free.len() > 0 {
        free.last() as int
    } else {
        entries.len() as int
    }
}

/// The registered handles.
#[verifier::ext_equal]
pub struct HandlesModel {
    pub entries: Seq<Option<RegisteredHandle>>,
    /// Free places. The last one is used first.
    pub free: Seq<usize>,
}

/// The registered handles, the generations of the thread that registers more, and the
/// thread tags.
#[verifier::ext_equal]
pub struct RegistrarModel {
    pub handles: HandlesModel,
    pub generations: SocketGenerations,
    pub tags: ThreadTags,
}

impl HandlesModel {
    /// The place that the next handle gets.
    pub open spec fn next_place(self) -> int {
        next_place(self.entries, self.free)
    }

    /// `entry` is at the next place.
    pub open spec fn with_entry(self, entry: RegisteredHandle) -> HandlesModel {
        HandlesModel {
            entries: if self.free.len() > 0 {
                self.entries.update(self.next_place(), Some(entry))
            } else {
                self.entries.push(Some(entry))
            },
            free: if self.free.len() > 0 {
                self.free.drop_last()
            } else {
                self.free
            },
        }
    }

    /// The place `fd` is emptied, if there is a handle at it.
    pub open spec fn without_handle(self, fd: IoFd) -> HandlesModel {
        match fd {
            IoFd::Fixed { index } => if index < self.entries.len() && self.entries[index as int]
                is Some {
                HandlesModel {
                    entries: self.entries.update(index as int, None),
                    free: self.free.push(index as usize),
                    ..self
                }
            } else {
                self
            },
            IoFd::Raw { .. } => self,
        }
    }

    /// The places `fds` are emptied, in order.
    pub open spec fn without_handles(self, fds: Seq<IoFd>) -> HandlesModel
        decreases fds.len(),
    {
        if fds.len() == 0 {
            self
        } else {
            self.without_handles(fds.drop_last()).without_handle(fds.last())
        }
    }
}

impl RegistrarModel {
    /// The entry under which `file` is kept.
    pub open spec fn entry_of(self, file: RegisterFd) -> RegisteredHandle {
        file.entry_with(self.generations, self.tags)
    }

    /// `file` is registered.
    pub open spec fn with_handle(self, file: RegisterFd) -> RegistrarModel {
        RegistrarModel {
            handles: self.handles.with_entry(self.entry_of(file)),
            generations: file.generations_after(self.generations, self.tags),
            tags: file.tags_after(self.generations, self.tags),
        }
    }

    /// `files` are registered, in order.
    pub open spec fn with_handles(self, files: Seq<RegisterFd>) -> RegistrarModel
        decreases files.len(),
    {
        if files.len() == 0 {
            self
        } else {
            self.with_handles(files.drop_last()).with_handle(files.last())
        }
    }

    /// The entry under which file number `j` of `files` is kept, when they are
    /// registered in order.
    pub open spec fn entry_in(self, files: Seq<RegisterFd>, j: int) -> RegisteredHandle {
        self.with_handles(files.take(j)).entry_of(files[j])
    }

    /// Some of the first `n` files is the socket `key`.
    pub open spec fn makes_socket(
        self,
        files: Seq<RegisterFd>,
        n: int,
        key: (usize, usize, u64),
    ) -> bool {
        exists|j: int|
            0 <= j < n && (#[trigger] self.entry_in(files, j)).raw_spec() is Socket
                && socket_key_spec(self.entry_in(files, j).raw_spec()) == key
    }
}

/// The socket at the place `fd`, if there is one.
pub open spec fn sockets_at(entries: Seq<Option<RegisteredHandle>>, fd: IoFd) -> Seq<
    (usize, usize, u64),
> {
    match fd {
        IoFd::Fixed { index } => if index < entries.len() && entries[index as int] is Some
            && entries[index as int]->Some_0.raw_spec() is Socket {
            seq![socket_key_spec(entries[index as int]->Some_0.raw_spec())]
        } else {
            Seq::empty()
        },
        IoFd::Raw { .. } => Seq::empty(),
    }
}

/// The sockets at the places `fds`, when these are emptied in order.
pub open spec fn sockets_of(entries: Seq<Option<RegisteredHandle>>, fds: Seq<IoFd>) -> Seq<
    (usize, usize, u64),
>
    decreases fds.len(),
{
    if fds.len() == 0 {
        Seq::empty()
    } else {
        let front = sockets_of(entries, fds.drop_last());
        if fds.drop_last().contains(fds.last()) {
            front
        } else {
            front + sockets_at(entries, fds.last())
        }
    }
}

impl HandleTable {
    /// The free places are exactly the empty ones, each listed once.
    pub open spec fn wf(&self) -> bool {
        &&& self.free@.no_duplicates()
        &&& forall|k: int|
            0 <= k < self.free@.len() ==> (#[trigger] self.free@[k]) < self.entries@.len()
                && self.entries@[self.free@[k] as int] is None
        &&& forall|i: int|
            0 <= i < self.entries@.len() && (#[trigger] self.entries@[i]) is None
                ==> self.free@.contains(i as usize)
        &&& self.entries@.len() <= u32::MAX
    }

    /// The handle at place `i`, if there is one.
    pub open spec fn at(&self, i: int) -> Option<IocpHandle> {
        if 0 <= i < self.entries@.len() {
            match self.entries@[i] {
                Some(e) => Some(e.raw_spec()),
                None => None,
            }
        } else {
            None
        }
    }

    /// The place `fd` holds the socket `key`.
    pub open spec fn holds(&self, fd: IoFd, key: (usize, usize, u64)) -> bool {
        fd matches IoFd::Fixed { index } && (self.at(index as int) matches Some(raw) && raw is Socket
            && socket_key_spec(raw) == key)
    }

    /// What a descriptor refers to.
    pub open spec fn resolved(&self, fd: IoFd) -> Option<IocpHandle> {
        match fd {
            IoFd::Raw { handle } => Some(handle),
            IoFd::Fixed { index } => self.at(index as int),
        }
    }

    /// No handles.
    pub fn new() -> (t: Self)
        ensures
            t.wf(),
            t.entries@.len() == 0,
            t.free@.len() == 0,
    {
        HandleTable { entries: Vec::new(), free: Vec::new() }
    }

    /// Looks a descriptor up.
    pub fn resolve_fd(&self, fd: IoFd) -> (r: Result<IocpHandle, IocpError>)
        ensures
            match self.resolved(fd) {
                Some(h) => r == Ok::<IocpHandle, IocpError>(h),
                None => r == Err::<IocpHandle, IocpError>(IocpError::ResolveFd),
            },
    {
        match fd {
            IoFd::Raw { handle } => Ok(handle),
            IoFd::Fixed { index } => if (index as usize) < self.entries.len() {
                match &self.entries[index as usize] {
                    Some(e) => Ok(e.as_raw()),
                    None => Err(IocpError::ResolveFd),
                }
            } else {
                Err(IocpError::ResolveFd)
            },
        }
    }

    /// There is room for another handle.
    pub open spec fn has_room(&self) -> bool {
        self.free@.len() > 0 || self.entries@.len() < u32::MAX
    }

    /// Keeps a handle, at a free place or at the end, and gives its place.
    pub fn insert(&mut self, e: RegisteredHandle) -> (index: u32)
        requires
            old(self).wf(),
            old(self).has_room(),
        ensures
            final(self).wf(),
            old(self).at(index as int) is None,
            index == next_place(old(self).entries@, old(self).free@),
            old(self).free@.len() > 0 ==> {
                &&& final(self).entries@ == old(self).entries@.update(index as int, Some(e))
                &&& final(self).free@ == old(self).free@.drop_last()
            },
            old(self).free@.len() == 0 ==> {
                &&& final(self).entries@ == old(self).entries@.push(Some(e))
                &&& final(self).free@ == old(self).free@
            },
    {
        match self.free.pop() {
            Some(idx) => {
                assert(old(self).free@.last() == idx);
                self.entries.set(idx, Some(e));
                proof {
                    assert forall|i: int|
                        0 <= i < self.entries@.len() && (
                        #[trigger] self.entries@[i]) is None implies self.free@.contains(
                        i as usize,
                    ) by {
                        assert(old(self).entries@[i] is None);
                        let k = old(self).free@.index_of(i as usize);
                        assert(old(self).free@[k] == i as usize);
                        assert(self.free@[k] == i as usize);
                    }
                }
                idx as u32
            },
            None => {
                self.entries.push(Some(e));
                proof {
                    assert forall|i: int|
                        0 <= i < self.entries@.len() && (
                        #[trigger] self.entries@[i]) is None implies self.free@.contains(
                        i as usize,
                    ) by {
                        assert(old(self).entries@[i] is None);
                        assert(old(self).free@.contains(i as usize));
                    }
                }
                (self.entries.len() - 1) as u32
            },
        }
    }

    /// Takes a handle out, if there is one at that place.
    pub fn take(&mut self, index: u32) -> (r: Option<RegisteredHandle>)
        requires
            old(self).wf(),
        ensures
            final(self).wf(),
            old(self).at(index as int) is None ==> r is None && *final(self) == *old(self),
            old(self).at(index as int) is Some ==> {
                &&& r == old(self).entries@[index as int]
                &&& final(self).entries@ == old(self).entries@.update(index as int, None)
                &&& final(self).free@ == old(self).free@.push(index as usize)
            },
    {
        let idx: usize = index as usize;
        if idx >= self.entries.len() {
            return None;
        }
        if self.entries[idx].is_none() {
            return None;
        }
        let r = self.entries[idx].take();
        assert(self.entries@ =~= old(self).entries@.update(idx as int, None));
        self.free.push(idx);
        proof {
            assert(!old(self).free@.contains(idx)) by {
                if old(self).free@.contains(idx) {
                    let k = old(self).free@.index_of(idx);
                    assert(old(self).entries@[old(self).free@[k] as int] is None);
                }
            }
            assert forall|i: int|
                0 <= i < self.entries@.len() && (
                #[trigger] self.entries@[i]) is None implies self.free@.contains(i as usize) by {
                if i == idx {
                    assert(self.free@[self.free@.len() - 1] == idx);
                } else {
                    assert(old(self).entries@[i] is None);
                    let k = old(self).free@.index_of(i as usize);
                    assert(self.free@[k] == i as usize);
                }
            }
        }
        r
    }
}

} // verus!
