//! The table of registered files.
use std::collections::VecDeque;
use vstd::prelude::*;
use super::config::{BorrowedRawHandle, OwnedRawHandle, RawHandle};
use super::error::UringError;
use super::op::IoFd;

verus! {

/// The table has at least this many places.
pub const MIN_FILE_TABLE_CAPACITY: usize = 1;

/// A file to register: lent for the time being, or handed over.
#[derive(Debug)]
pub enum RegisterFd {
    Borrowed(BorrowedRawHandle),
    Owned(OwnedRawHandle),
}

/// A registered file. An owned one is closed when its entry goes away.
#[derive(Debug)]
pub enum RegisteredFileEntry {
    BorrowedFd(i32),
    OwnedHandle(OwnedRawHandle),
}

impl RegisterFd {
    /// The entry under which the file is kept.
    pub open spec fn entry_spec(self) -> RegisteredFileEntry {
        match self {
            RegisterFd::Borrowed(b) => RegisteredFileEntry::BorrowedFd(b.raw.fd_spec()),
            RegisterFd::Owned(o) => RegisteredFileEntry::OwnedHandle(o),
        }
    }

    /// The entry under which the file is kept.
    pub fn into_entry(self) -> (e: RegisteredFileEntry)
        ensures
            e == self.entry_spec(),
    {
        match self {
            RegisterFd::Borrowed(b) => RegisteredFileEntry::BorrowedFd(b.as_fd()),
            RegisterFd::Owned(o) => RegisteredFileEntry::OwnedHandle(o),
        }
    }
}

impl RegisteredFileEntry {
    /// The descriptor of the file, in specifications.
    pub open spec fn fd_spec(self) -> i32 {
        match self {
            RegisteredFileEntry::BorrowedFd(fd) => fd,
            RegisteredFileEntry::OwnedHandle(o) => o.raw.fd_spec(),
        }
    }

    /// The descriptor of the file.
    pub fn fd(&self) -> (fd: i32)
        ensures
            fd == self.fd_spec(),
    {
        match self {
            RegisteredFileEntry::BorrowedFd(fd) => *fd,
            RegisteredFileEntry::OwnedHandle(o) => o.as_fd(),
        }
    }

    /// The descriptor to close when the entry goes away: only an owned one is closed.
    pub open spec fn closing(self) -> Option<i32> {
        match self {
            RegisteredFileEntry::BorrowedFd(_) => None,
            RegisteredFileEntry::OwnedHandle(o) => if o.raw.fd_spec() >= 0 {
                Some(o.raw.fd_spec())
            } else {
                None
            },
        }
    }

    /// The descriptor to close when the entry goes away: only an owned one is closed.
    pub fn fd_to_close(&self) -> (fd: Option<i32>)
        ensures
            fd == self.closing(),
    {
        match self {
            RegisteredFileEntry::BorrowedFd(_) => None,
            RegisteredFileEntry::OwnedHandle(o) => o.fd_to_close(),
        }
    }
}

/// `list` with the descriptor to close when `entry` goes away.
pub open spec fn with_closing(list: Seq<i32>, entry: RegisteredFileEntry) -> Seq<i32> {
    match entry.closing() {
        Some(fd) => list.push(fd),
        None => list,
    }
}

/// `list` with the descriptors to close when `files` are not registered, in order.
pub open spec fn with_closings(list: Seq<i32>, files: Seq<RegisterFd>) -> Seq<i32>
    decreases files.len(),
{
    if files.len() == 0 {
        list
    } else {
        with_closing(with_closings(list, files.drop_last()), files.last().entry_spec())
    }
}

/// The registered files and the free places among them.
#[derive(Debug)]
pub struct FileTable {
    pub files: Vec<Option<RegisteredFileEntry>>,
    /// Free places. The last one is used first.
    pub free: Vec<u32>,
    /// Whether the kernel knows of the table.
    pub initialized: bool,
}

impl FileTable {
    /// Free places exist, are empty, and are listed once.
    pub open spec fn wf(&self) -> bool {
        &&& self.free@.no_duplicates()
        &&& forall|k: int|
            0 <= k < self.free@.len() ==> (#[trigger] self.free@[k]) < self.files@.len()
                && self.files@[self.free@[k] as int] is None
        &&& !self.initialized ==> self.files@.len() == 0
    }

    /// A table the kernel has not been told of.
    pub fn new() -> (t: Self)
        ensures
            t.wf(),
            !t.initialized,
            t.files@.len() == 0,
            t.free@.len() == 0,
    {
        FileTable { files: Vec::new(), free: Vec::new(), initialized: false }
    }

    /// How many places to register with the kernel before the table can be used;
    /// nothing once that is done.
    pub fn missing_capacity(&self, entries: usize) -> (r: Option<usize>)
        ensures
            self.initialized ==> r is None,
            !self.initialized ==> r == Some(
                if entries < MIN_FILE_TABLE_CAPACITY {
                    MIN_FILE_TABLE_CAPACITY
                } else {
                    entries
                },
            ),
    {
        if self.initialized {
            None
        } else if entries < MIN_FILE_TABLE_CAPACITY {
            Some(MIN_FILE_TABLE_CAPACITY)
        } else {
            Some(entries)
        }
    }

    /// Takes note of the kernel's answer to the registration of `capacity` empty
    /// places. From then on the places are used from 0 upwards.
    pub fn initialize(&mut self, capacity: u32, accepted: bool) -> (r: Result<(), UringError>)
        requires
            old(self).wf(),
            !old(self).initialized,
        ensures
            final(self).wf(),
            !accepted ==> r == Err::<(), UringError>(UringError::Registration) && *final(self)
                == *old(self),
            accepted ==> {
                &&& r is Ok
                &&& final(self).initialized
                &&& final(self).files@.len() == capacity
                &&& forall|i: int|
                    0 <= i < capacity ==> (#[trigger] final(self).files@[i]) is None
                &&& final(self).free@ == Seq::new(
                    capacity as nat,
                    |k: int| (capacity - 1 - k) as u32,
                )
            },
    {
        if !accepted {
            return Err(UringError::Registration);
        }
        let mut files: Vec<Option<RegisteredFileEntry>> = Vec::new();
        let mut free: Vec<u32> = Vec::new();
        let mut i: u32 = 0;
        while i < capacity
            invariant
                i <= capacity,
                files@.len() == i,
                free@.len() == i,
                forall|k: int| 0 <= k < i ==> (#[trigger] files@[k]) is None,
                forall|k: int| 0 <= k < i ==> (#[trigger] free@[k]) == capacity - 1 - k,
            decreases capacity - i,
        {
            files.push(None);
            free.push(capacity - 1 - i);
            i = i + 1;
        }
        self.files = files;
        self.free = free;
        self.initialized = true;
        assert(self.free@ =~= Seq::new(capacity as nat, |k: int| (capacity - 1 - k) as u32));
        Ok(())
    }

    /// Takes the file at `index` out of the table, if there is one. The kernel is then
    /// to be told that the place is empty.
    pub fn begin_unregister(&mut self, index: u32) -> (r: Option<RegisteredFileEntry>)
        requires
            old(self).wf(),
        ensures
            final(self).wf(),
            final(self).initialized == old(self).initialized,
            final(self).free@ == old(self).free@,
            if index < old(self).files@.len() {
                &&& r == old(self).files@[index as int]
                &&& final(self).files@ == old(self).files@.update(index as int, None)
            } else {
                &&& r is None
                &&& final(self).files@ == old(self).files@
            },
    {
        let place: usize = index as usize;
        if place >= self.files.len() {
            return None;
        }
        let r = self.files[place].take();
        assert(self.files@ =~= old(self).files@.update(place as int, None));
        r
    }

    /// Takes note of the kernel's answer to the clearing of place `index`, which
    /// can be used again if the kernel cleared it.
    pub fn finish_unregister(&mut self, index: u32, accepted: bool) -> (r: Result<(), UringError>)
        requires
            old(self).wf(),
            index < old(self).files@.len(),
            old(self).files@[index as int] is None,
            !old(self).free@.contains(index),
        ensures
            final(self).wf(),
            final(self).initialized == old(self).initialized,
            final(self).files@ == old(self).files@,
            accepted ==> r is Ok && final(self).free@ == old(self).free@.push(index),
            !accepted ==> r == Err::<(), UringError>(UringError::Registration) && final(
                self).free@ == old(self).free@,
    {
        if !accepted {
            return Err(UringError::Registration);
        }
        self.free.push(index);
        Ok(())
    }
}

/// A file that was registered is not among the free places, so it can be
/// unregistered as soon as it was taken out.
pub proof fn registered_places_are_not_free(table: FileTable, index: u32)
    requires
        table.wf(),
        index < table.files@.len(),
        table.files@[index as int] is Some,
    ensures
        !table.free@.contains(index),
{
}

/// What the caller has to do next to register a list of files.
#[derive(Debug)]
pub enum FileStep {
    /// Tell the kernel that `fd` is the file at `index`.
    Update { index: u32, fd: i32 },
    /// Every file is registered.
    Done,
    /// The list cannot be registered any further.
    Failed(UringError),
}

/// The registration of a list of files, in the making.
#[derive(Debug)]
pub struct FileRegistration {
    /// Files that have not been looked at.
    pub pending: VecDeque<RegisterFd>,
    /// The file the kernel has been told of, and its place.
    pub current: Option<(u32, RegisteredFileEntry)>,
    /// Where the files so far went.
    pub fixed: Vec<IoFd>,
    /// Descriptors of owned files that could not be registered; the caller closes them.
    pub to_close: Vec<i32>,
}

impl FileRegistration {
    /// The place of the current file is reserved for it.
    pub open spec fn wf(&self, table: &FileTable) -> bool {
        self.current matches Some(c) ==> {
            &&& c.0 < table.files@.len()
            &&& table.files@[c.0 as int] is None
            &&& !table.free@.contains(c.0)
        }
    }

    /// Starts to register `files`, in order.
    pub fn new(files: VecDeque<RegisterFd>) -> (r: Self)
        ensures
            r.pending@ == files@,
            r.current is None,
            r.fixed@.len() == 0,
            r.to_close@.len() == 0,
    {
        FileRegistration { pending: files, current: None, fixed: Vec::new(), to_close: Vec::new() }
    }

    /// Takes up the next file: it gets the free place at the end of the list. When
    /// no place is left, the registration has failed.
    pub fn next(&mut self, table: &mut FileTable) -> (step: FileStep)
        requires
            old(table).wf(),
            old(self).current is None,
        ensures
            final(table).wf(),
            final(self).wf(final(table)),
            final(table).files@ == old(table).files@,
            final(table).initialized == old(table).initialized,
            final(self).fixed@ == old(self).fixed@,
            match step {
                FileStep::Done => {
                    &&& old(self).pending@.len() == 0
                    &&& final(self).pending@ == old(self).pending@
                    &&& final(self).current is None
                    &&& final(self).to_close@ == old(self).to_close@
                    &&& final(table).free@ == old(table).free@
                },
                FileStep::Failed(e) => {
                    &&& e == UringError::InvalidState
                    &&& old(self).pending@.len() > 0
                    &&& old(table).free@.len() == 0
                    &&& final(self).pending@ == old(self).pending@.drop_first()
                    &&& final(self).current is None
                    &&& final(self).to_close@ == with_closing(
                        old(self).to_close@,
                        old(self).pending@[0].entry_spec(),
                    )
                    &&& final(table).free@ == old(table).free@
                },
                FileStep::Update { index, fd } => {
                    &&& old(self).pending@.len() > 0
                    &&& old(table).free@.len() > 0
                    &&& index == old(table).free@.last()
                    &&& fd == old(self).pending@[0].entry_spec().fd_spec()
                    &&& final(self).current == Some((index, old(self).pending@[0].entry_spec()))
                    &&& final(self).pending@ == old(self).pending@.drop_first()
                    &&& final(self).to_close@ == old(self).to_close@
                    &&& final(table).free@ == old(table).free@.drop_last()
                },
            },
    {
        match self.pending.pop_front() {
            None => FileStep::Done,
            Some(file) => {
                let entry = file.into_entry();
                let fd: i32 = entry.fd();
                assert(self.pending@ =~= old(self).pending@.drop_first());
                match table.free.pop() {
                    None => {
                        self.drop_entry(&entry);
                        FileStep::Failed(UringError::InvalidState)
                    },
                    Some(index) => {
                        assert(old(table).free@.last() == index);
                        self.current = Some((index, entry));
                        FileStep::Update { index, fd }
                    },
                }
            },
        }
    }

    /// Takes note of the kernel's answer to the last update. A file the kernel
    /// refused is dropped, and its place is not used again.
    pub fn reply(&mut self, table: &mut FileTable, accepted: bool) -> (r: Result<(), UringError>)
        requires
            old(table).wf(),
            old(self).wf(old(table)),
            old(self).current is Some,
        ensures
            final(table).wf(),
            final(table).free@ == old(table).free@,
            final(table).initialized == old(table).initialized,
            final(self).current is None,
            final(self).pending@ == old(self).pending@,
            accepted ==> {
                &&& r is Ok
                &&& final(table).files@ == old(table).files@.update(
                    old(self).current->Some_0.0 as int,
                    Some(old(self).current->Some_0.1),
                )
                &&& final(self).fixed@ == old(self).fixed@.push(
                    IoFd::Fixed { index: old(self).current->Some_0.0 },
                )
                &&& final(self).to_close@ == old(self).to_close@
            },
            !accepted ==> {
                &&& r == Err::<(), UringError>(UringError::Registration)
                &&& final(table).files@ == old(table).files@
                &&& final(self).fixed@ == old(self).fixed@
                &&& final(self).to_close@ == with_closing(
                    old(self).to_close@,
                    old(self).current->Some_0.1,
                )
            },
    {
        match self.current.take() {
            Some((index, entry)) => {
                if !accepted {
                    self.drop_entry(&entry);
                    return Err(UringError::Registration);
                }
                table.files.set(index as usize, Some(entry));
                self.fixed.push(IoFd::Fixed { index });
                Ok(())
            },
            None => Ok(()),
        }
    }

    /// Notes what has to be closed when the entry goes away.
    fn drop_entry(&mut self, entry: &RegisteredFileEntry)
        ensures
            final(self).pending == old(self).pending,
            final(self).current == old(self).current,
            final(self).fixed == old(self).fixed,
            final(self).to_close@ == with_closing(old(self).to_close@, *entry),
    {
        if let Some(fd) = entry.fd_to_close() {
            self.to_close.push(fd);
        }
    }

    /// Gives up the files that have not been looked at.
    pub fn abandon(&mut self)
        ensures
            final(self).pending@.len() == 0,
            final(self).current == old(self).current,
            final(self).fixed@ == old(self).fixed@,
            final(self).to_close@ == with_closings(old(self).to_close@, old(self).pending@),
    {
        let ghost files = self.pending@;
        let ghost mut n: int = 0;
        assert(files.skip(0) =~= files);
        assert(files.take(0) =~= Seq::<RegisterFd>::empty());
        loop
            invariant
                files == old(self).pending@,
                0 <= n <= files.len(),
                self.pending@ == files.skip(n),
                self.current == old(self).current,
                self.fixed@ == old(self).fixed@,
                self.to_close@ == with_closings(old(self).to_close@, files.take(n)),
            ensures
                n == files.len(),
                self.pending@.len() == 0,
            decreases files.len() - n,
        {
            let entry = match self.pending.pop_front() {
                Some(file) => file.into_entry(),
                None => break,
            };
            self.drop_entry(&entry);
            proof {
                assert(files.take(n + 1).drop_last() =~= files.take(n));
                assert(files.take(n + 1).last() == files[n]);
                assert(files.skip(n).drop_first() =~= files.skip(n + 1));
                n = n + 1;
            }
        }
        assert(files.take(n) =~= files);
    }
}

/// A file is registered under its own descriptor, whoever owns it, and only a file that was
/// handed over is ever closed: once it is not registered, or not any more.
pub proof fn files_keep_their_descriptor(file: RegisterFd, fd: i32, generation: u32)
    ensures
        file matches RegisterFd::Borrowed(b) ==> {
            &&& b.raw == (RawHandle::File { fd }) ==> file.entry_spec().fd_spec() == fd
            &&& b.raw == (RawHandle::Socket { fd, generation }) ==> file.entry_spec().fd_spec()
                == fd
            &&& file.entry_spec().closing() is None
        },
        file matches RegisterFd::Owned(o) ==> {
            &&& o.raw == (RawHandle::File { fd }) ==> file.entry_spec().fd_spec() == fd
            &&& o.raw == (RawHandle::Socket { fd, generation }) ==> file.entry_spec().fd_spec()
                == fd
            &&& file.entry_spec().closing() is Some <==> file.entry_spec().fd_spec() >= 0
            &&& file.entry_spec().closing() matches Some(c) ==> c == file.entry_spec().fd_spec()
        },
{
}

/// The owned descriptor of a file, if it has to be closed.
pub open spec fn owned_fd(file: RegisterFd) -> Option<i32> {
    match file {
        RegisterFd::Owned(o) => match o.raw {
            RawHandle::File { fd } => if fd < 0 {
                None
            } else {
                Some(fd)
            },
            RawHandle::Socket { fd, generation } => if fd < 0 {
                None
            } else {
                Some(fd)
            },
        },
        RegisterFd::Borrowed(_) => None,
    }
}

/// When files are given up, every one that was handed over is closed, none that was lent is,
/// and nothing that was to be closed before is forgotten.
pub proof fn given_up_files_are_closed_if_owned(list: Seq<i32>, files: Seq<RegisterFd>, i: int)
    ensures
        list.is_prefix_of(with_closings(list, files)),
        0 <= i < files.len() && owned_fd(files[i]) is Some ==> with_closings(list, files).skip(
            list.len() as int,
        ).contains(owned_fd(files[i])->Some_0),
        list.len() <= i < with_closings(list, files).len() ==> exists|k: int|
            0 <= k < files.len() && #[trigger] owned_fd(files[k]) == Some(
                with_closings(list, files)[i],
            ),
        with_closings(list, files).len() <= list.len() + files.len(),
    decreases files.len(),
{
    let all = with_closings(list, files);
    if files.len() > 0 {
        let front = files.drop_last();
        let before = with_closings(list, front);
        given_up_files_are_closed_if_owned(list, front, i);
        assert(list.is_prefix_of(all));
        if 0 <= i < files.len() && owned_fd(files[i]) is Some {
            if i < front.len() {
                let at = before.skip(list.len() as int).index_of(owned_fd(files[i])->Some_0);
                assert(all.skip(list.len() as int)[at] == before.skip(list.len() as int)[at]);
            } else {
                assert(all.skip(list.len() as int)[all.len() - list.len() - 1] == all.last());
            }
        }
        if list.len() <= i < all.len() {
            if i < before.len() {
                let k = choose|k: int|
                    0 <= k < front.len() && #[trigger] owned_fd(front[k]) == Some(before[i]);
                assert(owned_fd(files[k]) == Some(all[i]));
            } else {
                assert(owned_fd(files[files.len() - 1]) == Some(all[i]));
            }
        }
    }
}

} // verus!
