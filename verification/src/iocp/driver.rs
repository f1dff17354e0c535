//! The driver: operations, registered handles, and sockets that wait to be cleaned up.
use std::collections::VecDeque;
use vstd::prelude::*;
use crate::completion::CompletionEvent;
use crate::slots::OpSlot;
use crate::sockaddr::{is_native, native_order, ByteOrder};
use super::buffer::MemoryRange;
use super::config::{
    CloseCall, IocpConfig, IocpHandle, RegisteredHandle, SocketGenerations, ThreadTags,
};
use super::error::{DriverErrorKind, IocpError};
use super::files::{
    sockets_at, sockets_of, HandleTable, HandlesModel, RegisterFd, RegistrarModel,
};
use super::op::{actor_key, socket_key_spec, IoFd, IocpOpState};
use super::rio::kernel::{ExtensionAnswers, Extensions, RioBufferId, RioFunction};
use super::rio::sockets::{SocketKey, SocketRuntime};
use super::rio::state::RioState;
use super::table::{OpTable, TableModel};
use super::win32::{IoCompletionPort, SOCKET_ERROR};

verus! {

/// The completion key of wake-ups.
pub const WAKEUP_USER_DATA: usize = usize::MAX;

/// The completion key of registered I/O.
pub const RIO_EVENT_KEY: usize = usize::MAX - 1;

/// The completion key of commands to the driver.
pub const CONTROL_EVENT_KEY: usize = usize::MAX - 2;

/// A socket that is to be cleaned up, with its place among the registered handles.
#[derive(Debug, Clone, Copy)]
pub struct DeferredSocketCleanup {
    pub handle: SocketKey,
    pub registered_fd: Option<IoFd>,
}

/// A command to the driver, posted to its completion port.
#[derive(Debug, Clone, Copy)]
pub enum DriverControlCommand {
    SocketCleanup { handle: SocketKey, registered_fd: Option<IoFd> },
}

/// Posts commands about sockets from anywhere.
#[derive(Debug, Clone, Copy, PartialEq, Eq, Structural)]
pub struct SocketLifecycleHandle {
    /// The completion port of the driver.
    pub port: usize,
}

impl SocketLifecycleHandle {
    /// For the driver with the given completion port.
    pub fn new(port: usize) -> (h: Self)
        ensures
            h.port == port,
    {
        SocketLifecycleHandle { port }
    }

    /// The command to post, under `CONTROL_EVENT_KEY`, to have a socket cleaned up.
    pub fn schedule_socket_cleanup(&self, handle: IocpHandle, registered_fd: Option<IoFd>) -> (c:
        DriverControlCommand)
        ensures
            c == (DriverControlCommand::SocketCleanup {
                handle: socket_key_spec(handle),
                registered_fd,
            }),
    {
        DriverControlCommand::SocketCleanup { handle: actor_key(handle), registered_fd }
    }

    /// The answer to posting a command.
    pub fn cleanup_posted(posted: i32) -> (r: Result<(), DriverErrorKind>)
        ensures
            posted == 0 ==> r == Err::<(), DriverErrorKind>(DriverErrorKind::Submission),
            posted != 0 ==> r is Ok,
    {
        if posted == 0 {
            return Err(DriverErrorKind::Submission);
        }
        Ok(())
    }

    /// Whether handles can be registered with the driver.
    pub fn supports_registration(&self) -> (b: bool)
        ensures
            b,
    {
        true
    }
}

/// What is left to the caller after something was cleaned up.
#[derive(Debug)]
pub struct Cleanup {
    /// Deregister these buffers.
    pub released: Vec<RioBufferId>,
    /// Close these handles.
    pub closes: Vec<CloseCall>,
}

impl Cleanup {
    /// Nothing is left to do.
    pub fn empty() -> (c: Self)
        ensures
            c.released@.len() == 0,
            c.closes@.len() == 0,
    {
        Cleanup { released: Vec::new(), closes: Vec::new() }
    }
}

/// The driver.
pub struct IocpDriver<P> {
    pub port: IoCompletionPort,
    pub extensions: Extensions,
    pub table: OpTable<P>,
    pub rio: RioState,
    pub files: HandleTable,
    /// A wake-up is under way.
    pub is_notified: bool,
    pub shutting_down: bool,
    pub closed: bool,
    pub deferred_socket_cleanup: VecDeque<DeferredSocketCleanup>,
    /// The byte order of the machine.
    pub order: ByteOrder,
    /// The memory that the slots lie in.
    pub slot_memory: MemoryRange,
}

impl<P> IocpDriver<P> {
    pub open spec fn wf(&self) -> bool {
        &&& self.table.wf()
        &&& self.rio.wf()
        &&& self.files.wf()
    }

    /// Takes over a completion port and what the system has set up for it: `port` with
    /// `port_error` is the answer of `CreateIoCompletionPort`, `answers` says which
    /// socket extensions there are, `cq` and `notified` are the answers of
    /// `RIOCreateCompletionQueue` and `RIONotify`.
    pub fn new(
        config: IocpConfig,
        port: usize,
        port_error: i32,
        answers: ExtensionAnswers,
        cq: u64,
        notified: i32,
        slot_memory: MemoryRange,
    ) -> (r: Result<Self, IocpError>)
        ensures
            match r {
                Ok(d) => {
                    &&& port != 0
                    &&& answers.connect_ex && answers.accept_ex && answers.get_accept_ex_sockaddrs
                    &&& answers.rio_table matches Some(t) && forall|f: RioFunction| t.has(f)
                    &&& cq != 0 && notified != SOCKET_ERROR
                    &&& d.wf()
                    &&& d.port.handle.raw == port
                    &&& d.table.model() == TableModel::<P>::empty(config.entries.spec_get() as nat)
                    &&& d.rio.fresh(config.entries.spec_get(), cq, config.registration_mode)
                    &&& d.files.entries@.len() == 0
                    &&& is_native(d.order)
                    &&& Some(d.extensions.rio_table) == answers.rio_table
                    &&& !d.is_notified && !d.shutting_down && !d.closed
                    &&& d.deferred_socket_cleanup@.len() == 0
                    &&& d.slot_memory == slot_memory
                },
                Err(e) => {
                    ||| port == 0 && e is Win32
                    ||| port != 0 && !(answers.connect_ex && answers.accept_ex
                        && answers.get_accept_ex_sockaddrs && answers.rio_table is Some)
                        && e is DriverInit
                    ||| port != 0 && answers.connect_ex && answers.accept_ex
                        && answers.get_accept_ex_sockaddrs && answers.rio_table is Some
                        && e is Rio && (cq == 0 || notified == SOCKET_ERROR || (
                    answers.rio_table matches Some(t) && exists|f: RioFunction| !t.has(f)))
                },
            },
    {
        let port = match IoCompletionPort::new(port, port_error) {
            Ok(port) => port,
            Err(_) => {
                return Err(IocpError::Win32);
            },
        };
        let extensions = match Extensions::new(answers) {
            Ok(x) => x,
            Err(_) => {
                return Err(IocpError::DriverInit);
            },
        };
        let entries: u32 = config.entries.get();
        if RioState::plan(entries, &extensions).is_err() {
            proof {
                let f = choose|f: RioFunction| !extensions.rio_table.has(f);
                let t = answers.rio_table->Some_0;
                assert(!t.has(f));
            }
            return Err(IocpError::Rio);
        }
        let rio = match RioState::new(entries, cq, notified, config.registration_mode) {
            Ok(rio) => rio,
            Err(_) => {
                return Err(IocpError::Rio);
            },
        };
        Ok(
            IocpDriver {
                port,
                extensions,
                table: OpTable::new(entries as usize),
                rio,
                files: HandleTable::new(),
                is_notified: false,
                shutting_down: false,
                closed: false,
                deferred_socket_cleanup: VecDeque::new(),
                order: native_order(),
                slot_memory,
            },
        )
    }

    /// A handle through which sockets can be handed to the driver for cleaning up.
    pub fn socket_lifecycle_handle(&self) -> (h: SocketLifecycleHandle)
        ensures
            h.port == self.port.handle.raw,
    {
        SocketLifecycleHandle::new(self.port.handle.as_raw())
    }

    /// A number that tells drivers apart.
    pub fn driver_id(&self) -> (id: usize)
        ensures
            id == self.port.handle.raw,
    {
        self.port.handle.as_raw()
    }

    /// Allocates a slot and gives its number and generation.
    pub fn reserve_op(&mut self) -> (r: Result<(usize, u32), DriverErrorKind>)
        requires
            old(self).wf(),
        ensures
            final(self).wf(),
            final(self).same_but_table(old(self)),
            final(self).table.completions == old(self).table.completions,
            final(self).table.deliveries == old(self).table.deliveries,
            r is Err <==> (forall|i: int|
                0 <= i < old(self).table.ops.slots@.len() ==> old(self).table.ops.live(i)),
            r matches Err(e) ==> e is Registration && final(self).table.ops.slots@ == old(
                self,
            ).table.ops.slots@,
            r matches Ok((i, g)) ==> {
                &&& i < old(self).table.ops.slots@.len()
                &&& !old(self).table.ops.live(i as int)
                &&& g == old(self).table.ops.slots@[i as int].generation
                &&& final(self).table.ops.slots@ == old(self).table.ops.slots@.update(
                    i as int,
                    OpSlot::fresh(g, IocpOpState::fresh(0)),
                )
            },
    {
        match self.table.ops.insert(IocpOpState::new(0)) {
            Ok(r) => Ok(r),
            Err(()) => Err(DriverErrorKind::Registration),
        }
    }

    /// Nothing but operations and completions differs.
    pub open spec fn same_but_table(&self, before: &Self) -> bool {
        &&& self.same_but_table_and_rio(before)
        &&& self.rio == before.rio
    }

    /// Nothing but operations, completions and registered I/O differs.
    pub open spec fn same_but_table_and_rio(&self, before: &Self) -> bool {
        &&& self.port == before.port
        &&& self.extensions == before.extensions
        &&& self.files == before.files
        &&& self.is_notified == before.is_notified
        &&& self.shutting_down == before.shutting_down
        &&& self.closed == before.closed
        &&& self.deferred_socket_cleanup@ == before.deferred_socket_cleanup@
        &&& self.order == before.order
        &&& self.slot_memory == before.slot_memory
    }

    /// Attaches a payload to an operation. A slot that is not in use is left alone.
    pub fn slot_set_payload(&mut self, user_data: usize, payload: P)
        requires
            old(self).wf(),
        ensures
            final(self).wf(),
            final(self).same_but_table(old(self)),
            final(self).table.completions == old(self).table.completions,
            final(self).table.deliveries == old(self).table.deliveries,
            final(self).table.ops.slots@ == (if old(self).table.ops.live(user_data as int) {
                old(self).table.ops.slots@.update(
                    user_data as int,
                    OpSlot {
                        payload: Some(payload),
                        ..old(self).table.ops.slots@[user_data as int]
                    },
                )
            } else {
                old(self).table.ops.slots@
            }),
    {
        if self.table.ops.contains(user_data) {
            self.table.ops.set_payload(user_data, payload);
        }
    }

    /// Takes the payload of an operation back, and frees its slot.
    pub fn slot_take_payload(&mut self, user_data: usize) -> (payload: Option<P>)
        requires
            old(self).wf(),
        ensures
            final(self).wf(),
            final(self).same_but_table(old(self)),
            final(self).table.completions == old(self).table.completions,
            final(self).table.deliveries == old(self).table.deliveries,
            if old(self).table.ops.live(user_data as int) {
                &&& payload == old(self).table.ops.slots@[user_data as int].payload
                &&& final(self).table.ops.slots@ == old(self).table.ops.slots@.update(
                    user_data as int,
                    old(self).table.ops.slots@[user_data as int].vacated(),
                )
            } else {
                &&& payload is None
                &&& final(self).table.ops.slots@ == old(self).table.ops.slots@
            },
    {
        if !self.table.ops.contains(user_data) {
            return None;
        }
        let (_, payload, _) = self.table.ops.take_completion_data(user_data);
        payload
    }

    /// Moves every announced completion event to the end of `out`, oldest first, and
    /// gives their number.
    pub fn drain_completions(&mut self, out: &mut Vec<CompletionEvent>) -> (n: usize)
        requires
            old(self).wf(),
        ensures
            final(self).wf(),
            final(self).same_but_table(old(self)),
            final(self).table.ops == old(self).table.ops,
            final(self).table.deliveries == old(self).table.deliveries,
            n == old(self).table.completions.events().len(),
            final(out)@ == old(out)@ + old(self).table.completions.events(),
            final(self).table.completions.events() == Seq::<CompletionEvent>::empty(),
            final(self).table.completions.records() == old(self).table.completions.records(),
    {
        self.table.completions.drain_completions(out)
    }

    // -----------------------------------------------------------------------
    // Registered handles
    // -----------------------------------------------------------------------

    /// Nothing but registered handles and registered I/O differs.
    pub open spec fn same_but_files(&self, before: &Self) -> bool {
        &&& self.port == before.port
        &&& self.extensions == before.extensions
        &&& self.table == before.table
        &&& self.is_notified == before.is_notified
        &&& self.shutting_down == before.shutting_down
        &&& self.closed == before.closed
        &&& self.deferred_socket_cleanup@ == before.deferred_socket_cleanup@
        &&& self.order == before.order
        &&& self.slot_memory == before.slot_memory
    }

    /// The registered handles.
    pub open spec fn handles(&self) -> HandlesModel {
        HandlesModel { entries: self.files.entries@, free: self.files.free@ }
    }

    /// The registered handles, and what socket generations are taken from on the thread
    /// that registers more.
    pub open spec fn registrar(
        &self,
        generations: SocketGenerations,
        tags: ThreadTags,
    ) -> RegistrarModel {
        RegistrarModel { handles: self.handles(), generations, tags }
    }

    /// The first `n` of `files` are registered, in order, and no others; the sockets
    /// among them are known to be. `before` and `left` are the registered handles, the
    /// generations of the thread and the thread tags, before and after.
    pub open spec fn registers(
        &self,
        after: &Self,
        before: RegistrarModel,
        left: RegistrarModel,
        files: Seq<RegisterFd>,
        n: int,
    ) -> bool {
        &&& 0 <= n <= files.len()
        &&& forall|j: int| 0 <= j < n ==> !(#[trigger] files[j]).unclear()
        &&& left == before.with_handles(files.take(n))
        &&& forall|key: SocketKey| #[trigger]
            after.rio.sockets.of(key) == (if before.makes_socket(files, n, key) {
                SocketRuntime { registered: true, ..self.rio.sockets.of(key) }
            } else {
                self.rio.sockets.of(key)
            })
    }

    /// Registers handles and gives their places. It stops at the first handle of which
    /// it cannot be told what it is; those before it stay registered. A socket that was
    /// tagged as a file gets the next generation of the thread.
    pub fn register_files(
        &mut self,
        files: &Vec<RegisterFd>,
        generations: &mut SocketGenerations,
        tags: &mut ThreadTags,
    ) -> (r: Result<Vec<IoFd>, DriverErrorKind>)
        requires
            old(self).wf(),
            old(self).files.entries@.len() + files.len() <= u32::MAX,
        ensures
            final(self).wf(),
            final(self).same_but_files(old(self)),
            r is Err <==> exists|i: int| 0 <= i < files@.len() && (#[trigger] files@[i]).unclear(),
            r matches Err(e) ==> e is InvalidInput,
            r matches Ok(fds) ==> {
                &&& fds@.len() == files@.len()
                &&& forall|i: int|
                    0 <= i < fds@.len() ==> registered_at(
                        files@[i],
                        #[trigger] fds@[i],
                        &old(self).files,
                        &final(self).files,
                    )
                &&& forall|i: int, j: int|
                    0 <= i < j < fds@.len() ==> #[trigger] fds@[i] != #[trigger] fds@[j]
            },
            exists|n: int| #[trigger]
                old(self).registers(
                    final(self),
                    old(self).registrar(*old(generations), *old(tags)),
                    final(self).registrar(*final(generations), *final(tags)),
                    files@,
                    n,
                ) && (n == files@.len() || files@[n].unclear()),
            r matches Ok(fds) ==> forall|i: int|
                0 <= i < fds@.len() ==> #[trigger] fds@[i] == (IoFd::Fixed {
                    index: old(self).registrar(*old(generations), *old(tags)).with_handles(
                        files@.take(i),
                    ).handles.next_place() as u32,
                }),
            forall|k: int|
                old(self).files.at(k) is Some ==> #[trigger] final(self).files.entries@[k] == old(
                    self,
                ).files.entries@[k],
            forall|k: int|
                old(self).files.at(k) is Some ==> #[trigger] final(self).files.at(k) == old(
                    self,
                ).files.at(k),
            final(self).rio.same_but_sockets(&old(self).rio),
            final(self).files.entries@.len() <= old(self).files.entries@.len() + files@.len(),
    {
        let ghost start = self.registrar(*generations, *tags);
        assert(files@.take(0) =~= Seq::<RegisterFd>::empty());
        assert(old(self).registers(&*self, start, start, files@, 0));
        let mut fds: Vec<IoFd> = Vec::new();
        let mut i: usize = 0;
        while i < files.len()
            invariant
                i <= files@.len(),
                self.wf(),
                self.same_but_files(old(self)),
                self.files.entries@.len() <= old(self).files.entries@.len() + i,
                old(self).files.entries@.len() + files@.len() <= u32::MAX,
                forall|j: int| 0 <= j < i ==> !(#[trigger] files@[j]).unclear(),
                fds@.len() == i,
                forall|j: int|
                    0 <= j < i ==> registered_at(
                        files@[j],
                        #[trigger] fds@[j],
                        &old(self).files,
                        &self.files,
                    ),
                forall|j: int, k: int|
                    0 <= j < k < i ==> #[trigger] fds@[j] != #[trigger] fds@[k],
                forall|k: int|
                    old(self).files.at(k) is Some ==> #[trigger] self.files.entries@[k] == old(
                        self,
                    ).files.entries@[k] && k < self.files.entries@.len(),
                forall|k: int|
                    old(self).files.at(k) is Some ==> #[trigger] self.files.at(k) == old(
                        self,
                    ).files.at(k),
                start == old(self).registrar(*old(generations), *old(tags)),
                old(self).registers(
                    &*self,
                    start,
                    self.registrar(*generations, *tags),
                    files@,
                    i as int,
                ),
                forall|j: int|
                    0 <= j < i ==> #[trigger] fds@[j] == (IoFd::Fixed {
                        index: start.with_handles(files@.take(j)).handles.next_place() as u32,
                    }),
                self.rio.same_but_sockets(&old(self).rio),
            decreases files@.len() - i,
        {
            let file = files[i];
            let ghost was = self.files;
            let ghost before = self.registrar(*generations, *tags);
            match file.into_entry(generations, tags) {
                Ok(entry) => {
                    let raw = entry.as_raw();
                    if raw.is_socket() {
                        self.rio.sockets.mark_socket_registered(actor_key(raw));
                    }
                    let index: u32 = self.files.insert(entry);
                    fds.push(IoFd::Fixed { index });
                    proof {
                        let more = files@.take(i + 1);
                        assert(more.drop_last() =~= files@.take(i as int));
                        assert(more.last() == file);
                        assert(self.registrar(*generations, *tags) =~= before.with_handle(file));
                        assert(start.entry_in(files@, i as int) == entry);
                        assert forall|key: SocketKey| #[trigger]
                            start.makes_socket(files@, i + 1, key) <==> start.makes_socket(
                                files@,
                                i as int,
                                key,
                            ) || (raw is Socket && socket_key_spec(raw) == key) by {
                            if start.makes_socket(files@, i as int, key) {
                                let j = choose|j: int|
                                    0 <= j < i && (#[trigger] start.entry_in(
                                        files@,
                                        j,
                                    )).raw_spec() is Socket && socket_key_spec(
                                        start.entry_in(files@, j).raw_spec(),
                                    ) == key;
                                assert(start.entry_in(files@, j).raw_spec() is Socket);
                            }
                        }
                        assert forall|k: int|
                            was.at(k) is Some implies #[trigger] self.files.at(k) == was.at(k) by {}
                        assert forall|k: int|
                            old(self).files.at(k) is Some implies #[trigger] self.files.entries@[k]
                            == old(self).files.entries@[k] && k < self.files.entries@.len() by {
                            assert(was.at(k) == old(self).files.at(k));
                            assert(was.entries@[k] == old(self).files.entries@[k]);
                            assert(k != index);
                        }
                        assert(self.files.at(index as int) == Some(entry.raw_spec()));
                        assert forall|j: int| 0 <= j < i + 1 implies registered_at(
                            files@[j],
                            #[trigger] fds@[j],
                            &old(self).files,
                            &self.files,
                        ) by {
                            if j < i {
                                let place = fds@[j]->Fixed_index;
                                assert(registered_at(files@[j], fds@[j], &old(self).files, &was));
                                assert(was.at(place as int) is Some);
                                assert(self.files.at(place as int) == was.at(place as int));
                                assert(place != index);
                            } else {
                                assert(was.at(index as int) is None);
                                if old(self).files.at(index as int) is Some {
                                    assert(was.at(index as int) == old(self).files.at(
                                        index as int,
                                    ));
                                }
                            }
                        }
                        assert forall|j: int, k: int| 0 <= j < k < i + 1 implies #[trigger] fds@[j]
                            != #[trigger] fds@[k] by {
                            if k == i {
                                assert(registered_at(files@[j], fds@[j], &old(self).files, &was));
                            }
                        }
                    }
                },
                Err(_) => {
                    assert(files@[i as int].unclear());
                    return Err(DriverErrorKind::InvalidInput);
                },
            }
            i = i + 1;
        }
        Ok(fds)
    }

    /// Takes one handle out of the table. A socket's actor is shut down. What is left to
    /// the caller is added to `out`.
    pub(crate) fn unregister_one(&mut self, fd: IoFd, out: &mut Cleanup)
        requires
            old(self).wf(),
        ensures
            final(self).wf(),
            final(self).same_but_files(old(self)),
            final(self).handles() == old(self).handles().without_handle(fd),
            forall|k: int| #[trigger]
                final(self).files.at(k) == (if fd == (IoFd::Fixed { index: k as u32 }) && 0 <= k
                    <= u32::MAX {
                    None
                } else {
                    old(self).files.at(k)
                }),
            final(self).files.entries@.len() == old(self).files.entries@.len(),
            forall|key: SocketKey| #[trigger]
                final(self).rio.sockets.of(key).inflight == old(self).rio.sockets.of(key).inflight,
            final(self).rio.same_but_actors_and_sockets(&old(self).rio),
            forall|h: SocketKey| #[trigger]
                final(self).rio.index().contains_key(h) <==> old(self).rio.index().contains_key(h)
                    && !old(self).files.holds(fd, h),
            match fd {
                IoFd::Fixed { index } if old(self).files.at(index as int) is Some => final(
                    out).closes@ == old(out).closes@.push(
                    old(self).files.entries@[index as int]->Some_0.dropping(),
                ),
                _ => final(out).closes@ == old(out).closes@,
            },
            forall|k: int|
                0 <= k < old(self).files.entries@.len() && fd != (IoFd::Fixed { index: k as u32 })
                    ==> #[trigger] final(self).files.entries@[k] == old(self).files.entries@[k],
            forall|h: SocketKey| #[trigger]
                final(self).rio.sockets.of(h) == (if old(self).files.holds(fd, h) {
                    SocketRuntime {
                        fallback: false,
                        fallback_associated: false,
                        ..old(self).rio.sockets.of(h)
                    }
                } else {
                    old(self).rio.sockets.of(h)
                }),
            final(out).released@.len() >= old(out).released@.len(),
            final(out).released@.take(old(out).released@.len() as int) == old(out).released@,
            old(self).rio.actors_state().sockets_ended(
                final(self).rio.actors_state(),
                old(self).rio.kernel.dispatch,
                sockets_at(old(self).files.entries@, fd),
                final(out).released@.skip(old(out).released@.len() as int),
            ),
    {
        let ghost had = out.released@;
        assert(had.take(had.len() as int) =~= had);
        assert(had.skip(had.len() as int) =~= Seq::<RioBufferId>::empty());
        let index: u32 = match fd {
            IoFd::Fixed { index } => index,
            IoFd::Raw { .. } => {
                return ;
            },
        };
        if let Some(entry) = self.files.take(index) {
            let raw = entry.as_raw();
            if raw.is_socket() {
                assert(old(self).files.holds(fd, socket_key_spec(raw)));
                let mut ids = self.rio.shutdown_actor(actor_key(raw));
                let ghost more = ids@;
                out.released.append(&mut ids);
                proof {
                    let state = old(self).rio.actors_state();
                    let none = Seq::<SocketKey>::empty();
                    assert(state.sockets_ended(
                        state,
                        old(self).rio.kernel.dispatch,
                        none,
                        Seq::<RioBufferId>::empty(),
                    ));
                    state.one_more_ended(
                        state,
                        self.rio.actors_state(),
                        old(self).rio.kernel.dispatch,
                        none,
                        socket_key_spec(raw),
                        Seq::empty(),
                        more,
                    );
                    assert(none.push(socket_key_spec(raw)) =~= sockets_at(
                        old(self).files.entries@,
                        fd,
                    ));
                    assert(Seq::<RioBufferId>::empty() + more =~= more);
                    assert(out.released@.skip(had.len() as int) =~= more);
                    assert(out.released@.take(had.len() as int) =~= had);
                }
            }
            out.closes.push(entry.on_drop());
        }
    }

    /// Takes handles out of the table. Places that are empty are passed over.
    pub fn unregister_files(&mut self, files: &Vec<IoFd>) -> (out: Cleanup)
        requires
            old(self).wf(),
        ensures
            final(self).wf(),
            final(self).same_but_files(old(self)),
            forall|k: int| #[trigger]
                final(self).files.at(k) == (if files@.contains(IoFd::Fixed { index: k as u32 }) && 0
                    <= k <= u32::MAX {
                    None
                } else {
                    old(self).files.at(k)
                }),
            forall|key: SocketKey| #[trigger]
                final(self).rio.sockets.of(key).inflight == old(self).rio.sockets.of(key).inflight,
            final(self).rio.same_but_actors_and_sockets(&old(self).rio),
            forall|k: int| #[trigger]
                files@.contains(IoFd::Fixed { index: k as u32 }) && 0 <= k <= u32::MAX ==> (old(
                    self,
                ).files.at(k) matches Some(raw) ==> raw is Socket ==> !final(
                    self).rio.index().contains_key(socket_key_spec(raw))),
            out.closes@ == closes_of(old(self).files.entries@, files@),
            final(self).handles() == old(self).handles().without_handles(files@),
            final(self).files.entries@.len() == old(self).files.entries@.len(),
            forall|k: int|
                0 <= k < old(self).files.entries@.len() && !files@.contains(
                    IoFd::Fixed { index: k as u32 },
                ) ==> #[trigger] final(self).files.entries@[k] == old(self).files.entries@[k],
            forall|h: SocketKey| #[trigger]
                final(self).rio.sockets.of(h) == (if old(self).loses_place(files@, h) {
                    SocketRuntime {
                        fallback: false,
                        fallback_associated: false,
                        ..old(self).rio.sockets.of(h)
                    }
                } else {
                    old(self).rio.sockets.of(h)
                }),
            old(self).rio.actors_state().sockets_ended(
                final(self).rio.actors_state(),
                old(self).rio.kernel.dispatch,
                sockets_of(old(self).files.entries@, files@),
                out.released@,
            ),
    {
        assert(files@.take(0) =~= Seq::<IoFd>::empty());
        let mut out = Cleanup::empty();
        let mut i: usize = 0;
        while i < files.len()
            invariant
                i <= files@.len(),
                self.wf(),
                self.same_but_files(old(self)),
                forall|k: int| #[trigger]
                    self.files.at(k) == (if files@.take(i as int).contains(
                        IoFd::Fixed { index: k as u32 },
                    ) && 0 <= k <= u32::MAX {
                        None
                    } else {
                        old(self).files.at(k)
                    }),
                forall|key: SocketKey| #[trigger]
                    self.rio.sockets.of(key).inflight == old(self).rio.sockets.of(key).inflight,
                self.rio.same_but_actors_and_sockets(&old(self).rio),
                forall|k: int| #[trigger]
                    files@.take(i as int).contains(IoFd::Fixed { index: k as u32 }) && 0 <= k
                        <= u32::MAX ==> (old(self).files.at(k) matches Some(raw) ==> raw is Socket
                        ==> !self.rio.index().contains_key(socket_key_spec(raw))),
                out.closes@ == closes_of(old(self).files.entries@, files@.take(i as int)),
                self.files.entries@.len() == old(self).files.entries@.len(),
                forall|k: int|
                    0 <= k < old(self).files.entries@.len() && !files@.take(i as int).contains(
                        IoFd::Fixed { index: k as u32 },
                    ) ==> #[trigger] self.files.entries@[k] == old(self).files.entries@[k],
                self.handles() == old(self).handles().without_handles(files@.take(i as int)),
                forall|h: SocketKey| #[trigger]
                    self.rio.sockets.of(h) == (if old(self).loses_place(files@.take(i as int), h) {
                        SocketRuntime {
                            fallback: false,
                            fallback_associated: false,
                            ..old(self).rio.sockets.of(h)
                        }
                    } else {
                        old(self).rio.sockets.of(h)
                    }),
                old(self).rio.actors_state().sockets_ended(
                    self.rio.actors_state(),
                    old(self).rio.kernel.dispatch,
                    sockets_of(old(self).files.entries@, files@.take(i as int)),
                    out.released@,
                ),
            decreases files@.len() - i,
        {
            let ghost was = *self;
            let ghost had = out.released@;
            let fd = files[i];
            self.unregister_one(fd, &mut out);
            proof {
                let front = files@.take(i as int);
                let more = files@.take(i + 1);
                old(self).one_more_emptied(&was, &*self, front, fd, had, out.released@);
                assert(more =~= front.push(fd));
                assert forall|g: IoFd| #[trigger] more.contains(g) <==> front.contains(g) || g
                    == fd by {
                    if more.contains(g) {
                        let j = more.index_of(g);
                        if j < front.len() {
                            assert(front[j] == g);
                        }
                    }
                    if front.contains(g) {
                        assert(more[front.index_of(g)] == g);
                    }
                    assert(more[front.len() as int] == fd);
                }
                assert forall|k: int| #[trigger]
                    more.contains(IoFd::Fixed { index: k as u32 }) && 0 <= k <= u32::MAX implies (
                old(self).files.at(k) matches Some(raw) ==> raw is Socket
                    ==> !self.rio.index().contains_key(socket_key_spec(raw))) by {
                    if !front.contains(IoFd::Fixed { index: k as u32 }) {
                        assert(was.files.at(k) == old(self).files.at(k));
                    }
                }
                assert(more.drop_last() =~= front);
                if let IoFd::Fixed { index } = fd {
                    assert(was.files.at(index as int) == (if front.contains(fd) {
                        None
                    } else {
                        old(self).files.at(index as int)
                    }));
                }
            }
            i = i + 1;
        }
        assert(files@.take(i as int) =~= files@);
        out
    }

    /// From emptying the places `front` to emptying `fd` too: the sockets that are ended,
    /// and those that lose their places.
    proof fn one_more_emptied(
        &self,
        was: &Self,
        after: &Self,
        front: Seq<IoFd>,
        fd: IoFd,
        had: Seq<RioBufferId>,
        released: Seq<RioBufferId>,
    )
        requires
            was.files.entries@.len() == self.files.entries@.len(),
            forall|k: int| #[trigger]
                was.files.at(k) == (if front.contains(IoFd::Fixed { index: k as u32 }) && 0 <= k
                    <= u32::MAX {
                    None
                } else {
                    self.files.at(k)
                }),
            self.rio.actors_state().sockets_ended(
                was.rio.actors_state(),
                self.rio.kernel.dispatch,
                sockets_of(self.files.entries@, front),
                had,
            ),
            released.len() >= had.len(),
            released.take(had.len() as int) == had,
            was.rio.actors_state().sockets_ended(
                after.rio.actors_state(),
                self.rio.kernel.dispatch,
                sockets_at(was.files.entries@, fd),
                released.skip(had.len() as int),
            ),
        ensures
            self.rio.actors_state().sockets_ended(
                after.rio.actors_state(),
                self.rio.kernel.dispatch,
                sockets_of(self.files.entries@, front.push(fd)),
                released,
            ),
            forall|h: SocketKey| #[trigger]
                self.loses_place(front.push(fd), h) <==> self.loses_place(front, h)
                    || was.files.holds(fd, h),
    {
        let all = front.push(fd);
        assert(all.drop_last() =~= front);
        if let IoFd::Fixed { index } = fd {
            assert(was.files.at(index as int) == (if front.contains(fd) {
                None
            } else {
                self.files.at(index as int)
            }));
        }
        assert(sockets_at(was.files.entries@, fd) =~= (if front.contains(fd) {
            Seq::<SocketKey>::empty()
        } else {
            sockets_at(self.files.entries@, fd)
        }));
        self.rio.actors_state().ended_in_turn(
            was.rio.actors_state(),
            after.rio.actors_state(),
            self.rio.kernel.dispatch,
            sockets_of(self.files.entries@, front),
            sockets_at(was.files.entries@, fd),
            had,
            released.skip(had.len() as int),
        );
        assert(had + released.skip(had.len() as int) =~= released);
        assert(sockets_of(self.files.entries@, front) + sockets_at(was.files.entries@, fd)
            =~= sockets_of(self.files.entries@, all));
        assert forall|h: SocketKey| #[trigger]
            self.loses_place(all, h) <==> self.loses_place(front, h) || was.files.holds(fd, h) by {
            if self.loses_place(all, h) {
                let j = choose|j: int| 0 <= j < all.len() && self.files.holds(#[trigger] all[j], h);
                if j < front.len() {
                    assert(self.files.holds(front[j], h));
                } else if front.contains(fd) {
                    assert(self.files.holds(front[front.index_of(fd)], h));
                }
            }
            if self.loses_place(front, h) {
                let j = choose|j: int|
                    0 <= j < front.len() && self.files.holds(#[trigger] front[j], h);
                assert(self.files.holds(all[j], h));
            }
            if was.files.holds(fd, h) {
                assert(self.files.holds(all[front.len() as int], h));
            }
        }
    }

    /// Ends the use of registered I/O for a socket.
    pub fn shutdown_actor(&mut self, handle: IocpHandle) -> (released: Vec<RioBufferId>)
        requires
            old(self).wf(),
        ensures
            final(self).wf(),
            final(self).same_but_table_and_rio(old(self)),
            final(self).table == old(self).table,
            final(self).rio.same_but_actors_and_sockets(&old(self).rio),
            old(self).rio.sockets.with(
                &final(self).rio.sockets,
                socket_key_spec(handle),
                SocketRuntime {
                    fallback: false,
                    fallback_associated: false,
                    ..old(self).rio.sockets.of(socket_key_spec(handle))
                },
            ),
            old(self).rio.actors_state().socket_ended(
                final(self).rio.actors_state(),
                old(self).rio.kernel.dispatch,
                socket_key_spec(handle),
                released@,
            ),
    {
        self.rio.shutdown_actor(actor_key(handle))
    }
}

/// `fd` is the place of a handle that was registered, which was empty before.
pub open spec fn registered_at(
    file: RegisterFd,
    fd: IoFd,
    before: &HandleTable,
    after: &HandleTable,
) -> bool {
    fd matches IoFd::Fixed { index } && before.at(index as int) is None && index
        < after.entries@.len() && (after.entries@[index as int] matches Some(e) && file.kept_as(e))
}

/// The handles to close when the places `fds` are emptied in order.
pub open spec fn closes_of(entries: Seq<Option<RegisteredHandle>>, fds: Seq<IoFd>) -> Seq<CloseCall>
    decreases fds.len(),
{
    if fds.len() == 0 {
        Seq::empty()
    } else {
        let front = closes_of(entries, fds.drop_last());
        match fds.last() {
            IoFd::Fixed { index } => if index < entries.len() && entries[index as int] is Some
                && !fds.drop_last().contains(fds.last()) {
                front.push(entries[index as int]->Some_0.dropping())
            } else {
                front
            },
            IoFd::Raw { .. } => front,
        }
    }
}

} // verus!
