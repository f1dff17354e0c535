//! Sockets that wait to be cleaned up until the system has let go of them.
use vstd::prelude::*;
use super::config::{CloseCall, RegisteredHandle};
use super::driver::{closes_of, Cleanup, DeferredSocketCleanup, DriverControlCommand, IocpDriver};
use super::files::sockets_at;
use super::op::{actor_key, socket_key_spec, IoFd, IocpOpState};
use super::rio::kernel::RioBufferId;
use super::rio::sockets::{SocketKey, SocketRuntime, Sockets};
use super::rio::state::ActorsModel;

verus! {

/// The system works on no operation on the socket.
pub open spec fn ready(s: &Sockets, p: DeferredSocketCleanup) -> bool {
    s.of(p.handle).inflight == 0
}

/// The sockets that have to wait on, in order.
pub open spec fn not_ready(s: &Sockets, queue: Seq<DeferredSocketCleanup>) -> Seq<
    DeferredSocketCleanup,
>
    decreases queue.len(),
{
    if queue.len() == 0 {
        queue
    } else {
        let front = not_ready(s, queue.drop_last());
        if ready(s, queue.last()) {
            front
        } else {
            front.push(queue.last())
        }
    }
}

/// The places of the sockets that are ready, in order.
pub open spec fn places_given_up(s: &Sockets, queue: Seq<DeferredSocketCleanup>) -> Seq<IoFd>
    decreases queue.len(),
{
    if queue.len() == 0 {
        Seq::empty()
    } else {
        let front = places_given_up(s, queue.drop_last());
        match queue.last().registered_fd {
            Some(fd) if ready(s, queue.last()) => front.push(fd),
            _ => front,
        }
    }
}

/// The sockets whose use of registered I/O ends, in order: those that are ready, and
/// after each the one that is found at its place.
pub open spec fn ended_sockets(
    s: &Sockets,
    entries: Seq<Option<RegisteredHandle>>,
    queue: Seq<DeferredSocketCleanup>,
) -> Seq<SocketKey>
    decreases queue.len(),
{
    if queue.len() == 0 {
        Seq::empty()
    } else {
        let front = ended_sockets(s, entries, queue.drop_last());
        if ready(s, queue.last()) {
            front.push(queue.last().handle) + (match queue.last().registered_fd {
                Some(fd) if !places_given_up(s, queue.drop_last()).contains(fd) => sockets_at(
                    entries,
                    fd,
                ),
                _ => Seq::empty(),
            })
        } else {
            front
        }
    }
}

/// The socket `h` is ready, and waits to be cleaned up.
pub open spec fn forgotten(s: &Sockets, queue: Seq<DeferredSocketCleanup>, h: SocketKey) -> bool {
    exists|j: int| 0 <= j < queue.len() && ready(s, #[trigger] queue[j]) && queue[j].handle == h
}

impl<P> IocpDriver<P> {
    /// The socket `h` has one of the places `fds`.
    pub open spec fn loses_place(&self, fds: Seq<IoFd>, h: SocketKey) -> bool {
        exists|j: int| 0 <= j < fds.len() && self.files.holds(#[trigger] fds[j], h)
    }

    /// What is known of each socket after the ready ones in `queue` are cleaned up.
    pub open spec fn sockets_cleaned_up(
        &self,
        after: &Self,
        queue: Seq<DeferredSocketCleanup>,
    ) -> bool {
        let s = &self.rio.sockets;
        let places = places_given_up(s, queue);
        &&& forall|h: SocketKey| #[trigger]
            after.rio.sockets.of(h) == (if forgotten(s, queue, h) {
                SocketRuntime::unknown()
            } else if self.loses_place(places, h) {
                SocketRuntime { fallback: false, fallback_associated: false, ..s.of(h) }
            } else {
                s.of(h)
            })
        &&& forall|h: SocketKey| #[trigger]
            after.rio.index().contains_key(h) <==> self.rio.index().contains_key(h) && !forgotten(
                s,
                queue,
                h,
            ) && !self.loses_place(places, h)
    }

    /// The registered handles after the ready sockets in `queue` are cleaned up.
    pub open spec fn files_cleaned_up(
        &self,
        after: &Self,
        queue: Seq<DeferredSocketCleanup>,
    ) -> bool {
        let places = places_given_up(&self.rio.sockets, queue);
        &&& after.handles() == self.handles().without_handles(places)
        &&& after.files.entries@.len() == self.files.entries@.len()
        &&& forall|k: int| #[trigger]
            after.files.at(k) == (if 0 <= k <= u32::MAX && places.contains(
                IoFd::Fixed { index: k as u32 },
            ) {
                None
            } else {
                self.files.at(k)
            })
        &&& forall|k: int|
            0 <= k < self.files.entries@.len() && !places.contains(IoFd::Fixed { index: k as u32 })
                ==> #[trigger] after.files.entries@[k] == self.files.entries@[k]
    }

    /// The use of registered I/O has ended for the ready sockets in `queue` and for those
    /// at their places; `released` are their buffers.
    pub open spec fn actors_cleaned_up(
        &self,
        after: &Self,
        queue: Seq<DeferredSocketCleanup>,
        released: Seq<RioBufferId>,
    ) -> bool {
        self.rio.actors_state().sockets_ended(
            after.rio.actors_state(),
            self.rio.kernel.dispatch,
            ended_sockets(&self.rio.sockets, self.files.entries@, queue),
            released,
        )
    }

    /// Nothing but registered handles, actors, what is known of sockets and the waiting
    /// sockets differs.
    pub open spec fn same_but_cleanup(&self, before: &Self) -> bool {
        &&& self.port == before.port
        &&& self.extensions == before.extensions
        &&& self.table == before.table
        &&& self.is_notified == before.is_notified
        &&& self.shutting_down == before.shutting_down
        &&& self.closed == before.closed
        &&& self.order == before.order
        &&& self.slot_memory == before.slot_memory
        &&& self.rio.same_but_actors_and_sockets(&before.rio)
    }

    /// What a round over the waiting sockets does: those that are ready are forgotten,
    /// with their actors and their places; the others wait on in their order. The
    /// caller has to close what was in the places. No count of operations changes.
    pub open spec fn cleaned_up(&self, after: &Self, out: &Cleanup) -> bool {
        let queue = self.deferred_socket_cleanup@;
        let places = places_given_up(&self.rio.sockets, queue);
        &&& after.same_but_cleanup(self)
        &&& after.deferred_socket_cleanup@ == not_ready(&self.rio.sockets, queue)
        &&& self.sockets_cleaned_up(after, queue)
        &&& self.files_cleaned_up(after, queue)
        &&& self.actors_cleaned_up(after, queue, out.released@)
        &&& out.closes@ == closes_of(self.files.entries@, places)
    }

    /// Goes once over the waiting sockets and cleans up those that are ready.
    pub fn drain_deferred_socket_cleanup(&mut self) -> (out: Cleanup)
        requires
            old(self).wf(),
        ensures
            final(self).wf(),
            old(self).cleaned_up(final(self), &out),
            forall|key: SocketKey| #[trigger]
                final(self).rio.sockets.of(key).inflight == old(self).rio.sockets.of(key).inflight,
    {
        let mut out = Cleanup::empty();
        let ghost queue = self.deferred_socket_cleanup@;
        let ghost sockets = self.rio.sockets;
        let rounds: usize = self.deferred_socket_cleanup.len();
        let mut i: usize = 0;
        assert(queue.skip(0) + not_ready(&sockets, queue.take(0)) =~= queue);
        while i < rounds
            invariant
                i <= rounds,
                rounds == queue.len(),
                queue == old(self).deferred_socket_cleanup@,
                sockets == old(self).rio.sockets,
                self.wf(),
                self.same_but_cleanup(old(self)),
                self.deferred_socket_cleanup@ == queue.skip(i as int) + not_ready(
                    &sockets,
                    queue.take(i as int),
                ),
                old(self).sockets_cleaned_up(&*self, queue.take(i as int)),
                old(self).files_cleaned_up(&*self, queue.take(i as int)),
                old(self).actors_cleaned_up(&*self, queue.take(i as int), out.released@),
                out.closes@ == closes_of(
                    old(self).files.entries@,
                    places_given_up(&sockets, queue.take(i as int)),
                ),
            decreases rounds - i,
        {
            let ghost front = queue.take(i as int);
            let ghost more = queue.take(i + 1);
            let ghost was = *self;
            let ghost closed = out.closes@;
            let ghost had = out.released@;
            let pending: DeferredSocketCleanup = self.deferred_socket_cleanup[0];
            let _ = self.deferred_socket_cleanup.pop_front();
            proof {
                assert(pending == queue[i as int]);
                assert(more.drop_last() =~= front);
                assert(more.last() == pending);
                old(self).rounds_keep_counts(&was, front);
            }
            if self.rio.sockets.socket_ready_for_cleanup(pending.handle) {
                let mut ids = self.rio.shutdown_actor(pending.handle);
                let ghost ended = self.rio.actors_state();
                let ghost own = ids@;
                out.released.append(&mut ids);
                if let Some(fd) = pending.registered_fd {
                    self.unregister_one(fd, &mut out);
                }
                proof {
                    let rest = out.released@.skip((had + own).len() as int);
                    assert(out.released@ =~= had + own + rest);
                    old(self).one_more_ended(
                        &was,
                        &*self,
                        more,
                        ended,
                        had,
                        own,
                        rest,
                    );
                }
                self.rio.sockets.forget_socket_runtime(pending.handle);
                assert(self.deferred_socket_cleanup@ =~= queue.skip(i + 1) + not_ready(
                    &sockets,
                    more,
                ));
            } else {
                self.deferred_socket_cleanup.push_back(pending);
                assert(self.deferred_socket_cleanup@ =~= queue.skip(i + 1) + not_ready(
                    &sockets,
                    more,
                ));
            }
            proof {
                old(self).one_more_cleaned_up(&was, &*self, more, closed, out.closes@);
            }
            i = i + 1;
        }
        proof {
            assert(queue.take(i as int) =~= queue);
            assert(queue.skip(i as int) + not_ready(&sockets, queue) =~= not_ready(
                &sockets,
                queue,
            ));
            old(self).rounds_keep_counts(&*self, queue);
        }
        out
    }

    /// `after` is what cleaning up one more socket makes of `was`.
    spec fn one_cleaned_up(
        was: &Self,
        after: &Self,
        p: DeferredSocketCleanup,
        closed: Seq<CloseCall>,
        closes: Seq<CloseCall>,
    ) -> bool {
        let holds = |h: SocketKey|
            p.registered_fd matches Some(fd) && was.files.holds(fd, h);
        &&& forall|h: SocketKey| #[trigger]
            after.rio.sockets.of(h) == (if h == p.handle {
                SocketRuntime::unknown()
            } else if holds(h) {
                SocketRuntime { fallback: false, fallback_associated: false, ..was.rio.sockets.of(h) }
            } else {
                was.rio.sockets.of(h)
            })
        &&& forall|h: SocketKey| #[trigger]
            after.rio.index().contains_key(h) <==> was.rio.index().contains_key(h) && h != p.handle
                && !holds(h)
        &&& after.handles() == (match p.registered_fd {
            Some(fd) => was.handles().without_handle(fd),
            None => was.handles(),
        })
        &&& after.files.entries@.len() == was.files.entries@.len()
        &&& forall|k: int| #[trigger]
            after.files.at(k) == (if 0 <= k <= u32::MAX && p.registered_fd == Some(
                IoFd::Fixed { index: k as u32 },
            ) {
                None
            } else {
                was.files.at(k)
            })
        &&& forall|k: int|
            0 <= k < was.files.entries@.len() && p.registered_fd != Some(
                IoFd::Fixed { index: k as u32 },
            ) ==> #[trigger] after.files.entries@[k] == was.files.entries@[k]
        &&& closes == (match p.registered_fd {
            Some(IoFd::Fixed { index }) if was.files.at(index as int) is Some => closed.push(
                was.files.entries@[index as int]->Some_0.dropping(),
            ),
            _ => closed,
        })
    }

    /// From ending the use of registered I/O for all but the last socket to ending it for
    /// all.
    proof fn one_more_ended(
        &self,
        was: &Self,
        after: &Self,
        queue: Seq<DeferredSocketCleanup>,
        ended: ActorsModel,
        had: Seq<RioBufferId>,
        own: Seq<RioBufferId>,
        rest: Seq<RioBufferId>,
    )
        requires
            queue.len() > 0,
            ready(&self.rio.sockets, queue.last()),
            self.files_cleaned_up(was, queue.drop_last()),
            self.actors_cleaned_up(was, queue.drop_last(), had),
            was.rio.actors_state().socket_ended(
                ended,
                self.rio.kernel.dispatch,
                queue.last().handle,
                own,
            ),
            match queue.last().registered_fd {
                Some(fd) => ended.sockets_ended(
                    after.rio.actors_state(),
                    self.rio.kernel.dispatch,
                    sockets_at(was.files.entries@, fd),
                    rest,
                ),
                None => after.rio.actors_state() == ended && rest.len() == 0,
            },
        ensures
            self.actors_cleaned_up(after, queue, had + own + rest),
    {
        let s = &self.rio.sockets;
        let p = queue.last();
        let places = places_given_up(s, queue.drop_last());
        let front = ended_sockets(s, self.files.entries@, queue.drop_last());
        let dispatch = self.rio.kernel.dispatch;
        let start = self.rio.actors_state();
        start.one_more_ended(
            was.rio.actors_state(),
            ended,
            dispatch,
            front,
            p.handle,
            had,
            own,
        );
        let all = ended_sockets(s, self.files.entries@, queue);
        match p.registered_fd {
            Some(fd) => {
                if let IoFd::Fixed { index } = fd {
                    assert(was.files.at(index as int) == (if places.contains(fd) {
                        None
                    } else {
                        self.files.at(index as int)
                    }));
                }
                let at = sockets_at(was.files.entries@, fd);
                assert(at =~= (if places.contains(fd) {
                    Seq::<SocketKey>::empty()
                } else {
                    sockets_at(self.files.entries@, fd)
                }));
                start.ended_in_turn(
                    ended,
                    after.rio.actors_state(),
                    dispatch,
                    front.push(p.handle),
                    at,
                    had + own,
                    rest,
                );
                assert(front.push(p.handle) + at =~= all);
            },
            None => {
                assert(had + own + rest =~= had + own);
                assert(front.push(p.handle) =~= all);
            },
        }
    }

    /// From cleaning up all but the last socket to cleaning up all.
    proof fn one_more_cleaned_up(
        &self,
        was: &Self,
        after: &Self,
        queue: Seq<DeferredSocketCleanup>,
        closed: Seq<CloseCall>,
        closes: Seq<CloseCall>,
    )
        requires
            queue.len() > 0,
            self.sockets_cleaned_up(was, queue.drop_last()),
            self.files_cleaned_up(was, queue.drop_last()),
            closed == closes_of(
                self.files.entries@,
                places_given_up(&self.rio.sockets, queue.drop_last()),
            ),
            if ready(&self.rio.sockets, queue.last()) {
                Self::one_cleaned_up(was, after, queue.last(), closed, closes)
            } else {
                after.rio == was.rio && after.handles() == was.handles() && after.files == was.files
                    && closes == closed
            },
        ensures
            self.sockets_cleaned_up(after, queue),
            self.files_cleaned_up(after, queue),
            closes == closes_of(self.files.entries@, places_given_up(&self.rio.sockets, queue)),
    {
        let s = &self.rio.sockets;
        let front = queue.drop_last();
        let p = queue.last();
        let places = places_given_up(s, front);
        let more = places_given_up(s, queue);
        assert forall|h: SocketKey| #[trigger]
            forgotten(s, queue, h) <==> forgotten(s, front, h) || (ready(s, p) && p.handle == h) by {
            if forgotten(s, queue, h) {
                let j = choose|j: int|
                    0 <= j < queue.len() && ready(s, #[trigger] queue[j]) && queue[j].handle == h;
                if j < front.len() {
                    assert(front[j] == queue[j]);
                }
            }
            if forgotten(s, front, h) {
                let j = choose|j: int|
                    0 <= j < front.len() && ready(s, #[trigger] front[j]) && front[j].handle == h;
                assert(queue[j] == front[j]);
            }
            assert(queue[queue.len() - 1] == p);
        }
        if ready(s, p) && p.registered_fd is Some {
            let fd = p.registered_fd->Some_0;
            assert(more == places.push(fd));
            assert(more.drop_last() =~= places);
            assert forall|g: IoFd| #[trigger] more.contains(g) <==> places.contains(g) || g
                == fd by {
                if more.contains(g) {
                    let j = more.index_of(g);
                    if j < places.len() {
                        assert(places[j] == g);
                    }
                }
                if places.contains(g) {
                    assert(more[places.index_of(g)] == g);
                }
                assert(more[places.len() as int] == fd);
            }
            assert forall|h: SocketKey| #[trigger]
                self.loses_place(more, h) <==> self.loses_place(places, h) || was.files.holds(
                    fd,
                    h,
                ) by {
                if self.loses_place(more, h) {
                    let j = choose|j: int|
                        0 <= j < more.len() && self.files.holds(#[trigger] more[j], h);
                    if j < places.len() {
                        assert(places[j] == more[j]);
                        assert(self.files.holds(places[j], h));
                    } else if places.contains(fd) {
                        assert(self.files.holds(places[places.index_of(fd)], h));
                    } else {
                        assert(was.files.at(fd->Fixed_index as int) == self.files.at(
                            fd->Fixed_index as int,
                        ));
                    }
                }
                if self.loses_place(places, h) {
                    let j = choose|j: int|
                        0 <= j < places.len() && self.files.holds(#[trigger] places[j], h);
                    assert(more[j] == places[j]);
                }
                if was.files.holds(fd, h) {
                    assert(was.files.at(fd->Fixed_index as int) is Some);
                    assert(!places.contains(fd));
                    assert(more[places.len() as int] == fd);
                    assert(self.files.holds(more[places.len() as int], h));
                }
            }
            if let IoFd::Fixed { index } = fd {
                assert(was.files.at(index as int) == (if places.contains(fd) {
                    None
                } else {
                    self.files.at(index as int)
                }));
            }
        } else {
            assert(more == places);
        }
    }

    /// Cleaning up ready sockets changes no count of operations.
    proof fn rounds_keep_counts(&self, after: &Self, queue: Seq<DeferredSocketCleanup>)
        requires
            self.sockets_cleaned_up(after, queue),
        ensures
            forall|key: SocketKey| #[trigger]
                after.rio.sockets.of(key).inflight == self.rio.sockets.of(key).inflight,
    {
        assert forall|key: SocketKey| #[trigger]
            after.rio.sockets.of(key).inflight == self.rio.sockets.of(key).inflight by {
            if forgotten(&self.rio.sockets, queue, key) {
                let j = choose|j: int|
                    0 <= j < queue.len() && ready(&self.rio.sockets, #[trigger] queue[j])
                        && queue[j].handle == key;
                assert(ready(&self.rio.sockets, queue[j]));
            }
        }
    }

    /// The same driver with one more socket that waits to be cleaned up.
    pub open spec fn scheduled(&self, mid: &Self, p: DeferredSocketCleanup) -> bool {
        &&& mid.wf()
        &&& mid.port == self.port
        &&& mid.extensions == self.extensions
        &&& mid.table == self.table
        &&& mid.files == self.files
        &&& mid.is_notified == self.is_notified
        &&& mid.shutting_down == self.shutting_down
        &&& mid.closed == self.closed
        &&& mid.order == self.order
        &&& mid.slot_memory == self.slot_memory
        &&& mid.rio.same_but_sockets(&self.rio)
        &&& self.rio.sockets.with(
            &mid.rio.sockets,
            p.handle,
            SocketRuntime { closing: true, ..self.rio.sockets.of(p.handle) },
        )
        &&& mid.deferred_socket_cleanup@ == self.deferred_socket_cleanup@.push(p)
    }

    /// Has a socket cleaned up as soon as the system works on no operation on it.
    pub fn schedule_deferred_socket_cleanup(
        &mut self,
        handle: SocketKey,
        registered_fd: Option<IoFd>,
    ) -> (out: Cleanup)
        requires
            old(self).wf(),
        ensures
            final(self).wf(),
            exists|mid: Self| #[trigger]
                old(self).scheduled(&mid, DeferredSocketCleanup { handle, registered_fd })
                    && mid.cleaned_up(final(self), &out),
    {
        self.rio.sockets.mark_socket_closing(handle);
        self.deferred_socket_cleanup.push_back(DeferredSocketCleanup { handle, registered_fd });
        let ghost mid = *self;
        assert(old(self).scheduled(&mid, DeferredSocketCleanup { handle, registered_fd }));
        self.drain_deferred_socket_cleanup()
    }

    /// Carries out a command that came through the completion port. Without one nothing
    /// happens.
    pub fn handle_control_completion(&mut self, command: Option<DriverControlCommand>) -> (out:
        Cleanup)
        requires
            old(self).wf(),
        ensures
            final(self).wf(),
            match command {
                None => *final(self) == *old(self) && out.released@.len() == 0 && out.closes@.len()
                    == 0,
                Some(DriverControlCommand::SocketCleanup { handle, registered_fd }) => exists|
                    mid: Self,
                | #[trigger]
                    old(self).scheduled(&mid, DeferredSocketCleanup { handle, registered_fd })
                        && mid.cleaned_up(final(self), &out),
            },
    {
        match command {
            None => Cleanup::empty(),
            Some(DriverControlCommand::SocketCleanup { handle, registered_fd }) => {
                self.schedule_deferred_socket_cleanup(handle, registered_fd)
            },
        }
    }

    /// The socket on which the system works for slot `i`, if it does.
    pub open spec fn busy_socket(&self, i: int) -> Option<SocketKey> {
        let slot = self.table.ops.slots@[i];
        if self.table.ops.live(i) && slot.op is Some && slot.platform.in_flight {
            match slot.platform.resolved_handle {
                Some(h) => if h is Socket {
                    Some(socket_key_spec(h))
                } else {
                    None
                },
                None => None,
            }
        } else {
            None
        }
    }

    /// The same driver with the operation in slot `i` no longer worked on by the
    /// system.
    pub open spec fn let_go(&self, mid: &Self, i: int) -> bool {
        let slot = self.table.ops.slots@[i];
        &&& mid.wf()
        &&& mid.same_but_table_and_rio(self)
        &&& mid.table.model() == (if self.table.ops.live(i) && slot.op is Some
            && slot.platform.in_flight {
            self.table.model().with_platform(
                i,
                IocpOpState { in_flight: false, ..slot.platform },
            )
        } else {
            self.table.model()
        })
        &&& mid.rio.same_but_sockets(&self.rio)
        &&& match self.busy_socket(i) {
            Some(key) => self.rio.sockets.with(
                &mid.rio.sockets,
                key,
                SocketRuntime {
                    inflight: (if self.rio.sockets.of(key).inflight == 0 {
                        0
                    } else {
                        self.rio.sockets.of(key).inflight - 1
                    }) as usize,
                    ..self.rio.sockets.of(key)
                },
            ),
            None => mid.rio.sockets == self.rio.sockets,
        }
    }

    /// The system no longer works on the operation in slot `i`. When it worked on a
    /// socket for it, the waiting sockets are looked at.
    pub open spec fn op_released(&self, after: &Self, i: int, out: &Cleanup) -> bool {
        exists|mid: Self| #[trigger]
            self.let_go(&mid, i) && if self.busy_socket(i) is Some {
                mid.cleaned_up(after, out)
            } else {
                *after == mid && out.released@.len() == 0 && out.closes@.len() == 0
            }
    }

    /// Takes note that the system no longer works on an operation. When that frees a
    /// socket, the waiting sockets are looked at.
    pub fn release_socket_inflight_for_op(&mut self, user_data: usize) -> (out: Cleanup)
        requires
            old(self).wf(),
        ensures
            final(self).wf(),
            old(self).op_released(final(self), user_data as int, &out),
    {
        if !self.table.ops.contains(user_data) {
            assert(old(self).let_go(&*self, user_data as int));
            return Cleanup::empty();
        }
        let platform: IocpOpState = self.table.ops.slots[user_data].platform;
        if self.table.ops.slots[user_data].op.is_none() || !platform.in_flight {
            assert(old(self).let_go(&*self, user_data as int));
            return Cleanup::empty();
        }
        self.table.set_platform(user_data, IocpOpState { in_flight: false, ..platform });
        if let Some(h) = platform.resolved_handle {
            if h.is_socket() {
                self.rio.sockets.release_socket_inflight(actor_key(h));
                let ghost mid = *self;
                assert(old(self).let_go(&mid, user_data as int));
                return self.drain_deferred_socket_cleanup();
            }
        }
        assert(old(self).let_go(&*self, user_data as int));
        Cleanup::empty()
    }
}

} // verus!
