//! The state of registered I/O: its queue, its registrations and its actors.
use rustc_hash::FxHashMap;
use vstd::prelude::*;
use crate::fxmap::{fx_get, fx_insert, fx_new, fx_remove, no_entries};
use crate::iocp::config::BufferRegistrationMode;
use crate::iocp::error::RioError;
use super::actors::{actor_map, ActorModel, Actors, RioActorState, RioSocketActor};
use super::contexts::RequestContexts;
use super::kernel::{
    Extensions, KernelSetup, RioBufferId, RioCq, RioFunction, RioKernel, RioRq,
};
use super::keys::ActorKey;
use super::pool::{Answer, PoolModel, RioFailure, UdpPoolState};
use super::registry::RioRegistry;
use super::sockets::{SocketKey, SocketRuntime, Sockets};

verus! {

/// The state of registered I/O.
pub struct RioState {
    pub kernel: RioKernel,
    pub registry: RioRegistry,
    pub registration_mode: BufferRegistrationMode,
    pub actors: Actors,
    /// The actor that takes the requests of each socket.
    pub actor_by_handle: FxHashMap<SocketKey, ActorKey>,
    pub sockets: Sockets,
    /// The requests under way.
    pub contexts: RequestContexts,
    /// The number of requests whose completions are to come.
    pub outstanding_count: usize,
}

/// The depth of request queues: one place per entry, but within bounds.
pub open spec fn rq_depth_for(entries: u32) -> u32 {
    if entries < 32 {
        32
    } else if entries > 64 {
        64
    } else {
        entries
    }
}

impl RioState {
    /// The actors.
    pub open spec fn actors_model(&self) -> Map<ActorKey, ActorModel> {
        actor_map(self.actors).map_values(|a: RioSocketActor| a.model())
    }

    /// The actor that takes the requests of each socket.
    pub open spec fn index(&self) -> Map<SocketKey, ActorKey> {
        self.actor_by_handle@
    }

    /// The actors, and which of them takes the requests of each socket.
    pub open spec fn actors_state(&self) -> ActorsModel {
        ActorsModel { index: self.index(), actors: self.actors_model() }
    }

    /// The pools of the actors are in order.
    pub open spec fn pools_wf(&self) -> bool {
        forall|k: ActorKey| #[trigger]
            actor_map(self.actors).contains_key(k) ==> actor_map(self.actors)[k].pool_manager.wf()
    }

    /// A socket's requests go to an actor of that socket.
    pub open spec fn index_wf(&self) -> bool {
        forall|h: SocketKey| #[trigger]
            self.index().contains_key(h) ==> actor_map(self.actors).contains_key(self.index()[h])
                && actor_map(self.actors)[self.index()[h]].handle == h
    }

    pub open spec fn wf(&self) -> bool {
        &&& self.registry.wf()
        &&& self.contexts.wf()
        &&& self.pools_wf()
        &&& self.index_wf()
    }

    /// Nothing but actors and their index differs.
    pub open spec fn same_but_actors(&self, before: &Self) -> bool {
        &&& self.kernel == before.kernel
        &&& self.registry == before.registry
        &&& self.registration_mode == before.registration_mode
        &&& self.sockets == before.sockets
        &&& self.contexts == before.contexts
        &&& self.outstanding_count == before.outstanding_count
    }

    /// Nothing but what is known of sockets differs.
    pub open spec fn same_but_sockets(&self, before: &Self) -> bool {
        &&& self.kernel == before.kernel
        &&& self.registry == before.registry
        &&& self.registration_mode == before.registration_mode
        &&& self.actors == before.actors
        &&& self.actor_by_handle == before.actor_by_handle
        &&& self.contexts == before.contexts
        &&& self.outstanding_count == before.outstanding_count
    }

    /// Nothing but actors, their index and what is known of sockets differs.
    pub open spec fn same_but_actors_and_sockets(&self, before: &Self) -> bool {
        &&& self.kernel == before.kernel
        &&& self.registry == before.registry
        &&& self.registration_mode == before.registration_mode
        &&& self.contexts == before.contexts
        &&& self.outstanding_count == before.outstanding_count
    }

    /// The completion queue to create, with one place per entry, but 128 at least.
    pub fn plan(entries: u32, ext: &Extensions) -> (r: Result<KernelSetup, RioError>)
        ensures
            r is Err <==> exists|f: RioFunction| !ext.rio_table.has(f),
            r matches Err(e) ==> e is LibraryLoad,
            r matches Ok(s) ==> s == (KernelSetup::CreateCq {
                entries: if entries < 128 {
                    128
                } else {
                    entries
                },
            }),
    {
        RioKernel::from_extensions(entries, ext)
    }

    /// Registered I/O that has not been used yet.
    pub open spec fn fresh(
        &self,
        entries: u32,
        cq: u64,
        registration_mode: BufferRegistrationMode,
    ) -> bool {
        &&& self.kernel == (RioKernel { cq: RioCq { id: cq }, dispatch: true })
        &&& self.registry.fresh(rq_depth_for(entries))
        &&& self.registration_mode == registration_mode
        &&& no_entries(actor_map(self.actors))
        &&& no_entries(self.index())
        &&& forall|key: SocketKey| self.sockets.of(key) == SocketRuntime::unknown()
        &&& forall|ctx: u64| self.contexts.lookup(ctx) is None
        &&& self.contexts.has_room()
        &&& self.outstanding_count == 0
    }

    /// Takes over the completion queue: `cq` is the answer of
    /// `RIOCreateCompletionQueue`, `notified` that of `RIONotify`. The depth of request
    /// queues is kept low, so that many sockets find room.
    pub fn new(entries: u32, cq: u64, notified: i32, registration_mode: BufferRegistrationMode) -> (r:
        Result<Self, RioError>)
        ensures
            match r {
                Ok(s) => {
                    &&& cq != 0 && notified != crate::iocp::win32::SOCKET_ERROR
                    &&& s.wf()
                    &&& s.fresh(entries, cq, registration_mode)
                },
                Err(e) => {
                    ||| cq == 0 && e is CqCreation
                    ||| cq != 0 && notified == crate::iocp::win32::SOCKET_ERROR && e is Datapath
                },
            },
    {
        let kernel = match RioKernel::new(cq, notified) {
            Ok(kernel) => kernel,
            Err(e) => {
                return Err(e);
            },
        };
        let rq_depth: u32 = if entries < 32 {
            32
        } else if entries > 64 {
            64
        } else {
            entries
        };
        Ok(
            RioState {
                kernel,
                registry: RioRegistry::new(rq_depth),
                registration_mode,
                actors: Actors::new(),
                actor_by_handle: fx_new(),
                sockets: Sockets::new(),
                contexts: RequestContexts::new(),
                outstanding_count: 0,
            },
        )
    }

    /// The actor that takes the requests of a socket, with its request queue.
    pub open spec fn actor_of(&self, handle: SocketKey) -> Option<(ActorKey, RioRq)> {
        if self.index().contains_key(handle) {
            Some((self.index()[handle], self.actors_model()[self.index()[handle]].rq))
        } else {
            None
        }
    }

    /// Finds the actor that takes the requests of a socket.
    pub fn find_actor(&self, handle: SocketKey) -> (r: Option<(ActorKey, RioRq)>)
        requires
            self.wf(),
        ensures
            r == self.actor_of(handle),
    {
        match fx_get(&self.actor_by_handle, handle) {
            Some(key) => {
                assert(actor_map(self.actors).contains_key(key));
                match self.actors.get(key) {
                    Some(actor) => Some((key, actor.rq)),
                    None => None,
                }
            },
            None => None,
        }
    }

    /// Makes an actor for a socket that has none, with the request queue that the
    /// system created for it.
    pub fn insert_actor(&mut self, handle: SocketKey, answer: Answer) -> (r: Result<
        (ActorKey, RioRq),
        RioFailure,
    >)
        requires
            old(self).wf(),
            !old(self).index().contains_key(handle),
        ensures
            final(self).wf(),
            final(self).same_but_actors(old(self)),
            if answer.value == 0 {
                &&& r == Err::<(ActorKey, RioRq), RioFailure>(
                    RioFailure { error: RioError::RqCreation, code: Some(answer.error) },
                )
                &&& final(self).actors == old(self).actors
                &&& final(self).index() == old(self).index()
            } else if actor_map(old(self).actors).len() >= 0xffff_fffe {
                &&& r == Err::<(ActorKey, RioRq), RioFailure>(
                    RioFailure { error: RioError::ResourceExhaustion, code: None },
                )
                &&& final(self).actors == old(self).actors
                &&& final(self).index() == old(self).index()
            } else {
                &&& r matches Ok((key, rq))
                &&& rq == (RioRq { id: answer.value })
                &&& !old(self).actors_model().contains_key(key)
                &&& final(self).index() == old(self).index().insert(handle, key)
                &&& final(self).actors_model().contains_key(key)
                &&& fresh_actor(final(self).actors_model()[key], handle, rq)
                &&& final(self).actors_model() == old(self).actors_model().insert(
                    key,
                    final(self).actors_model()[key],
                )
            },
    {
        let rq = match RioRq::created(answer.value) {
            Ok(rq) => rq,
            Err(error) => {
                return Err(RioFailure { error, code: Some(answer.error) });
            },
        };
        if self.actors.len() >= 0xffff_fffe {
            return Err(RioFailure { error: RioError::ResourceExhaustion, code: None });
        }
        let actor = RioSocketActor::new(handle, rq);
        let ghost made = actor;
        let key = self.actors.insert(actor);
        fx_insert(&mut self.actor_by_handle, handle, key);
        proof {
            assert(self.actors_model() =~= old(self).actors_model().insert(key, made.model()));
            assert forall|h: SocketKey| #[trigger]
                self.index().contains_key(h) implies actor_map(self.actors).contains_key(
                self.index()[h],
            ) && actor_map(self.actors)[self.index()[h]].handle == h by {
                if h != handle {
                    assert(old(self).index().contains_key(h));
                }
            }
        }
        Ok((key, rq))
    }

    /// The state without an actor: its socket is no longer indexed, if the index
    /// pointed to it.
    pub open spec fn without_actor(&self, after: &Self, key: ActorKey) -> bool {
        &&& after.actors_model() == self.actors_model().remove(key)
        &&& after.index() == (if self.actors_model().contains_key(key) && self.index().contains_key(
            self.actors_model()[key].handle,
        ) && self.index()[self.actors_model()[key].handle] == key {
            self.index().remove(self.actors_model()[key].handle)
        } else {
            self.index()
        })
    }

    /// Removes an actor.
    pub fn remove_actor_by_key(&mut self, key: ActorKey)
        requires
            old(self).wf(),
        ensures
            final(self).wf(),
            final(self).same_but_actors(old(self)),
            old(self).without_actor(final(self), key),
    {
        let ghost before = self.actors_model();
        let removed = self.actors.remove(key);
        match removed {
            Some(actor) => {
                if let Some(k) = fx_get(&self.actor_by_handle, actor.handle) {
                    if k == key {
                        let _ = fx_remove(&mut self.actor_by_handle, actor.handle);
                    }
                }
                assert(before[key] == actor.model());
            },
            None => {},
        }
        proof {
            assert(self.actors_model() =~= before.remove(key));
            assert forall|h: SocketKey| #[trigger]
                self.index().contains_key(h) implies actor_map(self.actors).contains_key(
                self.index()[h],
            ) && actor_map(self.actors)[self.index()[h]].handle == h by {
                assert(old(self).index().contains_key(h));
            }
        }
    }

    /// Ends the use of registered I/O for a socket: its actor drains, and is gone when
    /// it has nothing under way. The socket may use registered I/O again from the
    /// start. The buffers that the caller has to deregister come back.
    pub fn shutdown_actor(&mut self, handle: SocketKey) -> (released: Vec<RioBufferId>)
        requires
            old(self).wf(),
        ensures
            final(self).wf(),
            final(self).kernel == old(self).kernel,
            final(self).registry == old(self).registry,
            final(self).registration_mode == old(self).registration_mode,
            final(self).contexts == old(self).contexts,
            final(self).outstanding_count == old(self).outstanding_count,
            old(self).sockets.with(
                &final(self).sockets,
                handle,
                SocketRuntime {
                    fallback: false,
                    fallback_associated: false,
                    ..old(self).sockets.of(handle)
                },
            ),
            old(self).actors_state().socket_ended(
                final(self).actors_state(),
                old(self).kernel.dispatch,
                handle,
                released@,
            ),
    {
        let mut released: Vec<RioBufferId> = Vec::new();
        self.sockets.clear_iocp_fallback(handle);
        let ghost start = *self;
        let key = match fx_get(&self.actor_by_handle, handle) {
            Some(key) => key,
            None => {
                assert(self.index() =~= old(self).index().remove(handle));
                return released;
            },
        };
        assert(actor_map(self.actors).contains_key(key));
        assert(actor_map(self.actors)[key].pool_manager.wf());
        let ghost before = self.actors_model();
        let ghost all = actor_map(self.actors);
        let mut gone: bool = true;
        if self.kernel.dispatch {
            if let Some(actor) = self.actors.get_mut(key) {
                actor.state = RioActorState::Draining;
                if actor.pool_manager.pool.state != UdpPoolState::Uninitialized {
                    actor.pool_manager.shutdown_pool();
                    match actor.pool_manager.cleanup_drained_pool() {
                        Some(ids) => {
                            released = ids;
                        },
                        None => {
                            gone = false;
                        },
                    }
                }
            }
        }
        let _ = fx_remove(&mut self.actor_by_handle, handle);
        proof {
            let now = actor_map(self.actors)[key];
            assert(self.actors_model() =~= before.insert(key, now.model()));
        }
        if gone {
            let ghost mid = self.actors_model();
            let _ = self.actors.remove(key);
            assert(self.actors_model() =~= before.remove(key));
        }
        proof {
            assert forall|h: SocketKey| #[trigger]
                self.index().contains_key(h) implies actor_map(self.actors).contains_key(
                self.index()[h],
            ) && actor_map(self.actors)[self.index()[h]].handle == h by {
                assert(old(self).index().contains_key(h));
                assert(all[old(self).index()[h]].handle == h);
                assert(all[key].handle == handle);
            }
        }
        released
    }
}

/// The actors, and which of them takes the requests of each socket.
#[verifier::ext_equal]
pub struct ActorsModel {
    pub index: Map<SocketKey, ActorKey>,
    pub actors: Map<ActorKey, ActorModel>,
}

impl ActorsModel {
    /// What ending the use of registered I/O for the socket `handle` does. `released` are
    /// the buffers to deregister on that account.
    pub open spec fn socket_ended(
        self,
        after: ActorsModel,
        dispatch: bool,
        handle: SocketKey,
        released: Seq<RioBufferId>,
    ) -> bool {
        &&& after.index == self.index.remove(handle)
        &&& if self.index.contains_key(handle) {
            actor_shut_down(self.actors, after.actors, self.index[handle], dispatch, released)
        } else {
            after.actors == self.actors && released.len() == 0
        }
    }

    /// What ending the use of registered I/O for sockets does, one after the other.
    pub open spec fn sockets_ended(
        self,
        after: ActorsModel,
        dispatch: bool,
        handles: Seq<SocketKey>,
        released: Seq<RioBufferId>,
    ) -> bool
        decreases handles.len(),
    {
        if handles.len() == 0 {
            after == self && released.len() == 0
        } else {
            exists|mid: ActorsModel, last: Seq<RioBufferId>|
                {
                    let n = released.len() - last.len();
                    &&& #[trigger] mid.socket_ended(after, dispatch, handles.last(), last)
                    &&& 0 <= n && released.skip(n) == last
                    &&& self.sockets_ended(mid, dispatch, handles.drop_last(), released.take(n))
                }
        }
    }

    /// From ending the use of registered I/O for some sockets to ending it for one more.
    pub proof fn one_more_ended(
        self,
        mid: ActorsModel,
        after: ActorsModel,
        dispatch: bool,
        handles: Seq<SocketKey>,
        handle: SocketKey,
        first: Seq<RioBufferId>,
        last: Seq<RioBufferId>,
    )
        requires
            self.sockets_ended(mid, dispatch, handles, first),
            mid.socket_ended(after, dispatch, handle, last),
        ensures
            self.sockets_ended(after, dispatch, handles.push(handle), first + last),
    {
        let released = first + last;
        assert(handles.push(handle).drop_last() =~= handles);
        assert(mid.socket_ended(after, dispatch, handles.push(handle).last(), last));
        assert(released.take(released.len() - last.len()) =~= first);
        assert(released.skip(released.len() - last.len()) =~= last);
    }

    /// Ending the use of registered I/O for some sockets and then for others ends it for
    /// all of them.
    pub proof fn ended_in_turn(
        self,
        mid: ActorsModel,
        after: ActorsModel,
        dispatch: bool,
        handles: Seq<SocketKey>,
        others: Seq<SocketKey>,
        first: Seq<RioBufferId>,
        last: Seq<RioBufferId>,
    )
        requires
            self.sockets_ended(mid, dispatch, handles, first),
            mid.sockets_ended(after, dispatch, others, last),
        ensures
            self.sockets_ended(after, dispatch, handles + others, first + last),
        decreases others.len(),
    {
        if others.len() == 0 {
            assert(handles + others =~= handles);
            assert(first + last =~= first);
        } else {
            let front = others.drop_last();
            let (near, tail) = choose|near: ActorsModel, tail: Seq<RioBufferId>|
                {
                    let n = last.len() - tail.len();
                    &&& #[trigger] near.socket_ended(after, dispatch, others.last(), tail)
                    &&& 0 <= n && last.skip(n) == tail
                    &&& mid.sockets_ended(near, dispatch, front, last.take(n))
                };
            let head = last.take(last.len() - tail.len());
            self.ended_in_turn(mid, near, dispatch, handles, front, first, head);
            self.one_more_ended(
                near,
                after,
                dispatch,
                handles + front,
                others.last(),
                first + head,
                tail,
            );
            assert((handles + front).push(others.last()) =~= handles + others);
            assert((first + head) + tail =~= first + last);
        }
    }

    /// Actors of other sockets stay as they are.
    pub proof fn others_stay(
        self,
        after: ActorsModel,
        dispatch: bool,
        handles: Seq<SocketKey>,
        released: Seq<RioBufferId>,
        other: SocketKey,
    )
        requires
            self.sockets_ended(after, dispatch, handles, released),
            !handles.contains(other),
            forall|a: SocketKey, b: SocketKey|
                #![trigger self.index[a], self.index[b]]
                self.index.contains_key(a) && self.index.contains_key(b) && a != b
                    ==> self.index[a] != self.index[b],
        ensures
            after.index.contains_key(other) <==> self.index.contains_key(other),
            self.index.contains_key(other) ==> {
                &&& after.index[other] == self.index[other]
                &&& after.actors.contains_key(self.index[other]) <==> self.actors.contains_key(
                    self.index[other],
                )
                &&& after.actors[self.index[other]] == self.actors[self.index[other]]
            },
            forall|h: SocketKey| #[trigger]
                after.index.contains_key(h) ==> self.index.contains_key(h) && after.index[h]
                    == self.index[h],
        decreases handles.len(),
    {
        if handles.len() > 0 {
            let front = handles.drop_last();
            let (mid, last) = choose|mid: ActorsModel, last: Seq<RioBufferId>|
                {
                    let n = released.len() - last.len();
                    &&& #[trigger] mid.socket_ended(after, dispatch, handles.last(), last)
                    &&& 0 <= n && released.skip(n) == last
                    &&& self.sockets_ended(mid, dispatch, front, released.take(n))
                };
            let first = released.take(released.len() - last.len());
            assert(!front.contains(other)) by {
                if front.contains(other) {
                    assert(handles[front.index_of(other)] == other);
                }
            }
            assert(handles[handles.len() - 1] != other);
            self.others_stay(mid, dispatch, front, first, other);
        }
    }
}

/// What ending the use of registered I/O does to the actor `key`.
pub open spec fn actor_shut_down(
    before: Map<ActorKey, ActorModel>,
    after: Map<ActorKey, ActorModel>,
    key: ActorKey,
    dispatch: bool,
    released: Seq<RioBufferId>,
) -> bool {
    let pool = before[key].pool;
    if !dispatch || pool.state is Uninitialized {
        &&& after == before.remove(key)
        &&& released.len() == 0
    } else if pool.state is Closed {
        &&& after == before.remove(key)
        &&& pool.draining().registrations(released)
    } else {
        &&& after == before.insert(
            key,
            ActorModel { pool: pool.draining(), state: RioActorState::Draining, ..before[key] },
        )
        &&& released.len() == 0
    }
}

/// The actor of a socket that has just got its request queue.
pub open spec fn fresh_actor(a: ActorModel, handle: SocketKey, rq: RioRq) -> bool {
    &&& a.handle == handle
    &&& a.rq == rq
    &&& a.state is Active
    &&& a.pool == PoolModel::untouched()
}

} // verus!
