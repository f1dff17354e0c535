//! The end of registered I/O: what is outstanding is drained, and everything that was
//! registered is given back.
use vstd::prelude::*;
use crate::fxmap::{fx_clear, fx_new, no_entries};
use crate::iocp::error::RioError;
use super::actors::{actor_map, ActorModel, Actors};
use super::contexts::{RequestContexts, RioCompletionKind};
use super::control::{less_one, pool_done, pool_keeps, retired};
use super::kernel::{RioBufferId, RioCq, RioKernel, RioResult, RIO_CORRUPT_CQ};
use super::keys::{ActorKey, SlotKey};
use super::pool::PoolModel;
use super::pool_lifecycle::stopped;
use super::registry::RioRegistry;
use super::sockets::{SocketKey, SocketRuntime, Sockets};
use super::state::RioState;

verus! {

/// How long a state that was given up is drained in the background, in nanoseconds.
pub const RIO_REAPER_DRAIN_TIMEOUT: u64 = 5_000_000_000;

/// What to do next while requests are drained.
#[derive(Debug, Clone, Copy, PartialEq, Eq, Structural)]
pub enum DrainAction {
    /// Nothing is outstanding.
    Finished,
    /// Dequeue completions.
    Dequeue,
}

/// What a number of dequeued completions means while requests are drained.
#[derive(Debug, Clone, Copy, PartialEq, Eq, Structural)]
pub enum DrainBatch {
    /// There are none; give other threads a chance.
    Yield,
    /// They have to be processed.
    Process,
}

/// What is left to the caller when registered I/O has ended.
#[derive(Debug)]
pub struct FinalCleanup {
    /// Deregister these buffers.
    pub buffers: Vec<RioBufferId>,
    /// And these, which the receive pools had.
    pub pool_buffers: Vec<RioBufferId>,
    /// Close this queue.
    pub cq: Option<RioCq>,
}

/// What becomes of a state that is given up.
pub enum DropAction {
    /// It has ended.
    Ended(FinalCleanup),
    /// Requests are outstanding: a background thread has to drain and end this.
    Deferred(RioState),
}

/// What processing one completion does while requests are drained.
pub open spec fn drained_one(
    before: &RioState,
    after: &RioState,
    res: RioResult,
    released: Seq<RioBufferId>,
) -> bool {
    &&& after.kernel == before.kernel
    &&& after.registry == before.registry
    &&& after.registration_mode == before.registration_mode
    &&& after.sockets == before.sockets
    &&& before.contexts.closed(&after.contexts, res.request_context)
    &&& after.outstanding_count == less_one(before.outstanding_count)
    &&& match before.contexts.lookup(res.request_context) {
        Some(RioCompletionKind::Pool { actor_key, generation }) => pool_done(
            before,
            after,
            actor_key,
            generation,
            released,
        ),
        _ => {
            &&& after.actors_model() == before.actors_model()
            &&& after.index() == before.index()
            &&& released.len() == 0
        },
    }
}

/// What processing completions in order does while requests are drained.
pub open spec fn drained(
    before: RioState,
    after: RioState,
    results: Seq<RioResult>,
    released: Seq<RioBufferId>,
) -> bool
    decreases results.len(),
{
    if results.len() == 0 {
        &&& after == before
        &&& released.len() == 0
    } else {
        exists|mid: RioState, early: Seq<RioBufferId>, late: Seq<RioBufferId>|
            {
                &&& drained(before, mid, results.drop_last(), early)
                &&& #[trigger] drained_one(&mid, &after, results.last(), late)
                &&& #[trigger] joined(released, early, late)
            }
    }
}

/// `all` is `early` followed by `late`.
pub open spec fn joined(
    all: Seq<RioBufferId>,
    early: Seq<RioBufferId>,
    late: Seq<RioBufferId>,
) -> bool {
    all == early + late
}

/// One more completion.
proof fn draining_one_more(
    before: RioState,
    mid: RioState,
    after: RioState,
    results: Seq<RioResult>,
    early: Seq<RioBufferId>,
    late: Seq<RioBufferId>,
)
    requires
        results.len() > 0,
        drained(before, mid, results.drop_last(), early),
        drained_one(&mid, &after, results.last(), late),
    ensures
        drained(before, after, results, early + late),
{
    assert(joined(early + late, early, late));
}

/// The registrations of a pool are those that it keeps.
proof fn registrations_are_kept(pool: PoolModel, ids: Seq<RioBufferId>)
    requires
        pool.draining().registrations(ids),
    ensures
        forall|id: RioBufferId| #[trigger] ids.contains(id) <==> pool_keeps(pool, id),
{
    let d = pool.draining();
    let keys = choose|keys: Seq<SlotKey>| #[trigger]
        d.listed(keys) && ids == d.addr_bufs(keys) + (match d.slab {
            Some(slab) => seq![slab.rio_id],
            None => Seq::<RioBufferId>::empty(),
        });
    let tail = match d.slab {
        Some(slab) => seq![slab.rio_id],
        None => Seq::<RioBufferId>::empty(),
    };
    let head = d.addr_bufs(keys);
    assert(ids == head + tail);
    assert forall|id: RioBufferId| #[trigger] ids.contains(id) <==> pool_keeps(pool, id) by {
        if ids.contains(id) {
            let i = ids.index_of(id);
            if i < head.len() {
                let k = keys[i];
                assert(keys.contains(k));
                assert(keys.to_set().contains(k));
                assert(d.slots.contains_key(k));
                assert(pool.slots.contains_key(k));
                assert(d.slots[k] == stopped(pool.slots[k]));
                assert(pool.slots[k].addr_buf_id == id);
            } else {
                assert(tail[i - head.len()] == id);
            }
        }
        if pool_keeps(pool, id) {
            if pool.slab is Some && pool.slab->Some_0.rio_id == id {
                assert(tail[0] == id);
                assert(ids[head.len() as int] == id);
            } else {
                let k = choose|k: SlotKey| #[trigger]
                    pool.slots.contains_key(k) && pool.slots[k].addr_buf_id == id;
                assert(d.slots.contains_key(k));
                assert(d.slots[k] == stopped(pool.slots[k]));
                assert(keys.to_set().contains(k));
                let i = keys.index_of(k);
                assert(keys[i] == k);
                assert(head[i] == id);
                assert(ids[i] == id);
            }
        }
    }
}

impl RioState {
    /// Takes note of one completion while requests are drained.
    pub fn handle_drain_result(&mut self, res: &RioResult) -> (released: Vec<RioBufferId>)
        requires
            old(self).wf(),
        ensures
            final(self).wf(),
            drained_one(old(self), final(self), *res, released@),
    {
        let mut released: Vec<RioBufferId> = Vec::new();
        let ghost before = *self;
        if let Some(RioCompletionKind::Pool { actor_key, generation }) = self.contexts.close(
            res.request_context,
        ) {
            let (_, ids) = self.mark_pool_done(actor_key, generation);
            released = ids;
        }
        if self.outstanding_count > 0 {
            self.outstanding_count = self.outstanding_count - 1;
        }
        released
    }

    /// Takes note of completions while requests are drained.
    pub fn drain_batch(&mut self, results: &Vec<RioResult>) -> (released: Vec<RioBufferId>)
        requires
            old(self).wf(),
        ensures
            final(self).wf(),
            drained(*old(self), *final(self), results@, released@),
    {
        let mut released: Vec<RioBufferId> = Vec::new();
        let mut i: usize = 0;
        while i < results.len()
            invariant
                i <= results@.len(),
                self.wf(),
                drained(*old(self), *self, results@.take(i as int), released@),
            decreases results@.len() - i,
        {
            let ghost mid = *self;
            let ghost early = released@;
            let mut ids = self.handle_drain_result(&results[i]);
            let ghost late = ids@;
            released.append(&mut ids);
            proof {
                let more = results@.take(i + 1);
                assert(more.drop_last() =~= results@.take(i as int));
                assert(more.last() == results@[i as int]);
                assert(released@ =~= early + late);
                draining_one_more(*old(self), mid, *self, more, early, late);
            }
            i = i + 1;
        }
        assert(results@.take(i as int) =~= results@);
        released
    }

    /// What to do next while requests are drained: it ends when none is outstanding,
    /// and fails when the time is up.
    pub fn drain_action(&self, elapsed: u64, timeout: u64) -> (r: Result<DrainAction, RioError>)
        ensures
            r == (if self.outstanding_count == 0 {
                Ok::<DrainAction, RioError>(DrainAction::Finished)
            } else if elapsed >= timeout {
                Err(RioError::Internal)
            } else {
                Ok(DrainAction::Dequeue)
            }),
    {
        if self.outstanding_count == 0 {
            Ok(DrainAction::Finished)
        } else if elapsed >= timeout {
            Err(RioError::Internal)
        } else {
            Ok(DrainAction::Dequeue)
        }
    }

    /// What the number that `RIODequeueCompletion` gave back means while requests are
    /// drained.
    pub fn drain_dequeued(count: u32) -> (r: Result<DrainBatch, RioError>)
        ensures
            r == (if count == RIO_CORRUPT_CQ {
                Err::<DrainBatch, RioError>(RioError::Internal)
            } else if count == 0 {
                Ok(DrainBatch::Yield)
            } else {
                Ok(DrainBatch::Process)
            }),
    {
        if count == RIO_CORRUPT_CQ {
            Err(RioError::Internal)
        } else if count == 0 {
            Ok(DrainBatch::Yield)
        } else {
            Ok(DrainBatch::Process)
        }
    }

    /// Removes every actor. The registrations of closed receive pools come back; those
    /// of others stay with requests that may still be under way.
    pub fn shutdown_rio_actors(&mut self) -> (released: Vec<RioBufferId>)
        requires
            old(self).wf(),
        ensures
            final(self).wf(),
            final(self).kernel == old(self).kernel,
            final(self).registry == old(self).registry,
            final(self).registration_mode == old(self).registration_mode,
            final(self).contexts == old(self).contexts,
            final(self).outstanding_count == old(self).outstanding_count,
            no_entries(actor_map(final(self).actors)),
            no_entries(final(self).index()),
            forall|key: SocketKey| final(self).sockets.of(key) == SocketRuntime::unknown(),
            if old(self).kernel.dispatch {
                all_given_back(old(self).actors_model(), released@)
            } else {
                released@.len() == 0
            },
            forall|id: RioBufferId| #[trigger]
                released@.contains(id) <==> old(self).kernel.dispatch && closed_pool_keeps(
                    old(self).actors_model(),
                    id,
                ),
    {
        let mut released: Vec<RioBufferId> = Vec::new();
        if self.kernel.dispatch {
            let ghost all = actor_map(self.actors);
            let ghost models = self.actors_model();
            let keys = self.actors.keys();
            let mut i: usize = 0;
            assert(keys@.take(0) =~= Seq::<ActorKey>::empty());
            while i < keys.len()
                invariant
                    i <= keys@.len(),
                    models == old(self).actors_model(),
                    given_back(models, keys@.take(i as int), released@),
                    keys@.no_duplicates(),
                    forall|k: ActorKey| #[trigger] keys@.contains(k) <==> all.contains_key(k),
                    self.same_but_actors(old(self)),
                    old(self).wf(),
                    self.pools_wf(),
                    all == actor_map(old(self).actors),
                    actor_map(self.actors).dom() == all.dom(),
                    forall|j: int|
                        i <= j < keys@.len() ==> actor_map(self.actors)[#[trigger] keys@[j]]
                            == all[keys@[j]],
                    forall|id: RioBufferId| #[trigger]
                        released@.contains(id) <==> exists|j: int|
                            0 <= j < i && #[trigger] closed_keeps(all[keys@[j]].model(), id),
                decreases keys@.len() - i,
            {
                let key = keys[i];
                assert(keys@.contains(key));
                let ghost was = actor_map(self.actors);
                let ghost had = released@;
                let ghost mut got: Seq<RioBufferId> = Seq::empty();
                if let Some(actor) = self.actors.get_mut(key) {
                    assert(was.contains_key(key));
                    let ghost pool = actor.pool_manager.model();
                    if let Some(mut ids) = actor.pool_manager.forget_and_cleanup() {
                        proof {
                            got = ids@;
                            let p = PoolModel { tokens: Map::empty(), ..pool };
                            assert(p.draining().slots.dom() =~= pool.slots.dom());
                            same_listings(p.draining(), pool, got);
                            registrations_are_kept(p, got);
                            assert forall|id: RioBufferId| #[trigger]
                                got.contains(id) <==> pool_keeps(pool, id) by {
                                assert(pool_keeps(p, id) == pool_keeps(pool, id));
                            }
                        }
                        released.append(&mut ids);
                    }
                }
                proof {
                    assert(actor_map(self.actors).dom() =~= was.dom());
                    assert(released@ =~= had + got);
                    assert(keys@.take(i + 1).drop_last() =~= keys@.take(i as int));
                    giving_back_one_more(models, keys@.take(i + 1), had, got);
                    assert forall|id: RioBufferId| #[trigger] released@.contains(id) <==> exists|
                        j: int,
                    |
                        0 <= j < i + 1 && #[trigger] closed_keeps(all[keys@[j]].model(), id) by {
                        if released@.contains(id) {
                            let n = released@.index_of(id);
                            if n < had.len() {
                                assert(had[n] == id);
                                assert(had.contains(id));
                            } else {
                                assert(got[n - had.len()] == id);
                                assert(got.contains(id));
                                assert(closed_keeps(all[keys@[i as int]].model(), id));
                            }
                        }
                        if exists|j: int|
                            0 <= j < i + 1 && #[trigger] closed_keeps(all[keys@[j]].model(), id) {
                            let j = choose|j: int|
                                0 <= j < i + 1 && #[trigger] closed_keeps(
                                    all[keys@[j]].model(),
                                    id,
                                );
                            if j < i {
                                assert(had.contains(id));
                                assert(released@[had.index_of(id)] == id);
                            } else {
                                assert(got.contains(id));
                                assert(released@[had.len() + got.index_of(id)] == id);
                            }
                        }
                    }
                }
                i = i + 1;
            }
            proof {
                let actors = old(self).actors_model();
                assert(keys@.take(i as int) =~= keys@);
                assert(lists_all(actors, keys@));
                assert forall|id: RioBufferId| #[trigger]
                    released@.contains(id) <==> closed_pool_keeps(actors, id) by {
                    if released@.contains(id) {
                        let j = choose|j: int|
                            0 <= j < keys@.len() && #[trigger] closed_keeps(
                                all[keys@[j]].model(),
                                id,
                            );
                        assert(keys@.contains(keys@[j]));
                        assert(actors.contains_key(keys@[j]));
                        assert(closed_keeps(actors[keys@[j]], id));
                    }
                    if closed_pool_keeps(actors, id) {
                        let k = choose|k: ActorKey| #[trigger]
                            actors.contains_key(k) && closed_keeps(actors[k], id);
                        assert(keys@.contains(k));
                        let j = keys@.index_of(k);
                        assert(keys@[j] == k);
                        assert(closed_keeps(all[keys@[j]].model(), id));
                    }
                }
            }
        }
        self.actors.clear();
        fx_clear(&mut self.actor_by_handle);
        self.sockets.clear();
        released
    }

    /// Ends registered I/O, and gives what is left to the caller.
    pub fn finalize_cleanup(&mut self) -> (r: FinalCleanup)
        requires
            old(self).wf(),
        ensures
            final(self).wf(),
            no_entries(actor_map(final(self).actors)),
            no_entries(final(self).index()),
            forall|key: SocketKey| final(self).sockets.of(key) == SocketRuntime::unknown(),
            final(self).kernel == (RioKernel { cq: RioCq { id: 0 }, ..old(self).kernel }),
            final(self).registration_mode == old(self).registration_mode,
            final(self).contexts == old(self).contexts,
            final(self).outstanding_count == old(self).outstanding_count,
            if old(self).kernel.dispatch {
                old(self).registry.emptied(&final(self).registry)
            } else {
                final(self).registry == old(self).registry
            },
            r.cq == (if old(self).kernel.cq.id != 0 && old(self).kernel.dispatch {
                Some(old(self).kernel.cq)
            } else {
                None
            }),
            r.buffers@.no_duplicates(),
            forall|id: RioBufferId| #[trigger]
                r.buffers@.contains(id) <==> old(self).kernel.dispatch && id.id != 0 && old(
                    self,
                ).registry.keeps(id),
            if old(self).kernel.dispatch {
                all_given_back(old(self).actors_model(), r.pool_buffers@)
            } else {
                r.pool_buffers@.len() == 0
            },
            forall|id: RioBufferId| #[trigger]
                r.pool_buffers@.contains(id) <==> old(self).kernel.dispatch && closed_pool_keeps(
                    old(self).actors_model(),
                    id,
                ),
    {
        self.forget_udp_contexts();
        let ghost forgot = self.actors_model();
        let pool_buffers = self.shutdown_rio_actors();
        proof {
            let actors = old(self).actors_model();
            assert forall|id: RioBufferId| #[trigger]
                closed_pool_keeps(forgot, id) <==> closed_pool_keeps(actors, id) by {
                forgetting_keeps_registrations(actors, id);
            }
            if self.kernel.dispatch {
                forgetting_gives_back_the_same(actors, pool_buffers@);
            }
        }
        let buffers: Vec<RioBufferId> = if self.kernel.dispatch {
            self.registry.cleanup_deregister()
        } else {
            Vec::new()
        };
        let cq = self.kernel.close();
        FinalCleanup { buffers, pool_buffers, cq }
    }

    /// Moves everything that still has a queue out, to be drained and ended elsewhere.
    pub fn take_deferred(&mut self) -> (r: Option<RioState>)
        requires
            old(self).wf(),
        ensures
            final(self).wf(),
            old(self).kernel.cq.id == 0 ==> r is None && *final(self) == *old(self),
            old(self).kernel.cq.id != 0 ==> {
                &&& r matches Some(s)
                &&& s.wf()
                &&& s.kernel == old(self).kernel
                &&& s.registry == old(self).registry
                &&& s.registration_mode == old(self).registration_mode
                &&& s.actors == old(self).actors
                &&& s.actor_by_handle == old(self).actor_by_handle
                &&& s.contexts == old(self).contexts
                &&& s.outstanding_count == old(self).outstanding_count
                &&& final(self).kernel == (RioKernel { cq: RioCq { id: 0 }, dispatch: false })
                &&& no_entries(actor_map(final(self).actors))
                &&& no_entries(final(self).index())
                &&& forall|key: SocketKey| s.sockets.of(key) == SocketRuntime::unknown()
                &&& final(self).outstanding_count == 0
                &&& final(self).registry.fresh(32)
                &&& forall|ctx: u64| final(self).contexts.lookup(ctx) is None
                &&& final(self).contexts.has_room()
                &&& final(self).sockets == old(self).sockets
                &&& final(self).registration_mode == old(self).registration_mode
            },
    {
        if self.kernel.cq.id == 0 {
            return None;
        }
        let mut taken = RioState {
            kernel: RioKernel::noop(),
            registry: RioRegistry::new(32),
            registration_mode: self.registration_mode,
            actors: Actors::new(),
            actor_by_handle: fx_new(),
            sockets: Sockets::new(),
            contexts: RequestContexts::new(),
            outstanding_count: 0,
        };
        std::mem::swap(&mut self.kernel, &mut taken.kernel);
        std::mem::swap(&mut self.registry, &mut taken.registry);
        std::mem::swap(&mut self.actors, &mut taken.actors);
        std::mem::swap(&mut self.actor_by_handle, &mut taken.actor_by_handle);
        std::mem::swap(&mut self.contexts, &mut taken.contexts);
        std::mem::swap(&mut self.outstanding_count, &mut taken.outstanding_count);
        Some(taken)
    }

    /// Gives the state up. It ends at once when nothing is outstanding; otherwise a
    /// background thread has to drain it.
    pub fn on_drop(&mut self) -> (r: DropAction)
        requires
            old(self).wf(),
        ensures
            final(self).wf(),
            r is Deferred <==> old(self).outstanding_count > 0 && old(self).kernel.cq.id != 0,
            r matches DropAction::Deferred(s) ==> {
                &&& s.wf()
                &&& s.kernel == old(self).kernel
                &&& s.registry == old(self).registry
                &&& s.registration_mode == old(self).registration_mode
                &&& s.contexts == old(self).contexts
                &&& s.outstanding_count == old(self).outstanding_count
                &&& no_entries(s.index())
                &&& final(self).kernel == (RioKernel { cq: RioCq { id: 0 }, dispatch: false })
                &&& no_entries(actor_map(final(self).actors))
                &&& no_entries(final(self).index())
                &&& final(self).outstanding_count == 0
                &&& final(self).registry.fresh(32)
                &&& forall|ctx: u64| final(self).contexts.lookup(ctx) is None
                &&& final(self).sockets == old(self).sockets
                &&& final(self).registration_mode == old(self).registration_mode
                &&& forall|key: SocketKey| s.sockets.of(key) == SocketRuntime::unknown()
                &&& s.actors_model() == old(self).actors_model().map_values(
                    |a: ActorModel| retired(a),
                )
            },
            r matches DropAction::Ended(end) ==> {
                &&& no_entries(actor_map(final(self).actors))
                &&& no_entries(final(self).index())
                &&& forall|key: SocketKey| final(self).sockets.of(key) == SocketRuntime::unknown()
                &&& final(self).kernel == (RioKernel { cq: RioCq { id: 0 }, ..old(self).kernel })
                &&& final(self).registration_mode == old(self).registration_mode
                &&& final(self).contexts == old(self).contexts
                &&& final(self).outstanding_count == old(self).outstanding_count
                &&& if old(self).kernel.dispatch {
                    old(self).registry.emptied(&final(self).registry)
                } else {
                    final(self).registry == old(self).registry
                }
                &&& end.buffers@.no_duplicates()
                &&& if old(self).kernel.dispatch {
                    all_given_back(
                        old(self).actors_model().map_values(|a: ActorModel| retired(a)),
                        end.pool_buffers@,
                    )
                } else {
                    end.pool_buffers@.len() == 0
                }
                &&& forall|id: RioBufferId| #[trigger]
                    end.pool_buffers@.contains(id) <==> old(self).kernel.dispatch
                        && closed_pool_keeps(
                        old(self).actors_model().map_values(|a: ActorModel| retired(a)),
                        id,
                    )
                &&& end.cq == (if old(self).kernel.cq.id != 0 && old(self).kernel.dispatch {
                    Some(old(self).kernel.cq)
                } else {
                    None
                })
                &&& forall|id: RioBufferId| #[trigger]
                    end.buffers@.contains(id) <==> old(self).kernel.dispatch && id.id != 0 && old(
                        self,
                    ).registry.keeps(id)
            },
    {
        self.begin_shutdown();
        if self.outstanding_count == 0 {
            return DropAction::Ended(self.finalize_cleanup());
        }
        match self.take_deferred() {
            Some(task) => DropAction::Deferred(task),
            None => DropAction::Ended(self.finalize_cleanup()),
        }
    }
}

/// `keys` lists every actor, each once.
pub open spec fn lists_all(actors: Map<ActorKey, ActorModel>, keys: Seq<ActorKey>) -> bool {
    &&& keys.no_duplicates()
    &&& forall|k: ActorKey| #[trigger] keys.contains(k) <==> actors.contains_key(k)
}

/// `released` are the registrations of the closed pools among those of the actors
/// `keys`, pool after pool.
pub open spec fn given_back(
    actors: Map<ActorKey, ActorModel>,
    keys: Seq<ActorKey>,
    released: Seq<RioBufferId>,
) -> bool
    decreases keys.len(),
{
    if keys.len() == 0 {
        released.len() == 0
    } else {
        exists|ids: Seq<RioBufferId>|
            {
                let n = released.len() - ids.len();
                &&& #[trigger] closed_registrations(actors[keys.last()].pool, ids)
                &&& 0 <= n && released.skip(n) == ids
                &&& given_back(actors, keys.drop_last(), released.take(n))
            }
    }
}

/// The registrations of the pool if it is closed, else none.
pub open spec fn closed_registrations(pool: PoolModel, ids: Seq<RioBufferId>) -> bool {
    if pool.state is Closed {
        pool.registrations(ids)
    } else {
        ids.len() == 0
    }
}

/// `released` are the registrations of the closed pools of all actors, pool after pool,
/// in some order of the actors.
pub open spec fn all_given_back(
    actors: Map<ActorKey, ActorModel>,
    released: Seq<RioBufferId>,
) -> bool {
    exists|keys: Seq<ActorKey>| #[trigger]
        lists_all(actors, keys) && given_back(actors, keys, released)
}

/// From all but the last actor to all.
proof fn giving_back_one_more(
    actors: Map<ActorKey, ActorModel>,
    keys: Seq<ActorKey>,
    had: Seq<RioBufferId>,
    ids: Seq<RioBufferId>,
)
    requires
        keys.len() > 0,
        given_back(actors, keys.drop_last(), had),
        closed_registrations(actors[keys.last()].pool, ids),
    ensures
        given_back(actors, keys, had + ids),
{
    let all = had + ids;
    assert(all.skip(had.len() as int) =~= ids);
    assert(all.take(had.len() as int) =~= had);
    assert(closed_registrations(actors[keys.last()].pool, ids));
}

/// Pools with the same address buffers and the same memory have the same registrations.
proof fn same_listings(pool: PoolModel, other: PoolModel, ids: Seq<RioBufferId>)
    requires
        pool.slots.dom() == other.slots.dom(),
        forall|k: SlotKey| #[trigger]
            pool.slots.contains_key(k) ==> pool.slots[k].addr_buf_id == other.slots[k].addr_buf_id,
        pool.slab is Some <==> other.slab is Some,
        pool.slab is Some ==> pool.slab->Some_0.rio_id == other.slab->Some_0.rio_id,
        pool.registrations(ids),
    ensures
        other.registrations(ids),
{
    let keys = choose|keys: Seq<SlotKey>| #[trigger]
        pool.listed(keys) && ids == pool.addr_bufs(keys) + (match pool.slab {
            Some(slab) => seq![slab.rio_id],
            None => Seq::<RioBufferId>::empty(),
        });
    assert(other.listed(keys));
    assert forall|j: int| 0 <= j < keys.len() implies pool.slots.contains_key(#[trigger] keys[j]) by {
        assert(keys.to_set().contains(keys[j]));
    }
    assert(other.addr_bufs(keys) =~= pool.addr_bufs(keys));
}

/// Forgetting requests changes nothing about what is given back.
proof fn forgetting_gives_back_the_same(
    actors: Map<ActorKey, ActorModel>,
    released: Seq<RioBufferId>,
)
    requires
        all_given_back(
            actors.map_values(|a: ActorModel| super::control::forgotten(a)),
            released,
        ),
    ensures
        all_given_back(actors, released),
{
    let f = actors.map_values(|a: ActorModel| super::control::forgotten(a));
    let keys = choose|keys: Seq<ActorKey>| #[trigger]
        lists_all(f, keys) && given_back(f, keys, released);
    assert forall|k: ActorKey| #[trigger] keys.contains(k) <==> actors.contains_key(k) by {
        assert(keys.contains(k) <==> f.contains_key(k));
    }
    assert(lists_all(actors, keys));
    assert forall|j: int| 0 <= j < keys.len() implies actors.contains_key(#[trigger] keys[j]) by {
        assert(keys.contains(keys[j]));
    }
    forgotten_pools_give_back_the_same(actors, keys, released);
}

proof fn forgotten_pools_give_back_the_same(
    actors: Map<ActorKey, ActorModel>,
    keys: Seq<ActorKey>,
    released: Seq<RioBufferId>,
)
    requires
        forall|j: int| 0 <= j < keys.len() ==> actors.contains_key(#[trigger] keys[j]),
        given_back(
            actors.map_values(|a: ActorModel| super::control::forgotten(a)),
            keys,
            released,
        ),
    ensures
        given_back(actors, keys, released),
    decreases keys.len(),
{
    if keys.len() > 0 {
        let f = actors.map_values(|a: ActorModel| super::control::forgotten(a));
        let k = keys.last();
        let ids = choose|ids: Seq<RioBufferId>|
            {
                let n = released.len() - ids.len();
                &&& #[trigger] closed_registrations(f[k].pool, ids)
                &&& 0 <= n && released.skip(n) == ids
                &&& given_back(f, keys.drop_last(), released.take(n))
            };
        forgotten_pools_give_back_the_same(
            actors,
            keys.drop_last(),
            released.take(released.len() - ids.len()),
        );
        if f[k].pool.state is Closed {
            same_listings(f[k].pool, actors[k].pool, ids);
        }
        assert(closed_registrations(actors[k].pool, ids));
    }
}

/// The pool of the actor is closed and keeps the registration `id`.
pub open spec fn closed_keeps(a: ActorModel, id: RioBufferId) -> bool {
    a.pool.state is Closed && pool_keeps(a.pool, id)
}

/// Some closed pool keeps the registration `id`.
pub open spec fn closed_pool_keeps(actors: Map<ActorKey, ActorModel>, id: RioBufferId) -> bool {
    exists|k: ActorKey| #[trigger] actors.contains_key(k) && closed_keeps(actors[k], id)
}

/// Forgetting requests changes nothing about registrations.
proof fn forgetting_keeps_registrations(actors: Map<ActorKey, ActorModel>, id: RioBufferId)
    ensures
        closed_pool_keeps(
            actors.map_values(|a: ActorModel| super::control::forgotten(a)),
            id,
        ) <==> closed_pool_keeps(actors, id),
{
    let f = actors.map_values(|a: ActorModel| super::control::forgotten(a));
    if closed_pool_keeps(f, id) {
        let k = choose|k: ActorKey| #[trigger] f.contains_key(k) && closed_keeps(f[k], id);
        assert(actors.contains_key(k));
        same_registrations(actors[k].pool, id);
        assert(closed_keeps(actors[k], id));
    }
    if closed_pool_keeps(actors, id) {
        let k = choose|k: ActorKey| #[trigger]
            actors.contains_key(k) && closed_keeps(actors[k], id);
        assert(f.contains_key(k));
        same_registrations(actors[k].pool, id);
        assert(closed_keeps(f[k], id));
    }
}

proof fn same_registrations(pool: PoolModel, id: RioBufferId)
    ensures
        pool_keeps(PoolModel { tokens: Map::empty(), ..pool }, id) == pool_keeps(pool, id),
{
    let p = PoolModel { tokens: Map::empty(), ..pool };
    assert(p.slots == pool.slots);
    assert(p.slab == pool.slab);
    assert(pool_keeps(p, id) == pool_keeps(pool, id));
}

} // verus!
