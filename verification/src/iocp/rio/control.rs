//! Completions of registered I/O, and the end of its actors.
use vstd::prelude::*;
use crate::completion::{event_res, io_result_to_event_res};
use crate::fxmap::{fx_clear, fx_get, no_entries};
use crate::iocp::error::RioError;
use crate::iocp::table::{OpTable, TableModel};
use crate::iocp::win32::SOCKET_ERROR;
use crate::slots::SlotState;
use crate::sockaddr::SocketAddr;
use super::actors::{actor_map, ActorModel, RioActorState};
use super::contexts::RioCompletionKind;
use super::kernel::{RioBufferId, RioResult, RioRq, MAX_RIO_RESULTS, RIO_CORRUPT_CQ};
use super::keys::{ActorKey, SlotKey};
use super::pool::{Answer, PoolModel, UDP_RECV_POOL_SLAB_CHUNKS};
use super::pool_delivery::without_waiter;
use super::pool_steps::{runs_by_itself, PoolStep, PoolTask};
use super::sockets::SocketKey;
use super::state::RioState;

verus! {

/// The outcome of a request: the number of bytes, or the system's error.
pub open spec fn rio_outcome(res: RioResult) -> Result<usize, Option<i32>> {
    if res.status == 0 {
        Ok(res.bytes_transferred as usize)
    } else {
        Err(Some(res.status))
    }
}

/// Turns the outcome of a request into an event result.
pub fn rio_result_to_event_res(res: &Result<usize, Option<i32>>) -> (r: i32)
    requires
        *res matches Err(Some(code)) ==> code > i32::MIN,
    ensures
        r == event_res(*res),
{
    io_result_to_event_res(res)
}

impl<P> TableModel<P> {
    /// What the completion of a request does to the operation it was made for, and
    /// whether it counts. An operation that is waited for ends with the outcome; one
    /// that was cancelled ends without a word. The completion of an earlier use of the
    /// slot does nothing and does not count.
    pub open spec fn rio_completed(self, user_data: usize, generation: u32, res: RioResult) -> (
        TableModel<P>,
        bool,
    ) {
        let i = user_data as int;
        let current = self.slots[i].platform.generation == generation;
        if self.in_state(i, SlotState::InFlightWaiting) {
            if current {
                (self.ended(i, generation, event_res(rio_outcome(res)) as i32, None), true)
            } else {
                (self, false)
            }
        } else if self.in_state(i, SlotState::InFlightOrphaned) {
            if current {
                (self.freed(i), true)
            } else {
                (self, false)
            }
        } else {
            (self, true)
        }
    }
}

/// One less, but not below 0.
pub open spec fn less_one(n: usize) -> usize {
    (if n == 0 {
        0
    } else {
        n - 1
    }) as usize
}

/// Where the processing of a completion stands.
#[derive(Debug)]
pub enum OneStep {
    /// It is processed; `completed` says whether it counts.
    Handled { completed: bool },
    /// The receive pool of an actor goes on with it.
    Pool { actor: ActorKey, step: PoolStep },
}

/// What to do with a batch of dequeued completions.
#[derive(Debug, Clone, Copy, PartialEq, Eq, Structural)]
pub enum Batch {
    /// There are none.
    Empty,
    /// Process them; no more are there.
    Last,
    /// Process them, and dequeue again.
    More,
}

/// What the number that `RIODequeueCompletion` gave back means.
pub fn batch_of(count: u32) -> (r: Result<Batch, RioError>)
    ensures
        r == (if count == RIO_CORRUPT_CQ {
            Err::<Batch, RioError>(RioError::Internal)
        } else if count == 0 {
            Ok(Batch::Empty)
        } else if count < MAX_RIO_RESULTS {
            Ok(Batch::Last)
        } else {
            Ok(Batch::More)
        }),
{
    if count == RIO_CORRUPT_CQ {
        Err(RioError::Internal)
    } else if count == 0 {
        Ok(Batch::Empty)
    } else if count < MAX_RIO_RESULTS {
        Ok(Batch::Last)
    } else {
        Ok(Batch::More)
    }
}

/// The pool keeps the registration `id`.
pub open spec fn pool_keeps(pool: PoolModel, id: RioBufferId) -> bool {
    ||| pool.slab matches Some(slab) && slab.rio_id == id
    ||| exists|k: SlotKey| #[trigger]
        pool.slots.contains_key(k) && pool.slots[k].addr_buf_id == id
}

/// An actor that makes no more requests.
pub open spec fn retired(a: ActorModel) -> ActorModel {
    ActorModel { pool: a.pool.draining(), state: RioActorState::Draining, ..a }
}

impl RioState {
    /// Nothing but completions under way and counts differs.
    pub open spec fn same_but_counts(&self, before: &Self) -> bool {
        &&& self.kernel == before.kernel
        &&& self.registry == before.registry
        &&& self.registration_mode == before.registration_mode
        &&& self.sockets == before.sockets
        &&& self.actors == before.actors
        &&& self.actor_by_handle == before.actor_by_handle
        &&& self.contexts == before.contexts
    }

    /// Takes note of the completion of a request that was made for an operation, and
    /// says whether it counts.
    pub fn handle_op_completion<P>(
        &mut self,
        table: &mut OpTable<P>,
        user_data: usize,
        generation: u32,
        res: &RioResult,
    ) -> (completed: bool)
        requires
            old(self).wf(),
            old(table).wf(),
            res.status > i32::MIN,
        ensures
            final(self).wf(),
            final(table).wf(),
            final(self).same_but_counts(old(self)),
            (final(table).model(), completed) == old(table).model().rio_completed(
                user_data,
                generation,
                *res,
            ),
            final(self).outstanding_count == (if completed {
                less_one(old(self).outstanding_count)
            } else {
                old(self).outstanding_count
            }),
    {
        match table.ops.state(user_data) {
            Some(SlotState::InFlightWaiting) => {
                if table.ops.slots[user_data].platform.generation != generation {
                    return false;
                }
                let outcome: Result<usize, Option<i32>> = if res.status == 0 {
                    Ok(res.bytes_transferred as usize)
                } else {
                    Err(Some(res.status))
                };
                let code = rio_result_to_event_res(&outcome);
                table.end_op(user_data, generation, code, None);
            },
            Some(SlotState::InFlightOrphaned) => {
                if table.ops.slots[user_data].platform.generation != generation {
                    return false;
                }
                table.free_op(user_data);
            },
            _ => {},
        }
        if self.outstanding_count > 0 {
            self.outstanding_count = self.outstanding_count - 1;
        }
        true
    }

    /// Takes note of one completion. Its context is closed. `peer` is the sender's
    /// address that the kernel wrote, where it wrote one.
    pub fn handle_one<P>(&mut self, table: &mut OpTable<P>, res: &RioResult, peer: SocketAddr) -> (r:
        OneStep)
        requires
            old(self).wf(),
            old(table).wf(),
            res.status > i32::MIN,
        ensures
            final(self).wf(),
            final(table).wf(),
            final(self).kernel == old(self).kernel,
            final(self).registry == old(self).registry,
            final(self).registration_mode == old(self).registration_mode,
            final(self).sockets == old(self).sockets,
            final(self).index() == old(self).index(),
            old(self).contexts.closed(&final(self).contexts, res.request_context),
            match old(self).contexts.lookup(res.request_context) {
                None => {
                    &&& r == (OneStep::Handled { completed: false })
                    &&& final(table).model() == old(table).model()
                    &&& final(self).actors_model() == old(self).actors_model()
                    &&& final(self).outstanding_count == old(self).outstanding_count
                },
                Some(RioCompletionKind::Op { user_data, generation }) => {
                    let (t, completed) = old(table).model().rio_completed(
                        user_data,
                        generation,
                        *res,
                    );
                    &&& r == (OneStep::Handled { completed })
                    &&& final(table).model() == t
                    &&& final(self).actors_model() == old(self).actors_model()
                    &&& final(self).outstanding_count == (if completed {
                        less_one(old(self).outstanding_count)
                    } else {
                        old(self).outstanding_count
                    })
                },
                Some(RioCompletionKind::Pool { actor_key, generation }) => {
                    let actors = old(self).actors_model();
                    &&& final(self).outstanding_count == old(self).outstanding_count
                    &&& if !actors.contains_key(actor_key)
                        || !actors[actor_key].pool.tokens.contains_key(generation) {
                        &&& r == (OneStep::Handled { completed: false })
                        &&& final(table).model() == old(table).model()
                        &&& final(self).actors_model() == actors
                    } else {
                        let (m, t, todo) = actors[actor_key].pool.completed(
                            old(table).model(),
                            generation,
                            *res,
                            peer,
                        );
                        &&& final(self).actors_model() == actors.insert(
                            actor_key,
                            ActorModel { pool: m, ..actors[actor_key] },
                        )
                        &&& final(table).model() == t
                        &&& r matches OneStep::Pool { actor, step }
                        &&& actor == actor_key
                        &&& step.fits(m)
                        &&& match todo {
                            Ok(todo) => step matches PoolStep::Next { task } && task.todo@ == todo
                                && task.untouched(),
                            Err(e) => step matches PoolStep::Failed { failure, task } && failure
                                == e && task.untouched(),
                        }
                    }
                },
            },
    {
        let ghost before = self.actors_model();
        let ghost all = actor_map(self.actors);
        match self.contexts.close(res.request_context) {
            None => OneStep::Handled { completed: false },
            Some(RioCompletionKind::Op { user_data, generation }) => {
                let completed = self.handle_op_completion(table, user_data, generation, res);
                OneStep::Handled { completed }
            },
            Some(RioCompletionKind::Pool { actor_key, generation }) => {
                let r = match self.actors.get_mut(actor_key) {
                    None => None,
                    Some(actor) => {
                        assert(all.contains_key(actor_key));
                        actor.pool_manager.handle_completion(table, generation, res, peer)
                    },
                };
                proof {
                    if all.contains_key(actor_key) {
                        let now = actor_map(self.actors)[actor_key];
                        assert(self.actors_model() =~= before.insert(actor_key, now.model()));
                        if !before[actor_key].pool.tokens.contains_key(generation) {
                            assert(now.model() == before[actor_key]);
                            assert(self.actors_model() =~= before);
                        }
                    } else {
                        assert(self.actors_model() =~= before);
                    }
                    self.index_survives(*old(self), actor_key);
                }
                match r {
                    None => OneStep::Handled { completed: false },
                    Some(step) => OneStep::Pool { actor: actor_key, step },
                }
            },
        }
    }

    /// Changing one actor, but not its socket, keeps the index in order.
    pub(crate) proof fn index_survives(&self, before: Self, key: ActorKey)
        requires
            before.wf(),
            self.index() == before.index(),
            actor_map(self.actors) == actor_map(before.actors) || (actor_map(
                before.actors,
            ).contains_key(key) && actor_map(self.actors) == actor_map(before.actors).insert(
                key,
                actor_map(self.actors)[key],
            ) && actor_map(self.actors)[key].handle == actor_map(before.actors)[key].handle
                && actor_map(self.actors)[key].pool_manager.wf()),
        ensures
            self.index_wf(),
            self.pools_wf(),
    {
        assert forall|h: SocketKey| #[trigger]
            self.index().contains_key(h) implies actor_map(self.actors).contains_key(
            self.index()[h],
        ) && actor_map(self.actors)[self.index()[h]].handle == h by {
            assert(before.index().contains_key(h));
        }
    }

    /// Lets the receive pool of an actor go on with its next piece of work.
    pub fn pool_advance<P>(&mut self, actor: ActorKey, task: PoolTask, table: &mut OpTable<P>) -> (step:
        PoolStep)
        requires
            old(self).wf(),
            old(table).wf(),
            old(self).actors_model().contains_key(actor),
            task.fits(old(self).actors_model()[actor].pool),
            task.todo@.len() > 0 ==> runs_by_itself(task.todo@.last()),
        ensures
            final(self).wf(),
            final(table).wf(),
            final(self).kernel == old(self).kernel,
            final(self).registry == old(self).registry,
            final(self).registration_mode == old(self).registration_mode,
            final(self).sockets == old(self).sockets,
            final(self).index() == old(self).index(),
            final(self).outstanding_count == old(self).outstanding_count,
            final(self).actors_model().contains_key(actor),
            final(self).actors_model() == old(self).actors_model().insert(
                actor,
                ActorModel {
                    pool: final(self).actors_model()[actor].pool,
                    ..old(self).actors_model()[actor]
                },
            ),
            step.fits(final(self).actors_model()[actor].pool),
            old(self).actors_model()[actor].pool.advanced(
                final(self).actors_model()[actor].pool,
                old(table).model(),
                final(table).model(),
                &old(self).contexts,
                &final(self).contexts,
                actor,
                &task,
                step,
            ),
    {
        let ghost before = self.actors_model();
        let ghost all = actor_map(self.actors);
        assert(all.contains_key(actor));
        match self.actors.get_mut(actor) {
            Some(a) => {
                let step = a.pool_manager.advance(task, actor, &mut self.contexts, table);
                proof {
                    let now = actor_map(self.actors)[actor];
                    assert(self.actors_model() =~= before.insert(actor, now.model()));
                    self.index_survives(*old(self), actor);
                }
                step
            },
            None => PoolStep::Done { task },
        }
    }

    /// Lets the receive pool of an actor go on with an answer.
    pub fn pool_answer(&mut self, actor: ActorKey, task: PoolTask, answer: Answer) -> (step: PoolStep)
        requires
            old(self).wf(),
            old(self).actors_model().contains_key(actor),
            task.fits(old(self).actors_model()[actor].pool),
            task.todo@.len() > 0,
            !runs_by_itself(task.todo@.last()),
            task.submissions < usize::MAX,
        ensures
            final(self).wf(),
            final(self).kernel == old(self).kernel,
            final(self).registry == old(self).registry,
            final(self).registration_mode == old(self).registration_mode,
            final(self).sockets == old(self).sockets,
            final(self).index() == old(self).index(),
            final(self).outstanding_count == old(self).outstanding_count,
            final(self).actors_model().contains_key(actor),
            final(self).actors_model() == old(self).actors_model().insert(
                actor,
                ActorModel {
                    pool: final(self).actors_model()[actor].pool,
                    ..old(self).actors_model()[actor]
                },
            ),
            step.fits(final(self).actors_model()[actor].pool),
            old(self).actors_model()[actor].pool.answered(
                final(self).actors_model()[actor].pool,
                &old(self).contexts,
                &final(self).contexts,
                actor,
                &task,
                answer,
                step,
            ),
    {
        let ghost before = self.actors_model();
        let ghost all = actor_map(self.actors);
        assert(all.contains_key(actor));
        match self.actors.get_mut(actor) {
            Some(a) => {
                let step = a.pool_manager.answer(task, answer, actor, &mut self.contexts);
                proof {
                    let now = actor_map(self.actors)[actor];
                    assert(self.actors_model() =~= before.insert(actor, now.model()));
                    self.index_survives(*old(self), actor);
                }
                step
            },
            None => PoolStep::Done { task },
        }
    }

    /// Ends the processing of a completion of a receive pool: a pool that is closed is
    /// emptied and its actor is gone. One request less is outstanding, and as many more
    /// as were made.
    pub fn finish_pool_completion(&mut self, actor: ActorKey, submissions: usize) -> (released: Vec<
        RioBufferId,
    >)
        requires
            old(self).wf(),
            old(self).outstanding_count + submissions <= usize::MAX,
        ensures
            final(self).wf(),
            final(self).kernel == old(self).kernel,
            final(self).registry == old(self).registry,
            final(self).registration_mode == old(self).registration_mode,
            final(self).sockets == old(self).sockets,
            final(self).contexts == old(self).contexts,
            final(self).outstanding_count == less_one(old(self).outstanding_count) + submissions,
            if old(self).actors_model().contains_key(actor)
                && old(self).actors_model()[actor].pool.state is Closed {
                &&& old(self).without_actor(final(self), actor)
                &&& old(self).actors_model()[actor].pool.registrations(released@)
            } else {
                &&& final(self).actors_model() == old(self).actors_model()
                &&& final(self).index() == old(self).index()
                &&& released@.len() == 0
            },
    {
        let mut released: Vec<RioBufferId> = Vec::new();
        let mut gone: bool = false;
        let ghost before = self.actors_model();
        let ghost all = actor_map(self.actors);
        if let Some(a) = self.actors.get_mut(actor) {
            assert(all.contains_key(actor));
            if let Some(ids) = a.pool_manager.cleanup_drained_pool() {
                released = ids;
                gone = true;
            }
        }
        proof {
            if all.contains_key(actor) {
                let now = actor_map(self.actors)[actor];
                assert(self.actors_model() =~= before.insert(actor, now.model()));
                if !gone {
                    assert(self.actors_model() =~= before);
                }
            } else {
                assert(self.actors_model() =~= before);
            }
            self.index_survives(*old(self), actor);
        }
        if gone {
            let ghost mid = *self;
            self.remove_actor_by_key(actor);
            assert(self.actors_model() =~= before.remove(actor));
        }
        if self.outstanding_count > 0 {
            self.outstanding_count = self.outstanding_count - 1;
        }
        self.outstanding_count = self.outstanding_count + submissions;
        released
    }

    /// Ends a round of processing: `notified` is the answer of `RIONotify`. When no
    /// request is outstanding, the registrations that waited for it are handed to the
    /// caller for deregistration.
    pub fn finish_processing(&mut self, notified: i32) -> (r: Result<Vec<RioBufferId>, RioError>)
        requires
            old(self).wf(),
        ensures
            final(self).wf(),
            final(self).same_but_registry(old(self)),
            if notified == SOCKET_ERROR {
                &&& r == Err::<Vec<RioBufferId>, RioError>(RioError::Datapath)
                &&& final(self).registry == old(self).registry
            } else if old(self).outstanding_count == 0 {
                &&& r matches Ok(ids)
                &&& ids@ == old(self).registry.pending_deregistrations@
                &&& old(self).registry.flushed(&final(self).registry)
            } else {
                &&& r matches Ok(ids)
                &&& ids@.len() == 0
                &&& final(self).registry == old(self).registry
            },
    {
        if notified == SOCKET_ERROR {
            return Err(RioError::Datapath);
        }
        if self.outstanding_count == 0 {
            return Ok(self.registry.flush_deregs());
        }
        Ok(Vec::new())
    }

    /// Nothing but registrations differs.
    pub open spec fn same_but_registry(&self, before: &Self) -> bool {
        &&& self.kernel == before.kernel
        &&& self.registration_mode == before.registration_mode
        &&& self.sockets == before.sockets
        &&& self.actors == before.actors
        &&& self.actor_by_handle == before.actor_by_handle
        &&& self.contexts == before.contexts
        &&& self.outstanding_count == before.outstanding_count
    }

    /// Retires every actor: none of them makes another request, and no socket has one.
    pub fn begin_shutdown(&mut self)
        requires
            old(self).wf(),
        ensures
            final(self).wf(),
            final(self).same_but_actors(old(self)),
            no_entries(final(self).index()),
            final(self).actors_model() == old(self).actors_model().map_values(
                |a: ActorModel| retired(a),
            ),
    {
        let ghost before = self.actors_model();
        let ghost all = actor_map(self.actors);
        let keys = self.actors.keys();
        let mut i: usize = 0;
        while i < keys.len()
            invariant
                i <= keys@.len(),
                keys@.no_duplicates(),
                forall|k: ActorKey| #[trigger] keys@.contains(k) <==> all.contains_key(k),
                self.same_but_actors(old(self)),
                old(self).wf(),
                self.pools_wf(),
                actor_map(self.actors).dom() == all.dom(),
                before == old(self).actors_model(),
                all == actor_map(old(self).actors),
                forall|j: int|
                    0 <= j < i ==> actor_map(self.actors)[#[trigger] keys@[j]].model() == retired(
                        before[keys@[j]],
                    ),
                forall|j: int|
                    i <= j < keys@.len() ==> actor_map(self.actors)[#[trigger] keys@[j]]
                        == all[keys@[j]],
            decreases keys@.len() - i,
        {
            let key = keys[i];
            assert(keys@.contains(key));
            let ghost was = actor_map(self.actors);
            if let Some(actor) = self.actors.get_mut(key) {
                assert(was.contains_key(key));
                actor.pool_manager.shutdown_pool();
                actor.state = RioActorState::Draining;
            }
            assert(actor_map(self.actors).dom() =~= was.dom());
            assert(actor_map(self.actors)[key].model() == retired(before[key]));
            i = i + 1;
        }
        fx_clear(&mut self.actor_by_handle);
        proof {
            let after = before.map_values(|a: ActorModel| retired(a));
            assert forall|k: ActorKey| #[trigger]
                self.actors_model().contains_key(k) implies self.actors_model()[k] == after[k] by {
                assert(keys@.contains(k));
                let j = keys@.index_of(k);
                assert(keys@[j] == k);
            }
            assert(self.actors_model() =~= after);
        }
    }

    /// Forgets the requests of every receive pool.
    pub fn forget_udp_contexts(&mut self)
        requires
            old(self).wf(),
        ensures
            final(self).wf(),
            final(self).same_but_actors(old(self)),
            final(self).index() == old(self).index(),
            final(self).actors_model() == old(self).actors_model().map_values(
                |a: ActorModel| forgotten(a),
            ),
    {
        let ghost before = self.actors_model();
        let ghost all = actor_map(self.actors);
        let keys = self.actors.keys();
        let mut i: usize = 0;
        while i < keys.len()
            invariant
                i <= keys@.len(),
                keys@.no_duplicates(),
                forall|k: ActorKey| #[trigger] keys@.contains(k) <==> all.contains_key(k),
                self.same_but_actors(old(self)),
                self.actor_by_handle == old(self).actor_by_handle,
                old(self).wf(),
                self.wf(),
                actor_map(self.actors).dom() == all.dom(),
                before == old(self).actors_model(),
                all == actor_map(old(self).actors),
                forall|j: int|
                    0 <= j < i ==> actor_map(self.actors)[#[trigger] keys@[j]].model() == forgotten(
                        before[keys@[j]],
                    ),
                forall|j: int|
                    i <= j < keys@.len() ==> actor_map(self.actors)[#[trigger] keys@[j]]
                        == all[keys@[j]],
            decreases keys@.len() - i,
        {
            let key = keys[i];
            assert(keys@.contains(key));
            let ghost was = *self;
            if let Some(actor) = self.actors.get_mut(key) {
                assert(actor_map(was.actors).contains_key(key));
                actor.pool_manager.forget_requests();
            }
            proof {
                assert(actor_map(self.actors).dom() =~= actor_map(was.actors).dom());
                assert(actor_map(self.actors)[key].model() == forgotten(before[key]));
                self.index_survives(was, key);
            }
            i = i + 1;
        }
        proof {
            let after = before.map_values(|a: ActorModel| forgotten(a));
            assert forall|k: ActorKey| #[trigger]
                self.actors_model().contains_key(k) implies self.actors_model()[k] == after[k] by {
                assert(keys@.contains(k));
                let j = keys@.index_of(k);
                assert(keys@[j] == k);
            }
            assert(self.actors_model() =~= after);
        }
    }

    /// Takes note that a request of a receive pool has ended while everything is shut
    /// down. Says whether there was such an actor, and gives what the caller has to
    /// deregister.
    pub fn mark_pool_done(&mut self, actor: ActorKey, token: u32) -> (r: (bool, Vec<RioBufferId>))
        requires
            old(self).wf(),
        ensures
            final(self).wf(),
            final(self).same_but_actors(old(self)),
            r.0 == old(self).actors_model().contains_key(actor),
            pool_done(old(self), final(self), actor, token, r.1@),
    {
        let mut released: Vec<RioBufferId> = Vec::new();
        let ghost before = self.actors_model();
        let ghost all = actor_map(self.actors);
        let mut gone: bool = !self.kernel.dispatch;
        match self.actors.get_mut(actor) {
            None => {
                assert(self.actors_model() =~= before);
                return (false, released);
            },
            Some(a) => {
                assert(all.contains_key(actor));
                let ghost m0 = a.pool_manager.model();
                let _ = a.pool_manager.registry.ack_pool_done(token);
                proof {
                    super::pool_delivery::acknowledging(m0, token);
                    assert(a.pool_manager.model() == m0.acknowledged(token));
                }
                a.pool_manager.handle_drain_comp();
                if !gone {
                    if let Some(ids) = a.pool_manager.cleanup_drained_pool() {
                        released = ids;
                        gone = true;
                    }
                }
            },
        }
        proof {
            let now = actor_map(self.actors)[actor];
            assert(self.actors_model() =~= before.insert(actor, now.model()));
            self.index_survives(*old(self), actor);
        }
        if gone {
            self.remove_actor_by_key(actor);
            assert(self.actors_model() =~= before.remove(actor));
        }
        (true, released)
    }

    /// The actors whose receive pools an operation on a socket may wait at: the one
    /// that takes the socket's requests, and those of the socket that drain. Without
    /// the function table there are none.
    pub fn cancel_targets(&self, handle: SocketKey) -> (keys: Vec<ActorKey>)
        requires
            self.wf(),
        ensures
            !self.kernel.dispatch ==> keys@.len() == 0,
            keys@.no_duplicates(),
            self.kernel.dispatch ==> forall|k: ActorKey| #[trigger]
                keys@.contains(k) <==> self.serves(handle, k),
    {
        let mut out: Vec<ActorKey> = Vec::new();
        if !self.kernel.dispatch {
            return out;
        }
        let ghost all = actor_map(self.actors);
        let current = fx_get(&self.actor_by_handle, handle);
        let keys = self.actors.keys();
        let mut i: usize = 0;
        while i < keys.len()
            invariant
                i <= keys@.len(),
                self.wf(),
                all == actor_map(self.actors),
                current == (if self.index().contains_key(handle) {
                    Some(self.index()[handle])
                } else {
                    None
                }),
                forall|k: ActorKey| #[trigger] keys@.contains(k) <==> all.contains_key(k),
                keys@.no_duplicates(),
                out@.no_duplicates(),
                forall|k: ActorKey| #[trigger]
                    out@.contains(k) <==> keys@.take(i as int).contains(k) && self.serves(
                        handle,
                        k,
                    ),
            decreases keys@.len() - i,
        {
            let key = keys[i];
            assert(keys@.contains(key));
            let ghost was = out@;
            let is_current: bool = match current {
                Some(k) => k == key,
                None => false,
            };
            let drains: bool = match self.actors.get(key) {
                Some(actor) => actor.state == RioActorState::Draining && actor.handle.0 == handle.0
                    && actor.handle.1 == handle.1 && actor.handle.2 == handle.2,
                None => false,
            };
            if is_current || drains {
                out.push(key);
            }
            proof {
                assert(!was.contains(key)) by {
                    if was.contains(key) {
                        let front = keys@.take(i as int);
                        assert(front.contains(key));
                        assert(keys@[front.index_of(key)] == key);
                    }
                }
                assert(self.actors_model()[key] == all[key].model());
                assert((is_current || drains) == self.serves(handle, key));
                assert forall|k: ActorKey| #[trigger]
                    out@.contains(k) <==> keys@.take(i + 1).contains(k) && self.serves(
                        handle,
                        k,
                    ) by {
                    let front = keys@.take(i as int);
                    let more = keys@.take(i + 1);
                    assert(more =~= front.push(key));
                    if more.contains(k) {
                        let j = more.index_of(k);
                        if j < front.len() {
                            assert(front[j] == k);
                        }
                    }
                    if front.contains(k) {
                        assert(more[front.index_of(k)] == k);
                    }
                    assert(more[front.len() as int] == key);
                    if out@.contains(k) {
                        let j = out@.index_of(k);
                        if j < was.len() {
                            assert(was[j] == k);
                            assert(was.contains(k));
                        }
                    }
                    if was.contains(k) {
                        assert(out@[was.index_of(k)] == k);
                    }
                    if is_current || drains {
                        assert(out@[was.len() as int] == key);
                    }
                }
            }
            i = i + 1;
        }
        proof {
            assert(keys@.take(i as int) =~= keys@);
            assert forall|k: ActorKey| #[trigger] out@.contains(k) <==> self.serves(handle, k) by {
                if self.serves(handle, k) {
                    assert(all.contains_key(k));
                    assert(keys@.contains(k));
                }
            }
        }
        out
    }

    /// An operation on the socket `handle` may wait at the receive pool of the actor
    /// `key`.
    pub open spec fn serves(&self, handle: SocketKey, key: ActorKey) -> bool {
        &&& self.actors_model().contains_key(key)
        &&& {
            ||| self.index().contains_key(handle) && self.index()[handle] == key
            ||| self.actors_model()[key].state is Draining && self.actors_model()[key].handle
                == handle
        }
    }

    /// Takes an operation out of the line at the receive pool of an actor.
    pub fn cancel_waiter(&mut self, actor: ActorKey, user_data: usize, generation: u32) -> (step:
        PoolStep)
        requires
            old(self).wf(),
            old(self).actors_model().contains_key(actor),
        ensures
            final(self).wf(),
            final(self).same_but_actors(old(self)),
            final(self).index() == old(self).index(),
            final(self).actors_model() == old(self).actors_model().insert(
                actor,
                ActorModel {
                    pool: PoolModel {
                        waiters: without_waiter(
                            old(self).actors_model()[actor].pool.waiters,
                            user_data,
                            generation,
                        ),
                        ..old(self).actors_model()[actor].pool
                    },
                    ..old(self).actors_model()[actor]
                },
            ),
            step.fits(final(self).actors_model()[actor].pool),
            step matches PoolStep::Next { task } && task.rebalances(),
    {
        let ghost before = self.actors_model();
        let ghost all = actor_map(self.actors);
        assert(all.contains_key(actor));
        match self.actors.get_mut(actor) {
            Some(a) => {
                let step = a.pool_manager.cancel_waiter(user_data, generation);
                proof {
                    let now = actor_map(self.actors)[actor];
                    assert(self.actors_model() =~= before.insert(actor, now.model()));
                    self.index_survives(*old(self), actor);
                }
                step
            },
            None => PoolStep::Done { task: PoolTask::empty() },
        }
    }

    /// The request queue of an actor, if there is such an actor.
    pub fn request_queue(&self, actor: ActorKey) -> (rq: Option<RioRq>)
        ensures
            rq == (if self.actors_model().contains_key(actor) {
                Some(self.actors_model()[actor].rq)
            } else {
                None
            }),
    {
        match self.actors.get(actor) {
            Some(a) => Some(a.rq),
            None => None,
        }
    }

    /// Takes a chunk back that its last holder is done with. The running receive pool
    /// of the actor uses it again; any other one, and one that holds the chunk already,
    /// refuses it.
    pub fn recycle_chunk(&mut self, actor: ActorKey, chunk: u32) -> (taken: bool)
        requires
            old(self).wf(),
        ensures
            final(self).wf(),
            final(self).same_but_actors(old(self)),
            final(self).index() == old(self).index(),
            taken <==> old(self).actors_model().contains_key(actor) && chunk
                < UDP_RECV_POOL_SLAB_CHUNKS && old(self).actors_model()[actor].pool.state is Running
                && old(self).actors_model()[actor].pool.unheld(chunk),
            final(self).actors_model() == (if taken {
                let a = old(self).actors_model()[actor];
                old(self).actors_model().insert(
                    actor,
                    ActorModel { pool: a.pool.with_free(a.pool.free().push(chunk)), ..a },
                )
            } else {
                old(self).actors_model()
            }),
    {
        let ghost before = self.actors_model();
        let ghost all = actor_map(self.actors);
        match self.actors.get_mut(actor) {
            Some(a) => {
                let taken = a.pool_manager.recycle_chunk(chunk);
                proof {
                    let now = actor_map(self.actors)[actor];
                    assert(all.contains_key(actor));
                    assert(before[actor] == all[actor].model());
                    assert(self.actors_model() =~= before.insert(actor, now.model()));
                    self.index_survives(*old(self), actor);
                    if !taken {
                        assert(now.model() == before[actor]);
                        assert(self.actors_model() =~= before);
                    }
                }
                taken
            },
            None => {
                assert(self.actors_model() =~= before);
                false
            },
        }
    }
}

/// An actor whose requests are forgotten.
pub open spec fn forgotten(a: ActorModel) -> ActorModel {
    ActorModel { pool: PoolModel { tokens: Map::empty(), ..a.pool }, ..a }
}

/// What the end of a request of a receive pool does while everything is shut down: a
/// draining pool without requests under way is closed, emptied, and gone with its
/// actor. Without the function table the actor is gone at once.
pub open spec fn pool_done(
    before: &RioState,
    after: &RioState,
    actor: ActorKey,
    token: u32,
    released: Seq<RioBufferId>,
) -> bool {
    let actors = before.actors_model();
    let pool = actors[actor].pool.acknowledged(token).drain_checked();
    if !actors.contains_key(actor) {
        &&& after.actors_model() == actors
        &&& after.index() == before.index()
        &&& released.len() == 0
    } else if !before.kernel.dispatch {
        &&& before.without_actor(after, actor)
        &&& released.len() == 0
    } else if pool.state is Closed {
        &&& before.without_actor(after, actor)
        &&& pool.registrations(released)
    } else {
        &&& after.actors_model() == actors.insert(actor, ActorModel { pool, ..actors[actor] })
        &&& after.index() == before.index()
        &&& released.len() == 0
    }
}

} // verus!
