//! Cancelling operations.
use vstd::prelude::*;
use crate::slots::SlotState;
use super::config::IocpHandle;
use super::driver::{Cleanup, IocpDriver};
use super::op::{actor_key, socket_key_spec, IocpOp, IocpOpState};
use super::rio::actors::ActorModel;
use super::rio::keys::ActorKey;
use super::rio::pool::PoolModel;
use super::rio::pool_delivery::without_waiter;
use super::rio::pool_steps::{PoolStep, PoolTask};
use super::rio::sockets::{SocketKey, SocketRuntime};
use super::rio::state::RioState;
use super::submission::ERROR_OPERATION_ABORTED;
use super::table::TableModel;

verus! {

/// Work of a receive pool that an operation has left.
#[derive(Debug)]
pub struct PoolWork {
    pub actor: ActorKey,
    pub task: PoolTask,
}

/// What is left to the caller after an operation was cancelled.
#[derive(Debug)]
pub struct CancelAction {
    /// Cancel this timer.
    pub timer: Option<u64>,
    /// Call `CancelIoEx` on this handle for the operation.
    pub io: Option<usize>,
    /// Go on with this work.
    pub pools: Vec<PoolWork>,
    pub cleanup: Cleanup,
}

impl CancelAction {
    /// Nothing is left to do.
    pub open spec fn nothing(&self) -> bool {
        &&& self.timer is None
        &&& self.io is None
        &&& self.pools@.len() == 0
        &&& self.cleanup.released@.len() == 0
        &&& self.cleanup.closes@.len() == 0
    }

    /// Nothing is left to do.
    pub fn none() -> (a: Self)
        ensures
            a.nothing(),
    {
        CancelAction { timer: None, io: None, pools: Vec::new(), cleanup: Cleanup::empty() }
    }
}

/// An actor whose receive pool an operation has left.
pub open spec fn left(a: ActorModel, user_data: usize, generation: u32) -> ActorModel {
    ActorModel {
        pool: PoolModel {
            waiters: without_waiter(a.pool.waiters, user_data, generation),
            ..a.pool
        },
        ..a
    }
}

impl RioState {
    /// An operation on the socket `handle` has left every receive pool that it may wait
    /// at; those pools have to look at the demand again.
    pub open spec fn line_left(
        &self,
        after: &Self,
        handle: SocketKey,
        user_data: usize,
        generation: u32,
        pools: Seq<PoolWork>,
    ) -> bool {
        &&& after.same_but_actors(self)
        &&& after.index() == self.index()
        &&& after.actors_model().dom() == self.actors_model().dom()
        &&& forall|k: ActorKey| #[trigger]
            self.actors_model().contains_key(k) ==> after.actors_model()[k] == (
            if self.kernel.dispatch && self.serves(handle, k) {
                left(self.actors_model()[k], user_data, generation)
            } else {
                self.actors_model()[k]
            })
        &&& forall|j: int|
            0 <= j < pools.len() ==> self.serves(handle, (#[trigger] pools[j]).actor)
                && pools[j].task.rebalances()
        &&& forall|i: int, j: int|
            0 <= i < j < pools.len() ==> (#[trigger] pools[i]).actor != (
            #[trigger] pools[j]).actor
        &&& !self.kernel.dispatch ==> pools.len() == 0
        &&& self.kernel.dispatch ==> forall|k: ActorKey| #[trigger]
            self.serves(handle, k) ==> exists|j: int|
                0 <= j < pools.len() && (#[trigger] pools[j]).actor == k
    }

    /// Takes an operation out of the line at every receive pool that it may wait at.
    pub fn cancel_udp_waiter(&mut self, handle: SocketKey, user_data: usize, generation: u32) -> (pools:
        Vec<PoolWork>)
        requires
            old(self).wf(),
        ensures
            final(self).wf(),
            old(self).line_left(final(self), handle, user_data, generation, pools@),
    {
        let keys = self.cancel_targets(handle);
        let ghost before = self.actors_model();
        let mut pools: Vec<PoolWork> = Vec::new();
        let mut i: usize = 0;
        while i < keys.len()
            invariant
                i <= keys@.len(),
                self.wf(),
                old(self).wf(),
                before == old(self).actors_model(),
                keys@.no_duplicates(),
                keys@.len() > 0 ==> old(self).kernel.dispatch,
                old(self).kernel.dispatch ==> forall|k: ActorKey| #[trigger]
                    keys@.contains(k) <==> old(self).serves(handle, k),
                self.same_but_actors(old(self)),
                self.index() == old(self).index(),
                self.actors_model().dom() == before.dom(),
                forall|k: ActorKey| #[trigger]
                    before.contains_key(k) ==> self.actors_model()[k] == (if keys@.take(
                        i as int,
                    ).contains(k) {
                        left(before[k], user_data, generation)
                    } else {
                        before[k]
                    }),
                pools@.len() == i,
                forall|j: int|
                    0 <= j < i ==> (#[trigger] pools@[j]).actor == keys@[j]
                        && pools@[j].task.rebalances(),
            decreases keys@.len() - i,
        {
            let key = keys[i];
            let ghost front = keys@.take(i as int);
            let ghost was = self.actors_model();
            proof {
                assert(keys@.contains(key));
                assert(old(self).serves(handle, key));
                assert(before.contains_key(key));
                assert(!front.contains(key)) by {
                    if front.contains(key) {
                        assert(keys@[front.index_of(key)] == key);
                    }
                }
            }
            if let PoolStep::Next { task } = self.cancel_waiter(key, user_data, generation) {
                pools.push(PoolWork { actor: key, task });
            }
            proof {
                let more = keys@.take(i + 1);
                assert(more =~= front.push(key));
                assert(self.actors_model().dom() =~= before.dom());
                assert forall|k: ActorKey| #[trigger]
                    before.contains_key(k) implies self.actors_model()[k] == (if more.contains(k) {
                    left(before[k], user_data, generation)
                } else {
                    before[k]
                }) by {
                    if more.contains(k) {
                        let j = more.index_of(k);
                        if j < front.len() {
                            assert(front[j] == k);
                        }
                    }
                    if front.contains(k) {
                        assert(more[front.index_of(k)] == k);
                    }
                    assert(more[front.len() as int] == key);
                    assert(was[k] == (if front.contains(k) {
                        left(before[k], user_data, generation)
                    } else {
                        before[k]
                    }));
                }
            }
            i = i + 1;
        }
        proof {
            assert(keys@.take(i as int) =~= keys@);
            assert forall|j: int| 0 <= j < pools@.len() implies old(self).serves(
                handle,
                (#[trigger] pools@[j]).actor,
            ) by {
                assert(keys@.contains(keys@[j]));
            }
            if old(self).kernel.dispatch {
                assert forall|k: ActorKey| #[trigger] old(self).serves(handle, k) implies exists|
                    j: int,
                |
                    0 <= j < pools@.len() && (#[trigger] pools@[j]).actor == k by {
                    assert(keys@.contains(k));
                    assert(pools@[keys@.index_of(k)].actor == k);
                }
            }
        }
        pools
    }
}

impl RioState {
    /// An operation on `h` was given up: when it waits at a receive pool, it has left
    /// every one; a socket counts one operation less.
    pub open spec fn op_left(
        &self,
        after: &Self,
        h: IocpHandle,
        pool_waiting: bool,
        user_data: usize,
        generation: u32,
        pools: Seq<PoolWork>,
    ) -> bool {
        let key = socket_key_spec(h);
        exists|mid: RioState| #[trigger]
            after.same_but_sockets(&mid) && (if pool_waiting {
                self.line_left(&mid, key, user_data, generation, pools)
            } else {
                mid == *self && pools.len() == 0
            }) && (if h is Socket {
                mid.sockets.with(
                    &after.sockets,
                    key,
                    SocketRuntime {
                        inflight: (if mid.sockets.of(key).inflight == 0 {
                            0
                        } else {
                            mid.sockets.of(key).inflight - 1
                        }) as usize,
                        ..mid.sockets.of(key)
                    },
                )
            } else {
                after.sockets == mid.sockets
            })
    }

    /// Gives up an operation on `h`.
    fn leave(&mut self, h: IocpHandle, pool_waiting: bool, user_data: usize, generation: u32) -> (pools:
        Vec<PoolWork>)
        requires
            old(self).wf(),
        ensures
            final(self).wf(),
            old(self).op_left(final(self), h, pool_waiting, user_data, generation, pools@),
    {
        let key = actor_key(h);
        let pools: Vec<PoolWork> = if pool_waiting {
            self.cancel_udp_waiter(key, user_data, generation)
        } else {
            Vec::new()
        };
        let ghost mid = *self;
        if h.is_socket() {
            self.sockets.release_socket_inflight(key);
        }
        assert(self.same_but_sockets(&mid));
        pools
    }
}

impl<P> TableModel<P> {
    /// The operation in slot `i` was aborted.
    pub open spec fn aborted(self, i: int) -> TableModel<P> {
        self.ended(i, self.slots[i].generation, (-ERROR_OPERATION_ABORTED) as i32, None)
    }
}

impl<P> IocpDriver<P> {
    /// What the operation in slot `i` works on: the handle that was looked up when it
    /// was submitted, or what its descriptor refers to now.
    pub open spec fn handle_of(&self, i: int) -> Option<IocpHandle> {
        let slot = self.table.ops.slots@[i];
        match slot.platform.resolved_handle {
            Some(h) => Some(h),
            None => match slot.op {
                Some(op) => match op.fd_spec() {
                    Some(fd) => self.files.resolved(fd),
                    None => None,
                },
                None => None,
            },
        }
    }

    /// The operation in slot `i`, which registered I/O works on, was given up: it waits
    /// at no receive pool, it was aborted, and its socket counts one operation less.
    pub open spec fn given_up(
        &self,
        mid: &Self,
        i: int,
        h: IocpHandle,
        pools: Seq<PoolWork>,
    ) -> bool {
        let p = self.table.ops.slots@[i].platform;
        &&& mid.wf()
        &&& mid.same_but_table_and_rio(self)
        &&& mid.table.model() == self.table.model().aborted(i)
        &&& self.rio.op_left(&mid.rio, h, p.rio_pool_waiting, i as usize, p.generation, pools)
    }

    /// What cancelling the operation in slot `i` does. One that waits for a timer, one
    /// that registered I/O works on, and one that has not reached the system are
    /// aborted at once; for any other the system is asked to end it.
    pub open spec fn cancelled(&self, after: &Self, i: int, action: &CancelAction) -> bool {
        let slot = self.table.ops.slots@[i];
        let p = slot.platform;
        let aborted = after.same_but_table(self) && after.table.model()
            == self.table.model().aborted(i);
        if !self.table.ops.live(i) {
            *after == *self && action.nothing()
        } else if p.timer_id is Some {
            &&& aborted
            &&& action.timer == p.timer_id && action.io is None && action.pools@.len() == 0
            &&& action.cleanup.released@.len() == 0 && action.cleanup.closes@.len() == 0
        } else {
            match slot.state->Some_0 {
                SlotState::InFlightOrphaned => *after == *self && action.nothing(),
                SlotState::InFlightWaiting => match self.handle_of(i) {
                    None => *after == *self && action.nothing(),
                    Some(h) => if p.rio_pool_waiting || slot.op->Some_0.rio_spec() {
                        &&& action.timer is None && action.io is None
                        &&& exists|mid: Self| #[trigger]
                            self.given_up(&mid, i, h, action.pools@) && if h is Socket {
                                mid.cleaned_up(after, &action.cleanup)
                            } else {
                                *after == mid && action.cleanup.released@.len() == 0
                                    && action.cleanup.closes@.len() == 0
                            }
                    } else {
                        &&& *after == *self
                        &&& action.io == Some(h.handle_spec())
                        &&& action.timer is None && action.pools@.len() == 0
                        &&& action.cleanup.released@.len() == 0 && action.cleanup.closes@.len() == 0
                    },
                },
                _ => aborted && action.nothing(),
            }
        }
    }

    /// Aborts an operation.
    fn emit_aborted(&mut self, user_data: usize)
        requires
            old(self).wf(),
            old(self).table.ops.live(user_data as int),
        ensures
            final(self).wf(),
            final(self).same_but_table(old(self)),
            final(self).table.model() == old(self).table.model().aborted(user_data as int),
    {
        let generation: u32 = self.table.ops.slots[user_data].generation;
        self.table.end_op(user_data, generation, -ERROR_OPERATION_ABORTED, None);
    }

    /// Gives up an operation that registered I/O works on.
    fn give_up(&mut self, user_data: usize, h: IocpHandle) -> (action: CancelAction)
        requires
            old(self).wf(),
            old(self).table.ops.in_state(user_data as int, SlotState::InFlightWaiting),
        ensures
            final(self).wf(),
            action.timer is None && action.io is None,
            exists|mid: Self| #[trigger]
                old(self).given_up(&mid, user_data as int, h, action.pools@) && if h is Socket {
                    mid.cleaned_up(final(self), &action.cleanup)
                } else {
                    *final(self) == mid && action.cleanup.released@.len() == 0
                        && action.cleanup.closes@.len() == 0
                },
    {
        let pools = self.abandon(user_data, h);
        let ghost mid = *self;
        let cleanup = if h.is_socket() {
            self.drain_deferred_socket_cleanup()
        } else {
            Cleanup::empty()
        };
        let action = CancelAction { timer: None, io: None, pools, cleanup };
        assert(action.pools == pools && action.cleanup == cleanup);
        assert(old(self).given_up(&mid, user_data as int, h, action.pools@));
        action
    }

    /// Takes an operation out of every line, aborts it, and counts it out.
    fn abandon(&mut self, user_data: usize, h: IocpHandle) -> (pools: Vec<PoolWork>)
        requires
            old(self).wf(),
            old(self).table.ops.in_state(user_data as int, SlotState::InFlightWaiting),
        ensures
            final(self).wf(),
            old(self).given_up(final(self), user_data as int, h, pools@),
    {
        let platform: IocpOpState = self.table.ops.slots[user_data].platform;
        let pools = self.rio.leave(h, platform.rio_pool_waiting, user_data, platform.generation);
        self.emit_aborted(user_data);
        pools
    }

    /// What an operation works on.
    fn find_handle(&self, user_data: usize) -> (h: Option<IocpHandle>)
        requires
            self.table.ops.live(user_data as int),
        ensures
            h == self.handle_of(user_data as int),
    {
        let platform: IocpOpState = self.table.ops.slots[user_data].platform;
        if platform.resolved_handle.is_some() {
            return platform.resolved_handle;
        }
        let op: IocpOp = match self.table.ops.slots[user_data].op {
            Some(op) => op,
            None => {
                return None;
            },
        };
        match op.get_fd() {
            Some(fd) => match self.files.resolve_fd(fd) {
                Ok(h) => Some(h),
                Err(_) => None,
            },
            None => None,
        }
    }

    /// Cancels an operation.
    pub fn cancel_op_internal(&mut self, user_data: usize) -> (action: CancelAction)
        requires
            old(self).wf(),
        ensures
            final(self).wf(),
            old(self).cancelled(final(self), user_data as int, &action),
    {
        let state = match self.table.ops.state(user_data) {
            Some(state) => state,
            None => {
                return CancelAction::none();
            },
        };
        let platform: IocpOpState = self.table.ops.slots[user_data].platform;
        if platform.timer_id.is_some() {
            self.emit_aborted(user_data);
            return CancelAction {
                timer: platform.timer_id,
                io: None,
                pools: Vec::new(),
                cleanup: Cleanup::empty(),
            };
        }
        match state {
            SlotState::InFlightOrphaned => CancelAction::none(),
            SlotState::InFlightWaiting => self.perform_cancel(user_data),
            _ => {
                self.emit_aborted(user_data);
                CancelAction::none()
            },
        }
    }

    /// Cancels an operation that is under way.
    fn perform_cancel(&mut self, user_data: usize) -> (action: CancelAction)
        requires
            old(self).wf(),
            old(self).table.ops.in_state(user_data as int, SlotState::InFlightWaiting),
            old(self).table.ops.slots@[user_data as int].platform.timer_id is None,
        ensures
            final(self).wf(),
            old(self).cancelled(final(self), user_data as int, &action),
    {
        let h = match self.find_handle(user_data) {
            Some(h) => h,
            None => {
                return CancelAction::none();
            },
        };
        let platform: IocpOpState = self.table.ops.slots[user_data].platform;
        let is_rio: bool = match self.table.ops.slots[user_data].op {
            Some(op) => op.is_rio_op(),
            None => false,
        };
        if platform.rio_pool_waiting || is_rio {
            return self.give_up(user_data, h);
        }
        CancelAction {
            timer: None,
            io: Some(h.as_handle()),
            pools: Vec::new(),
            cleanup: Cleanup::empty(),
        }
    }
}

} // verus!
