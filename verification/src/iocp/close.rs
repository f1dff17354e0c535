//! Closing the driver, and the rest of what it offers.
use vstd::prelude::*;
use crate::fxmap::no_entries;
use crate::slots::SlotState;
use super::cancel::CancelAction;
use super::driver::IocpDriver;
use super::error::DriverErrorKind;
use super::rio::actors::ActorModel;
use super::rio::control::retired;
use super::rio::kernel::{RioCq, RioKernel};
use super::rio::lifecycle::DrainAction;
use super::table::TableModel;
use super::win32::IoCompletionPort;

verus! {

/// How the driver is closed.
#[derive(Debug, Clone, Copy, PartialEq, Eq, Structural)]
pub enum CloseMode {
    /// At once, without waiting for operations under way.
    Fast,
    /// The operations under way may end within the time given, in nanoseconds.
    Strict { timeout: u64 },
}

/// The operations that were cancelled, and what is left to the caller for each.
#[derive(Debug)]
pub struct Shutdown {
    pub targets: Vec<usize>,
    pub actions: Vec<CancelAction>,
}

/// Where closing the driver stands.
#[derive(Debug)]
pub enum CloseStep {
    /// It was closed before.
    AlreadyClosed,
    /// The operations have to end within the time given, and then the requests of
    /// registered I/O.
    Drain { shutdown: Shutdown, timeout: u64 },
    /// It is closed. The completion queue of registered I/O has to be closed.
    Closed { shutdown: Shutdown, cq: Option<RioCq> },
}

/// What to do next while a strict close waits.
#[derive(Debug, Clone, Copy, PartialEq, Eq, Structural)]
pub enum CloseAction {
    /// Wait for a packet of the port.
    Wait,
    /// Dequeue completions of registered I/O.
    DrainRio,
    /// The driver is closed. The completion queue of registered I/O has to be closed.
    Closed { cq: Option<RioCq> },
}

/// `targets` are the operations in flight among the first `n` slots, in order.
pub open spec fn in_flight_below<P>(t: TableModel<P>, n: int) -> Seq<usize>
    decreases n,
{
    if n <= 0 {
        Seq::empty()
    } else {
        let front = in_flight_below(t, n - 1);
        if t.in_flight(n - 1) {
            front.push((n - 1) as usize)
        } else {
            front
        }
    }
}

/// The states that a driver goes through while operations are cancelled one after the
/// other.
pub open spec fn cancelled_in_turn<P>(
    chain: Seq<IocpDriver<P>>,
    targets: Seq<usize>,
    actions: Seq<CancelAction>,
) -> bool {
    &&& chain.len() == targets.len() + 1
    &&& actions.len() == targets.len()
    &&& forall|k: int|
        0 <= k < targets.len() ==> (#[trigger] chain[k]).cancelled(
            &chain[k + 1],
            targets[k] as int,
            &actions[k],
        )
}

impl<P> IocpDriver<P> {
    /// The driver takes no more operations, and registered I/O winds down.
    pub open spec fn winding_down(&self, mid: &Self) -> bool {
        &&& mid.wf()
        &&& mid.shutting_down
        &&& mid.port == self.port
        &&& mid.extensions == self.extensions
        &&& mid.table == self.table
        &&& mid.files == self.files
        &&& mid.is_notified == self.is_notified
        &&& mid.closed == self.closed
        &&& mid.deferred_socket_cleanup@ == self.deferred_socket_cleanup@
        &&& mid.order == self.order
        &&& mid.slot_memory == self.slot_memory
        &&& mid.rio.same_but_actors(&self.rio)
        &&& no_entries(mid.rio.index())
        &&& mid.rio.actors_model() == self.rio.actors_model().map_values(
            |a: ActorModel| retired(a),
        )
    }

    /// What shutting down does: every operation in flight is cancelled, in the order of
    /// the slots. The second time nothing happens.
    pub open spec fn shut_down(&self, after: &Self, r: &Shutdown) -> bool {
        if self.shutting_down {
            *after == *self && r.targets@.len() == 0 && r.actions@.len() == 0
        } else {
            &&& r.targets@ == in_flight_below(
                self.table.model(),
                self.table.ops.slots@.len() as int,
            )
            &&& exists|chain: Seq<Self>| #[trigger]
                cancelled_in_turn(chain, r.targets@, r.actions@) && self.winding_down(&chain[0])
                    && chain.last() == *after
        }
    }

    /// Cancels every operation in flight.
    pub fn shutdown_ops(&mut self) -> (r: Shutdown)
        requires
            old(self).wf(),
        ensures
            final(self).wf(),
            final(self).shutting_down,
            final(self).closed == old(self).closed,
            old(self).shut_down(final(self), &r),
    {
        let mut targets: Vec<usize> = Vec::new();
        let mut actions: Vec<CancelAction> = Vec::new();
        if self.shutting_down {
            return Shutdown { targets, actions };
        }
        self.shutting_down = true;
        self.rio.begin_shutdown();
        let ghost first = *self;
        let len: usize = self.table.ops.len();
        let mut i: usize = 0;
        while i < len
            invariant
                i <= len,
                len == self.table.ops.slots@.len(),
                *self == first,
                first.table == old(self).table,
                targets@ == in_flight_below(old(self).table.model(), i as int),
            decreases len - i,
        {
            let in_flight: bool = match self.table.ops.state(i) {
                Some(SlotState::InFlightWaiting) => true,
                Some(SlotState::InFlightOrphaned) => true,
                _ => false,
            };
            if in_flight {
                targets.push(i);
            }
            i = i + 1;
        }
        let ghost mut chain: Seq<Self> = seq![first];
        let mut k: usize = 0;
        while k < targets.len()
            invariant
                k <= targets@.len(),
                self.wf(),
                self.shutting_down,
                self.closed == old(self).closed,
                chain.len() == k + 1,
                chain[0] == first,
                chain.last() == *self,
                actions@.len() == k,
                forall|j: int|
                    0 <= j < k ==> (#[trigger] chain[j]).cancelled(
                        &chain[j + 1],
                        targets@[j] as int,
                        &actions@[j],
                    ),
            decreases targets@.len() - k,
        {
            let ghost was = *self;
            let action = self.cancel_op_internal(targets[k]);
            let ghost before = chain;
            let ghost done = actions@;
            actions.push(action);
            proof {
                chain = before.push(*self);
                assert forall|j: int| 0 <= j < k + 1 implies (#[trigger] chain[j]).cancelled(
                    &chain[j + 1],
                    targets@[j] as int,
                    &actions@[j],
                ) by {
                    if j < k {
                        assert(before[j].cancelled(
                            &before[j + 1],
                            targets@[j] as int,
                            &done[j],
                        ));
                    } else {
                        assert(was.cancelled(self, targets@[j] as int, &action));
                    }
                }
            }
            k = k + 1;
        }
        let r = Shutdown { targets, actions };
        proof {
            assert(r.targets == targets && r.actions == actions);
            assert(cancelled_in_turn(chain, r.targets@, r.actions@));
            assert(old(self).winding_down(&first));
        }
        r
    }

    /// Begins to close the driver. It takes no more operations from now on.
    pub fn begin_close(&mut self, mode: CloseMode) -> (step: CloseStep)
        requires
            old(self).wf(),
        ensures
            final(self).wf(),
            if old(self).closed {
                *final(self) == *old(self) && step is AlreadyClosed
            } else {
                match mode {
                    CloseMode::Strict { timeout: t } => {
                        &&& step matches CloseStep::Drain { shutdown, timeout }
                        &&& timeout == t
                        &&& old(self).shut_down(final(self), &shutdown)
                        &&& final(self).shutting_down && !final(self).closed
                    },
                    CloseMode::Fast => {
                        &&& step matches CloseStep::Closed { shutdown, cq }
                        &&& exists|mid: Self| #[trigger]
                            old(self).shut_down(&mid, &shutdown) && mid.closed_now(final(self), cq)
                    },
                }
            },
    {
        if self.closed {
            return CloseStep::AlreadyClosed;
        }
        let shutdown = self.shutdown_ops();
        match mode {
            CloseMode::Strict { timeout } => {
                let step = CloseStep::Drain { shutdown, timeout };
                assert(step matches CloseStep::Drain { shutdown: s, .. } && s == shutdown);
                step
            },
            CloseMode::Fast => {
                let ghost mid = *self;
                let cq = self.finish_close();
                let step = CloseStep::Closed { shutdown, cq };
                assert(step matches CloseStep::Closed { shutdown: s, .. } && s == shutdown);
                step
            },
        }
    }

    /// The driver is closed, and its completion queue of registered I/O with it.
    pub open spec fn closed_now(&self, after: &Self, cq: Option<RioCq>) -> bool {
        &&& after.closed
        &&& after.port == self.port
        &&& after.extensions == self.extensions
        &&& after.table == self.table
        &&& after.files == self.files
        &&& after.deferred_socket_cleanup == self.deferred_socket_cleanup
        &&& after.is_notified == self.is_notified
        &&& after.shutting_down == self.shutting_down
        &&& after.order == self.order
        &&& after.slot_memory == self.slot_memory
        &&& after.rio.kernel == (RioKernel { cq: RioCq { id: 0 }, ..self.rio.kernel })
        &&& after.rio.registry == self.rio.registry
        &&& after.rio.registration_mode == self.rio.registration_mode
        &&& after.rio.sockets == self.rio.sockets
        &&& after.rio.actors == self.rio.actors
        &&& after.rio.actor_by_handle == self.rio.actor_by_handle
        &&& after.rio.index() == self.rio.index()
        &&& after.rio.contexts == self.rio.contexts
        &&& after.rio.outstanding_count == self.rio.outstanding_count
        &&& cq == (if self.rio.kernel.cq.id != 0 && self.rio.kernel.dispatch {
            Some(self.rio.kernel.cq)
        } else {
            None
        })
    }

    /// Ends the closing of the driver, and gives the completion queue to close.
    fn finish_close(&mut self) -> (cq: Option<RioCq>)
        requires
            old(self).wf(),
        ensures
            final(self).wf(),
            old(self).closed_now(final(self), cq),
    {
        let cq = self.rio.kernel.close();
        self.closed = true;
        cq
    }

    /// Whether another completion has to be waited for while the driver is being
    /// closed: `pending` operations have to end before `deadline`.
    pub fn drain_pending_iocp(drained: usize, pending: usize, now: u64, deadline: u64) -> (r: Result<
        bool,
        DriverErrorKind,
    >)
        ensures
            r == (if drained >= pending {
                Ok::<bool, DriverErrorKind>(false)
            } else if now >= deadline {
                Err(DriverErrorKind::Timeout)
            } else {
                Ok(true)
            }),
    {
        if drained >= pending {
            return Ok(false);
        }
        if now >= deadline {
            return Err(DriverErrorKind::Timeout);
        }
        Ok(true)
    }

    /// What a step of a strict close does. `drained` of the `pending` operations have
    /// ended by `now`, and `rio_elapsed` of `timeout` has gone by since the last one did.
    /// The driver stays as it is until every operation has ended, and then until no
    /// request of registered I/O is outstanding; only after that is it closed.
    pub open spec fn close_stepped(
        &self,
        after: &Self,
        drained: usize,
        pending: usize,
        now: u64,
        deadline: u64,
        rio_elapsed: u64,
        timeout: u64,
        r: Result<CloseAction, DriverErrorKind>,
    ) -> bool {
        if drained < pending {
            &&& *after == *self
            &&& r == (if now >= deadline {
                Err::<CloseAction, DriverErrorKind>(DriverErrorKind::Timeout)
            } else {
                Ok(CloseAction::Wait)
            })
        } else if self.rio.outstanding_count > 0 {
            &&& *after == *self
            &&& r == (if rio_elapsed >= timeout {
                Err::<CloseAction, DriverErrorKind>(DriverErrorKind::Completion)
            } else {
                Ok(CloseAction::DrainRio)
            })
        } else {
            &&& r matches Ok(CloseAction::Closed { cq })
            &&& self.closed_now(after, cq)
        }
    }

    /// Takes the next step of a strict close.
    pub fn close_next(
        &mut self,
        drained: usize,
        pending: usize,
        now: u64,
        deadline: u64,
        rio_elapsed: u64,
        timeout: u64,
    ) -> (r: Result<CloseAction, DriverErrorKind>)
        requires
            old(self).wf(),
            old(self).shutting_down,
        ensures
            final(self).wf(),
            old(self).close_stepped(
                final(self),
                drained,
                pending,
                now,
                deadline,
                rio_elapsed,
                timeout,
                r,
            ),
    {
        match Self::drain_pending_iocp(drained, pending, now, deadline) {
            Ok(true) => return Ok(CloseAction::Wait),
            Ok(false) => {},
            Err(e) => return Err(e),
        }
        match self.rio.drain_action(rio_elapsed, timeout) {
            Ok(DrainAction::Dequeue) => Ok(CloseAction::DrainRio),
            Ok(DrainAction::Finished) => Ok(CloseAction::Closed { cq: self.finish_close() }),
            Err(_) => Err(DriverErrorKind::Completion),
        }
    }

    /// Begins to register a chunk of memory, and says whether the system has to be
    /// asked: not without the function table of registered I/O.
    pub fn register_chunk(&mut self, id: u16, now: u64) -> (r: Result<bool, DriverErrorKind>)
        requires
            old(self).wf(),
        ensures
            final(self).wf(),
            final(self).same_but_table_and_rio(old(self)),
            final(self).table == old(self).table,
            final(self).rio.same_but_registry(&old(self).rio),
            if !old(self).rio.kernel.dispatch {
                &&& r == Ok::<bool, DriverErrorKind>(false)
                &&& *final(self) == *old(self)
            } else {
                &&& old(self).rio.registry.chunk_begun(&final(self).rio.registry, id, now)
                &&& r == (if old(self).rio.registry.chunk_cooling(id, now) {
                    Err::<bool, DriverErrorKind>(DriverErrorKind::Registration)
                } else {
                    Ok(true)
                })
            },
    {
        if !self.rio.kernel.dispatch {
            return Ok(false);
        }
        match self.rio.registry.begin_register_chunk(id, now) {
            Ok(()) => Ok(true),
            Err(_) => Err(DriverErrorKind::Registration),
        }
    }

    /// Takes note of the system's answer: the registration, or 0.
    pub fn chunk_registered(&mut self, id: u16, answer: u64, now: u64) -> (r: Result<
        (),
        DriverErrorKind,
    >)
        requires
            old(self).wf(),
            old(self).rio.registry.chunk_registry@.len() > id,
        ensures
            final(self).wf(),
            final(self).same_but_table_and_rio(old(self)),
            final(self).table == old(self).table,
            final(self).rio.same_but_registry(&old(self).rio),
            old(self).rio.registry.chunk_finished(&final(self).rio.registry, id, answer, now),
            r == (if answer == 0 {
                Err::<(), DriverErrorKind>(DriverErrorKind::Registration)
            } else {
                Ok(())
            }),
    {
        match self.rio.registry.finish_register_chunk(id, answer, now) {
            Ok(_) => Ok(()),
            Err(_) => Err(DriverErrorKind::Registration),
        }
    }

    /// The answer to posting a wake-up.
    pub fn wake(posted: i32, last_error: i32) -> (r: Result<(), DriverErrorKind>)
        ensures
            posted == 0 ==> r == Err::<(), DriverErrorKind>(DriverErrorKind::Submission),
            posted != 0 ==> r is Ok,
    {
        match IoCompletionPort::post(posted, last_error) {
            Ok(()) => Ok(()),
            Err(_) => Err(DriverErrorKind::Submission),
        }
    }

    /// How often the registration of a chunk was tried.
    pub fn debug_chunk_register_attempts(&self) -> (n: u64)
        ensures
            n == self.rio.registry.registration_stats.chunk_register_attempts,
    {
        self.rio.registry.registration_stats.chunk_register_attempts
    }
}

} // verus!
