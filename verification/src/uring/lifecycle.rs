//! Cancellation, the backlog, and what becomes of completions.
use vstd::prelude::*;
use crate::completion::{CompletionEvent, CompletionRecord, CompletionSidecar};
use crate::sockaddr::{decoded, decoded_is_unique, ByteOrder, SocketAddr};
use super::driver::{SubmitStep, UringDriver, UringSlot};
use super::net::{to_socket_addr_in, AF_INET6};
use super::op::UringOp;
use crate::slots::{OpSlot, SlotState};

verus! {

/// `ECANCELED`.
pub const ECANCELED: i32 = 125;

/// The user data of cancellation entries.
pub const CANCEL_USER_DATA: u64 = 0xffff_ffff_ffff_fffe;

/// The user data of entries nobody waits for.
pub const BACKGROUND_USER_DATA: u64 = 0xffff_ffff_ffff_fffd;

/// What the caller has to do to cancel an operation.
#[derive(Debug, Clone, Copy, PartialEq, Eq, Structural)]
pub enum CancelStep {
    /// Nothing.
    Nothing,
    /// Stop a timer.
    StopTimer { timer_id: u64 },
    /// Put a cancellation entry for `user_data` into the submission queue.
    PushCancel { user_data: usize },
}

/// What to do with the operation at the front of the backlog.
#[derive(Debug, Clone, Copy, PartialEq, Eq, Structural)]
pub enum BacklogAction {
    Submit,
    Drop,
}

/// A completion-queue entry. `name` holds the peer address that the kernel wrote
/// for the operation, if it writes one.
#[derive(Debug)]
pub struct Cqe {
    pub user_data: u64,
    pub res: i32,
    pub flags: u32,
    pub name: Vec<u8>,
}

/// The operations and completions of a driver, as mathematical values.
#[verifier::ext_equal]
pub struct DriverModel<P> {
    pub slots: Seq<UringSlot<P>>,
    /// Events announced and not yet drained, oldest first.
    pub events: Seq<CompletionEvent>,
    /// The latest completion of each slot.
    pub records: Seq<Option<CompletionRecord<P>>>,
}

impl<P> DriverModel<P> {
    /// Slot `i` exists and is in the given state.
    pub open spec fn in_state(self, i: int, s: SlotState) -> bool {
        0 <= i < self.slots.len() && self.slots[i].state == Some(s)
    }

    /// The completion of the operation in slot `i`, with the given result. A result
    /// stored ahead of time takes precedence over `detail`.
    pub open spec fn sidecar_of(
        self,
        i: int,
        res: i32,
        flags: u32,
        detail: Option<Result<usize, i32>>,
        peer: Option<SocketAddr>,
    ) -> CompletionSidecar<P> {
        CompletionSidecar {
            user_data: i as usize,
            generation: self.slots[i].generation,
            res,
            flags,
            payload: self.slots[i].payload,
            detail: match self.slots[i].detail {
                Some(d) => Some(d),
                None => detail,
            },
            peer,
        }
    }

    /// The operation in slot `i` has ended with `done`: the completion is published,
    /// and the slot is free under the next generation.
    pub open spec fn ended(self, i: int, done: CompletionSidecar<P>) -> DriverModel<P> {
        DriverModel {
            slots: self.slots.update(i, self.slots[i].vacated()),
            events: self.events.push(done.event()),
            records: self.records.update(i, Some(done.record())),
        }
    }

    /// Slot `i` has become `slot`.
    pub open spec fn with_slot(self, i: int, slot: UringSlot<P>) -> DriverModel<P> {
        DriverModel { slots: self.slots.update(i, slot), ..self }
    }

    /// What cancelling the operation `user_data` leads to, and what remains to be
    /// done for it.
    pub open spec fn cancelled(self, user_data: usize) -> (DriverModel<P>, CancelStep) {
        let i = user_data as int;
        let gone = self.ended(i, self.sidecar_of(i, (-ECANCELED) as i32, 0, None, None));
        if self.in_state(i, SlotState::Reserved) {
            (gone, CancelStep::Nothing)
        } else if self.in_state(i, SlotState::InFlightWaiting) {
            match self.slots[i].platform.timer_id {
                Some(timer_id) => (gone, CancelStep::StopTimer { timer_id }),
                None => (
                    self.with_slot(
                        i,
                        OpSlot { state: Some(SlotState::InFlightOrphaned), ..self.slots[i] },
                    ),
                    CancelStep::PushCancel { user_data },
                ),
            }
        } else {
            (self, CancelStep::Nothing)
        }
    }

    /// What processing a completion-queue entry leads to.
    pub open spec fn after_cqe(
        self,
        order: ByteOrder,
        waker: Option<usize>,
        cqe: Cqe,
    ) -> DriverModel<P> {
        let i = cqe.index() as int;
        if cqe.is_internal() || waker == Some(cqe.index()) {
            self
        } else if self.in_state(i, SlotState::InFlightWaiting) {
            self.ended(
                i,
                self.sidecar_of(
                    i,
                    cqe.res,
                    cqe.flags,
                    cqe.error_detail(),
                    cqe.peer_of(order, self.slots[i].op->Some_0),
                ),
            )
        } else if self.in_state(i, SlotState::InFlightOrphaned) {
            self.ended(i, self.sidecar_of(i, cqe.res, cqe.flags, None, None))
        } else {
            self
        }
    }

    /// What processing a batch of completion-queue entries in order leads to.
    pub open spec fn after_cqes(
        self,
        order: ByteOrder,
        waker: Option<usize>,
        cqes: Seq<Cqe>,
    ) -> DriverModel<P>
        decreases cqes.len(),
    {
        if cqes.len() == 0 {
            self
        } else {
            self.after_cqes(order, waker, cqes.drop_last()).after_cqe(order, waker, cqes.last())
        }
    }

    /// What the expiry of timers leads to: each operation that is still waited for
    /// ends with result 0.
    pub open spec fn after_expiry(self, expired: Seq<usize>) -> DriverModel<P>
        decreases expired.len(),
    {
        if expired.len() == 0 {
            self
        } else {
            let before = self.after_expiry(expired.drop_last());
            let i = expired.last() as int;
            if before.in_state(i, SlotState::InFlightWaiting) {
                before.ended(i, before.sidecar_of(i, 0, 0, None, None))
            } else {
                before
            }
        }
    }
}

impl Cqe {
    /// The slot number that the entry carries.
    pub open spec fn index(self) -> usize {
        self.user_data as usize
    }

    /// The entry reports on an entry of the driver's own.
    pub open spec fn is_internal(self) -> bool {
        self.index() == u64::MAX as usize || self.index() == CANCEL_USER_DATA as usize
            || self.index() == BACKGROUND_USER_DATA as usize
    }

    /// The exact error of an entry that reports one.
    pub open spec fn error_detail(self) -> Option<Result<usize, i32>> {
        if self.res >= 0 {
            None
        } else {
            Some(Err((-self.res) as i32))
        }
    }

    /// The peer address that the entry brings: that of an accepted connection or a
    /// received datagram, where the kernel wrote one that can be read.
    pub open spec fn peer_of(self, order: ByteOrder, op: UringOp) -> Option<SocketAddr> {
        if (op is Accept || op is UdpRecvStream) && self.res >= 0 {
            match decoded(order, AF_INET6, self.name@) {
                Ok(addr) => Some(addr),
                Err(_) => None,
            }
        } else {
            None
        }
    }
}

impl<P> UringDriver<P> {
    /// Nothing but operations and completions differs.
    pub open spec fn same_but_ops_and_completions(&self, before: &Self) -> bool {
        &&& self.backlog@ == before.backlog@
        &&& self.pending_cancellations@ == before.pending_cancellations@
        &&& self.chunks == before.chunks
        &&& self.files == before.files
        &&& self.waker == before.waker
        &&& self.order == before.order
    }

    /// The operations and completions of the driver.
    pub open spec fn model(&self) -> DriverModel<P> {
        DriverModel {
            slots: self.ops.slots@,
            events: self.completions.events(),
            records: self.completions.records(),
        }
    }

    /// Ends the operation in slot `i`: publishes its completion and frees the slot.
    /// A result stored ahead of time takes precedence over `detail`.
    fn end_op(
        &mut self,
        i: usize,
        res: i32,
        flags: u32,
        detail: Option<Result<usize, i32>>,
        peer: Option<SocketAddr>,
    )
        requires
            old(self).wf(),
            old(self).ops.live(i as int),
        ensures
            final(self).wf(),
            final(self).same_but_ops_and_completions(old(self)),
            final(self).model() == old(self).model().ended(
                i as int,
                old(self).model().sidecar_of(i as int, res, flags, detail, peer),
            ),
    {
        let (generation, payload, stored) = self.ops.take_completion_data(i);
        let detail = match stored {
            Some(d) => Some(d),
            None => detail,
        };
        self.completions.push_completion_event(
            CompletionSidecar { user_data: i, generation, res, flags, payload, detail, peer },
        );
    }

    /// Cancels an operation. One that has not reached the kernel, or that only a
    /// timer carries out, ends here and now with `ECANCELED`. One that the kernel
    /// works on is marked, and ends when the kernel reports back. One that was
    /// cancelled before, or that does not exist, is left alone.
    pub fn cancel_op_internal(&mut self, user_data: usize) -> (step: CancelStep)
        requires
            old(self).wf(),
        ensures
            final(self).wf(),
            final(self).same_but_ops_and_completions(old(self)),
            (final(self).model(), step) == old(self).model().cancelled(user_data),
    {
        match self.ops.state(user_data) {
            Some(SlotState::Reserved) => {
                self.end_op(user_data, -ECANCELED, 0, None, None);
                CancelStep::Nothing
            },
            Some(SlotState::InFlightWaiting) => match self.ops.slots[user_data].platform.timer_id {
                Some(timer_id) => {
                    self.end_op(user_data, -ECANCELED, 0, None, None);
                    CancelStep::StopTimer { timer_id }
                },
                None => {
                    self.ops.set_state(user_data, SlotState::InFlightOrphaned);
                    CancelStep::PushCancel { user_data }
                },
            },
            _ => CancelStep::Nothing,
        }
    }

    /// Nothing but the waiting cancellations differs.
    pub open spec fn same_but_cancellations(&self, before: &Self) -> bool {
        &&& self.ops == before.ops
        &&& self.backlog@ == before.backlog@
        &&& self.completions == before.completions
        &&& self.chunks == before.chunks
        &&& self.files == before.files
        &&& self.waker == before.waker
        &&& self.order == before.order
    }

    /// Takes note of whether the cancellation entry for `user_data` found room. If
    /// it did not, the cancellation waits its turn.
    pub fn cancel_pushed(&mut self, user_data: usize, pushed: bool)
        ensures
            final(self).same_but_cancellations(old(self)),
            final(self).pending_cancellations@ == (if pushed {
                old(self).pending_cancellations@
            } else {
                old(self).pending_cancellations@.push(user_data)
            }),
    {
        if !pushed {
            self.pending_cancellations.push_back(user_data);
        }
    }

    /// The first waiting cancellation whose operation still exists. Those in front
    /// of it are forgotten.
    pub fn next_cancellation(&mut self) -> (r: Option<usize>)
        requires
            old(self).wf(),
        ensures
            final(self).wf(),
            final(self).same_but_cancellations(old(self)),
            exists|n: int|
                {
                    &&& 0 <= n <= old(self).pending_cancellations@.len()
                    &&& final(self).pending_cancellations@ == #[trigger] old(
                        self).pending_cancellations@.skip(n)
                    &&& forall|k: int|
                        0 <= k < n ==> !old(self).ops.live(
                            #[trigger] old(self).pending_cancellations@[k] as int,
                        )
                },
            match r {
                Some(i) => {
                    &&& final(self).pending_cancellations@.len() > 0
                    &&& final(self).pending_cancellations@[0] == i
                    &&& old(self).ops.live(i as int)
                },
                None => final(self).pending_cancellations@.len() == 0,
            },
    {
        let ghost all = self.pending_cancellations@;
        let ghost mut n: int = 0;
        assert(all.skip(0) =~= all);
        loop
            invariant
                self.wf(),
                self.same_but_cancellations(old(self)),
                all == old(self).pending_cancellations@,
                0 <= n <= all.len(),
                self.pending_cancellations@ == all.skip(n),
                forall|k: int| 0 <= k < n ==> !old(self).ops.live(#[trigger] all[k] as int),
            decreases self.pending_cancellations@.len(),
        {
            if self.pending_cancellations.len() == 0 {
                return None;
            }
            let user_data: usize = self.pending_cancellations[0];
            if self.ops.contains(user_data) {
                return Some(user_data);
            }
            let _ = self.pending_cancellations.pop_front();
            proof {
                assert(all[n] == user_data);
                n = n + 1;
                assert(self.pending_cancellations@ =~= all.skip(n));
            }
        }
    }

    /// Takes note of whether the entry for the cancellation at the front found room.
    /// If so it is done with; if not it keeps its place. Says whether to go on with
    /// the next one.
    pub fn cancellation_flushed(&mut self, pushed: bool) -> (go_on: bool)
        requires
            old(self).pending_cancellations@.len() > 0,
        ensures
            final(self).same_but_cancellations(old(self)),
            go_on == pushed,
            final(self).pending_cancellations@ == (if pushed {
                old(self).pending_cancellations@.drop_first()
            } else {
                old(self).pending_cancellations@
            }),
    {
        if pushed {
            let _ = self.pending_cancellations.pop_front();
            assert(self.pending_cancellations@ =~= old(self).pending_cancellations@.drop_first());
        }
        pushed
    }

    // -----------------------------------------------------------------------
    // Backlog
    // -----------------------------------------------------------------------

    /// Whether the operation in slot `i` is still to be submitted.
    pub open spec fn submittable(&self, i: int) -> bool {
        self.ops.in_state(i, SlotState::Reserved) && self.ops.slots@[i].op is Some
    }

    /// What to do with a backlog entry: only a reserved slot with an operation is
    /// submitted.
    pub fn backlog_action(&self, user_data: usize) -> (a: BacklogAction)
        ensures
            a is Submit <==> self.submittable(user_data as int),
    {
        match self.ops.state(user_data) {
            Some(SlotState::Reserved) => if self.ops.slots[user_data].op.is_some() {
                BacklogAction::Submit
            } else {
                BacklogAction::Drop
            },
            _ => BacklogAction::Drop,
        }
    }

    /// Starts to submit the first operation of the backlog that is still to be
    /// submitted. Those in front of it are dropped; it keeps its place until the
    /// outcome is known.
    pub fn next_backlog(&mut self) -> (r: Option<(usize, SubmitStep)>)
        requires
            old(self).wf(),
        ensures
            final(self).wf(),
            exists|n: int|
                {
                    &&& 0 <= n <= old(self).backlog@.len()
                    &&& final(self).backlog@ == #[trigger] old(self).backlog@.skip(n)
                    &&& forall|k: int|
                        0 <= k < n ==> !old(self).submittable(
                            #[trigger] old(self).backlog@[k] as int,
                        )
                },
            match r {
                None => {
                    &&& final(self).backlog@.len() == 0
                    &&& final(self).same_but_backlog(old(self))
                },
                Some((i, step)) => {
                    &&& final(self).backlog@.len() > 0
                    &&& final(self).backlog@[0] == i
                    &&& old(self).submittable(i as int)
                    &&& old(self).begun(
                        final(self),
                        i,
                        old(self).ops.slots@[i as int].op->Some_0,
                        step,
                    )
                    &&& final(self).pending_cancellations@ == old(self).pending_cancellations@
                    &&& final(self).completions == old(self).completions
                    &&& final(self).chunks == old(self).chunks
                    &&& final(self).files == old(self).files
                    &&& final(self).waker == old(self).waker
                    &&& final(self).order == old(self).order
                },
            },
    {
        let ghost all = self.backlog@;
        let ghost mut n: int = 0;
        assert(all.skip(0) =~= all);
        loop
            invariant
                self.wf(),
                self.same_but_backlog(old(self)),
                all == old(self).backlog@,
                0 <= n <= all.len(),
                self.backlog@ == all.skip(n),
                forall|k: int| 0 <= k < n ==> !old(self).submittable(#[trigger] all[k] as int),
            decreases self.backlog@.len(),
        {
            if self.backlog.len() == 0 {
                return None;
            }
            let user_data: usize = self.backlog[0];
            match self.backlog_action(user_data) {
                BacklogAction::Submit => {
                    let step = self.begin_submission(user_data);
                    return Some((user_data, step));
                },
                BacklogAction::Drop => {
                    let _ = self.pop_backlog();
                    proof {
                        assert(all[n] == user_data);
                        n = n + 1;
                        assert(self.backlog@ =~= all.skip(n));
                    }
                },
            }
        }
    }

    /// Takes note of the outcome of submitting the operation at the front of the
    /// backlog. One that found no room keeps its place, and nothing further is
    /// tried; any other one leaves the backlog. Says whether to go on.
    pub fn backlog_flushed(&mut self, found_room: bool) -> (go_on: bool)
        requires
            old(self).backlog@.len() > 0,
        ensures
            final(self).same_but_backlog(old(self)),
            go_on == found_room,
            final(self).backlog@ == (if found_room {
                old(self).backlog@.drop_first()
            } else {
                old(self).backlog@
            }),
    {
        if found_room {
            let _ = self.pop_backlog();
        }
        found_room
    }

    // -----------------------------------------------------------------------
    // Completions
    // -----------------------------------------------------------------------

    /// Whether some operation is under way.
    pub fn has_active_ops(&self) -> (b: bool)
        ensures
            b <==> exists|i: int| self.ops.live(i),
    {
        let mut i: usize = 0;
        while i < self.ops.len()
            invariant
                i <= self.ops.slots@.len(),
                forall|k: int| 0 <= k < i ==> !self.ops.live(k),
            decreases self.ops.slots@.len() - i,
        {
            if self.ops.contains(i) {
                assert(self.ops.live(i as int));
                return true;
            }
            i = i + 1;
        }
        false
    }

    /// Processes one completion-queue entry. An operation in flight ends with the
    /// entry's result; an entry of the driver's own, one for the wake-up descriptor,
    /// and one whose slot holds nothing in flight change nothing.
    fn process_cqe(&mut self, cqe: &Cqe) 
        requires
            old(self).wf(),
            cqe.res > i32::MIN,
        ensures
            final(self).wf(),
            final(self).same_but_ops_and_completions(old(self)),
            final(self).model() == old(self).model().after_cqe(
                old(self).order,
                old(self).waker.token,
                *cqe,
            ),
    {
        let user_data: usize = #[verifier::truncate]
        (cqe.user_data as usize);
        let all_ones: usize = #[verifier::truncate]
        (u64::MAX as usize);
        let cancel: usize = #[verifier::truncate]
        (CANCEL_USER_DATA as usize);
        let background: usize = #[verifier::truncate]
        (BACKGROUND_USER_DATA as usize);
        if user_data == all_ones || user_data == cancel || user_data == background {
            return ;
        }
        if let Some(token) = self.waker.token {
            if token == user_data {
                return ;
            }
        }
        match self.ops.state(user_data) {
            Some(SlotState::InFlightWaiting) => {
                let op: UringOp = match self.ops.slots[user_data].op {
                    Some(op) => op,
                    None => {
                        return ;
                    },
                };
                let names_peer: bool = match op {
                    UringOp::Accept { .. } => true,
                    UringOp::UdpRecvStream { .. } => true,
                    _ => false,
                };
                let peer: Option<SocketAddr> = if names_peer && cqe.res >= 0 {
                    let r = to_socket_addr_in(self.order, cqe.name.as_slice());
                    proof {
                        decoded_is_unique(self.order, AF_INET6, cqe.name@, r);
                    }
                    match r {
                        Ok(addr) => Some(addr),
                        Err(_) => None,
                    }
                } else {
                    None
                };
                let detail: Option<Result<usize, i32>> = if cqe.res >= 0 {
                    None
                } else {
                    Some(Err(-cqe.res))
                };
                self.end_op(user_data, cqe.res, cqe.flags, detail, peer);
            },
            Some(SlotState::InFlightOrphaned) => {
                self.end_op(user_data, cqe.res, cqe.flags, None, None);
            },
            _ => {},
        }
    }

    /// Processes completion-queue entries in order, and says whether one of them was
    /// for the wake-up descriptor, whose read has then to be submitted again.
    pub fn process_completions_internal(&mut self, cqes: &Vec<Cqe>) -> (needs_waker_resubmit: bool)
        requires
            old(self).wf(),
            forall|k: int| 0 <= k < cqes@.len() ==> (#[trigger] cqes@[k]).res > i32::MIN,
        ensures
            final(self).wf(),
            final(self).model() == old(self).model().after_cqes(
                old(self).order,
                old(self).waker.token,
                cqes@,
            ),
            needs_waker_resubmit <==> exists|k: int|
                0 <= k < cqes@.len() && !(#[trigger] cqes@[k]).is_internal()
                    && old(self).waker.token == Some(cqes@[k].index()),
            final(self).same_but_ops_and_completions(old(self)),
    {
        let mut needs_waker_resubmit: bool = false;
        let mut k: usize = 0;
        while k < cqes.len()
            invariant
                self.wf(),
                k <= cqes@.len(),
                forall|j: int| 0 <= j < cqes@.len() ==> (#[trigger] cqes@[j]).res > i32::MIN,
                self.same_but_ops_and_completions(old(self)),
                self.model() == old(self).model().after_cqes(
                    old(self).order,
                    old(self).waker.token,
                    cqes@.take(k as int),
                ),
                needs_waker_resubmit <==> exists|j: int|
                    0 <= j < k && !(#[trigger] cqes@[j]).is_internal() && old(self).waker.token
                        == Some(cqes@[j].index()),
            decreases cqes@.len() - k,
        {
            let cqe = &cqes[k];
            assert(cqes@.take(k + 1).drop_last() =~= cqes@.take(k as int));
            assert(cqes@.take(k + 1).last() == *cqe);
            if self.is_waker_cqe(cqe) {
                needs_waker_resubmit = true;
            }
            self.process_cqe(cqe);
            k = k + 1;
        }
        assert(cqes@.take(k as int) =~= cqes@);
        needs_waker_resubmit
    }

    fn is_waker_cqe(&self, cqe: &Cqe) -> (b: bool)
        ensures
            b <==> !cqe.is_internal() && self.waker.token == Some(cqe.index()),
    {
        let user_data: usize = #[verifier::truncate]
        (cqe.user_data as usize);
        let all_ones: usize = #[verifier::truncate]
        (u64::MAX as usize);
        let cancel: usize = #[verifier::truncate]
        (CANCEL_USER_DATA as usize);
        let background: usize = #[verifier::truncate]
        (BACKGROUND_USER_DATA as usize);
        if user_data == all_ones || user_data == cancel || user_data == background {
            return false;
        }
        match self.waker.token {
            Some(token) => token == user_data,
            None => false,
        }
    }

    /// Ends the operations whose timers have run out. One that is no longer waited
    /// for is passed over.
    pub fn expire_timers(&mut self, expired: &Vec<usize>)
        requires
            old(self).wf(),
        ensures
            final(self).wf(),
            final(self).same_but_ops_and_completions(old(self)),
            final(self).model() == old(self).model().after_expiry(expired@),
    {
        let mut k: usize = 0;
        while k < expired.len()
            invariant
                self.wf(),
                k <= expired@.len(),
                self.same_but_ops_and_completions(old(self)),
                self.model() == old(self).model().after_expiry(expired@.take(k as int)),
            decreases expired@.len() - k,
        {
            let user_data: usize = expired[k];
            assert(expired@.take(k + 1).drop_last() =~= expired@.take(k as int));
            assert(expired@.take(k + 1).last() == user_data);
            match self.ops.state(user_data) {
                Some(SlotState::InFlightWaiting) => {
                    self.end_op(user_data, 0, 0, None, None);
                },
                _ => {},
            }
            k = k + 1;
        }
        assert(expired@.take(k as int) =~= expired@);
    }
}

} // verus!
