//! From an operation in a slot to an operation under way, and back when the system
//! refuses it.
use vstd::prelude::*;
use crate::slots::{OpSlot, SlotState};
use super::buffer::MemoryRange;
use super::driver::IocpDriver;
use super::error::DriverErrorKind;
use super::op::{actor_key, socket_key_spec, IocpOp, IocpOpState};
use super::rio::kernel::RioBufferId;
use super::rio::pool::Answer;
use super::rio::sockets::{SocketKey, SocketRuntime};
use super::rio::state::RioState;
use super::submit::{
    bytes_of, OpStep, SubmissionResult, SubmitAsk, SubmitHead, SubmitStage, SubmitWork,
};
use super::table::TableModel;

verus! {

/// `ERROR_OPERATION_ABORTED`.
pub const ERROR_OPERATION_ABORTED: i32 = 995;

/// What is published for an operation that the thread pool refused: a failure without
/// a system error.
pub const OFFLOAD_REFUSED_RES: i32 = -1;

/// Whether the system has seen an operation whose submission failed.
#[derive(Debug, Clone, Copy, PartialEq, Eq, Structural)]
pub enum SubmitStatus {
    Void,
    InFlight,
}

/// Where a submission stands.
#[derive(Debug)]
#[allow(inconsistent_fields)]
pub enum SubmitStep {
    /// The system is asked for something; the submission goes on with its answer.
    Ask { ask: SubmitAsk, work: SubmitWork },
    /// The submission goes on by itself.
    Next { work: SubmitWork },
    /// The operation is under way. The buffers have to be deregistered.
    Done { released: Vec<RioBufferId> },
    /// The submission failed; the operation may come back. The buffers have to be
    /// deregistered.
    Failed {
        kind: DriverErrorKind,
        code: Option<i32>,
        status: SubmitStatus,
        op: Option<IocpOp>,
        released: Vec<RioBufferId>,
    },
}

impl SubmitWork {
    /// The submission can go on with the driver `d`.
    pub open spec fn fits<P>(&self, d: &IocpDriver<P>) -> bool {
        &&& self.head.holds(d.table.model())
        &&& self.stage.suits(self.head, d)
    }
}

impl SubmitStep {
    /// The step can be taken with the driver `d`.
    pub open spec fn fits<P>(&self, d: &IocpDriver<P>) -> bool {
        match self {
            SubmitStep::Ask { work, .. } => work.fits(d) && work.stage.waits(),
            SubmitStep::Next { work } => work.fits(d) && !work.stage.waits(),
            _ => true,
        }
    }

    /// The system is asked for something.
    pub open spec fn asks(
        &self,
        a: SubmitAsk,
        head: SubmitHead,
        stage: SubmitStage,
        released: Seq<RioBufferId>,
    ) -> bool {
        self matches SubmitStep::Ask { ask, work } && ask == a && work.head == head && work.stage
            == stage && work.released@ == released
    }

    /// The submission goes on by itself.
    pub open spec fn goes_on(
        &self,
        head: SubmitHead,
        stage: SubmitStage,
        released: Seq<RioBufferId>,
    ) -> bool {
        self matches SubmitStep::Next { work } && work.head == head && work.stage == stage
            && work.released@ == released
    }

    /// The operation is under way.
    pub open spec fn done(&self, ids: Seq<RioBufferId>) -> bool {
        self matches SubmitStep::Done { released } && released@ == ids
    }

    /// The submission failed.
    pub open spec fn failed(
        &self,
        k: DriverErrorKind,
        c: Option<i32>,
        s: SubmitStatus,
        o: Option<IocpOp>,
        ids: Seq<RioBufferId>,
    ) -> bool {
        self matches SubmitStep::Failed { kind, code, status, op, released } && kind == k && code
            == c && status == s && op == o && released@ == ids
    }
}

/// The notes on an operation that has just been put into a slot.
pub open spec fn prepared(platform: IocpOpState, generation: u32) -> IocpOpState {
    IocpOpState {
        generation,
        blocking_result: None,
        in_flight: false,
        resolved_handle: None,
        datagram: None,
        ..platform
    }
}

/// The socket that an operation keeps busy once it is under way.
pub open spec fn keeps_busy(platform: IocpOpState, result: SubmissionResult) -> Option<SocketKey> {
    if result is Pending && platform.in_flight {
        match platform.resolved_handle {
            Some(h) => if h is Socket {
                Some(socket_key_spec(h))
            } else {
                None
            },
            None => None,
        }
    } else {
        None
    }
}

/// One more operation keeps the socket busy, if there is one.
pub open spec fn counted(before: &RioState, after: &RioState, key: Option<SocketKey>) -> bool {
    &&& after.same_but_sockets(before)
    &&& match key {
        Some(key) => before.sockets.with(
            &after.sockets,
            key,
            SocketRuntime {
                inflight: (if before.sockets.of(key).inflight == usize::MAX {
                    usize::MAX as int
                } else {
                    before.sockets.of(key).inflight + 1
                }) as usize,
                ..before.sockets.of(key)
            },
        ),
        None => after.sockets == before.sockets,
    }
}

/// When a timer that is started now fires.
pub open spec fn deadline(now: u64, nanos: u64) -> u64 {
    (if now + nanos > u64::MAX {
        u64::MAX as int
    } else {
        now + nanos
    }) as u64
}

impl<P> IocpDriver<P> {
    /// The operation in slot `i` once it is on its way to the system.
    pub open spec fn on_its_way(&self, i: int, op: IocpOp) -> TableModel<P> {
        let slot = self.table.ops.slots@[i];
        self.table.model().with_slot(
            i,
            OpSlot {
                state: Some(SlotState::InFlightWaiting),
                op: Some(op),
                platform: prepared(slot.platform, slot.generation),
                ..slot
            },
        )
    }

    /// Puts an operation into its slot, and sends it on its way.
    pub fn call_op_submit(
        &mut self,
        user_data: usize,
        op: IocpOp,
        chunk: Option<MemoryRange>,
        background: bool,
    ) -> (r: Result<SubmitWork, DriverErrorKind>)
        requires
            old(self).wf(),
            op.wf(),
        ensures
            final(self).wf(),
            final(self).same_but_table(old(self)),
            if old(self).table.model().in_state(user_data as int, SlotState::Reserved) {
                let head = SubmitHead {
                    user_data,
                    generation: old(self).table.ops.slots@[user_data as int].generation,
                    op,
                    chunk,
                    background,
                };
                &&& r matches Ok(work)
                &&& work.head == head
                &&& work.stage is Begin
                &&& work.released@ == Seq::<RioBufferId>::empty()
                &&& work.fits(final(self))
                &&& final(self).table.model() == old(self).on_its_way(user_data as int, op)
            } else {
                &&& r == Err::<SubmitWork, DriverErrorKind>(DriverErrorKind::InvalidState)
                &&& *final(self) == *old(self)
            },
    {
        let reserved: bool = match self.table.ops.state(user_data) {
            Some(SlotState::Reserved) => true,
            _ => false,
        };
        if !reserved {
            return Err(DriverErrorKind::InvalidState);
        }
        let generation: u32 = self.table.ops.slots[user_data].generation;
        let platform: IocpOpState = self.table.ops.slots[user_data].platform;
        self.table.ops.set_platform(
            user_data,
            IocpOpState {
                generation,
                blocking_result: None,
                in_flight: false,
                resolved_handle: None,
                datagram: None,
                ..platform
            },
        );
        self.table.ops.set_op(user_data, op);
        self.table.ops.set_state(user_data, SlotState::InFlightWaiting);
        proof {
            assert(self.table.model() =~= old(self).on_its_way(user_data as int, op));
        }
        Ok(
            SubmitWork {
                head: SubmitHead { user_data, generation, op, chunk, background },
                stage: SubmitStage::Begin,
                released: Vec::new(),
            },
        )
    }

    /// Submits the operation in a slot that was reserved for it. `chunk` is the memory
    /// of the chunk that its buffer lies in.
    pub fn submit(&mut self, user_data: usize, op: Option<IocpOp>, chunk: Option<MemoryRange>) -> (step:
        SubmitStep)
        requires
            old(self).wf(),
            op matches Some(op) ==> op.wf(),
        ensures
            final(self).wf(),
            step.fits(final(self)),
            final(self).same_but_table(old(self)),
            if old(self).shutting_down {
                &&& *final(self) == *old(self)
                &&& step.failed(
                    DriverErrorKind::System,
                    Some(ERROR_OPERATION_ABORTED),
                    SubmitStatus::Void,
                    op,
                    Seq::empty(),
                )
            } else {
                match op {
                    None => {
                        &&& *final(self) == *old(self)
                        &&& step.failed(
                            DriverErrorKind::InvalidInput,
                            None,
                            SubmitStatus::Void,
                            None,
                            Seq::empty(),
                        )
                    },
                    Some(op) => if old(self).table.model().in_state(
                        user_data as int,
                        SlotState::Reserved,
                    ) {
                        &&& step.goes_on(
                            SubmitHead {
                                user_data,
                                generation: old(
                                    self,
                                ).table.ops.slots@[user_data as int].generation,
                                op,
                                chunk,
                                background: false,
                            },
                            SubmitStage::Begin,
                            Seq::empty(),
                        )
                        &&& final(self).table.model() == old(self).on_its_way(user_data as int, op)
                    } else {
                        &&& *final(self) == *old(self)
                        &&& step.failed(
                            DriverErrorKind::Submission,
                            None,
                            SubmitStatus::Void,
                            None,
                            Seq::empty(),
                        )
                    },
                }
            },
    {
        if self.shutting_down {
            return SubmitStep::Failed {
                kind: DriverErrorKind::System,
                code: Some(ERROR_OPERATION_ABORTED),
                status: SubmitStatus::Void,
                op,
                released: Vec::new(),
            };
        }
        let op = match op {
            Some(op) => op,
            None => {
                return SubmitStep::Failed {
                    kind: DriverErrorKind::InvalidInput,
                    code: None,
                    status: SubmitStatus::Void,
                    op: None,
                    released: Vec::new(),
                };
            },
        };
        match self.call_op_submit(user_data, op, chunk, false) {
            Ok(work) => SubmitStep::Next { work },
            Err(_) => SubmitStep::Failed {
                kind: DriverErrorKind::Submission,
                code: None,
                status: SubmitStatus::Void,
                op: None,
                released: Vec::new(),
            },
        }
    }

    /// Submits an operation that nobody waits for, in a slot of its own.
    pub fn submit_background(&mut self, op: IocpOp, chunk: Option<MemoryRange>) -> (step: SubmitStep)
        requires
            old(self).wf(),
            op.wf(),
        ensures
            final(self).wf(),
            step.fits(final(self)),
            final(self).same_but_table(old(self)),
            if old(self).shutting_down {
                &&& *final(self) == *old(self)
                &&& step.failed(
                    DriverErrorKind::System,
                    Some(ERROR_OPERATION_ABORTED),
                    SubmitStatus::Void,
                    None,
                    Seq::empty(),
                )
            } else if forall|i: int|
                0 <= i < old(self).table.ops.slots@.len() ==> old(self).table.ops.live(i) {
                &&& final(self).table.model() == old(self).table.model()
                &&& step.failed(
                    DriverErrorKind::Registration,
                    None,
                    SubmitStatus::Void,
                    None,
                    Seq::empty(),
                )
            } else {
                &&& step matches SubmitStep::Next { work }
                &&& work.stage is Begin
                &&& work.released@.len() == 0
                &&& work.head.background && work.head.op == op && work.head.chunk == chunk
                &&& !old(self).table.ops.live(work.head.user_data as int)
                &&& work.head.user_data < old(self).table.ops.slots@.len()
                &&& work.head.generation
                    == old(self).table.ops.slots@[work.head.user_data as int].generation
                &&& final(self).table.model() == old(self).table.model().with_slot(
                    work.head.user_data as int,
                    OpSlot {
                        state: Some(SlotState::InFlightWaiting),
                        op: Some(op),
                        ..OpSlot::fresh(
                            work.head.generation,
                            IocpOpState::fresh(work.head.generation),
                        )
                    },
                )
            },
    {
        if self.shutting_down {
            return SubmitStep::Failed {
                kind: DriverErrorKind::System,
                code: Some(ERROR_OPERATION_ABORTED),
                status: SubmitStatus::Void,
                op: None,
                released: Vec::new(),
            };
        }
        let user_data: usize = match self.reserve_op() {
            Ok((user_data, _)) => user_data,
            Err(kind) => {
                return SubmitStep::Failed {
                    kind,
                    code: None,
                    status: SubmitStatus::Void,
                    op: None,
                    released: Vec::new(),
                };
            },
        };
        match self.call_op_submit(user_data, op, chunk, true) {
            Ok(work) => {
                proof {
                    assert(self.table.model() =~= old(self).table.model().with_slot(
                        work.head.user_data as int,
                        OpSlot {
                            state: Some(SlotState::InFlightWaiting),
                            op: Some(op),
                            ..OpSlot::fresh(
                                work.head.generation,
                                IocpOpState::fresh(work.head.generation),
                            )
                        },
                    ));
                }
                SubmitStep::Next { work }
            },
            Err(kind) => SubmitStep::Failed {
                kind,
                code: None,
                status: SubmitStatus::Void,
                op: None,
                released: Vec::new(),
            },
        }
    }

    /// What the outcome of the way to the system means for the operation. One that the
    /// system refused is back in its slot, and may be submitted again; without anybody
    /// who waits for it, it is gone.
    pub open spec fn settled(
        &self,
        after: &Self,
        head: SubmitHead,
        released: Seq<RioBufferId>,
        op_step: OpStep,
        step: &SubmitStep,
    ) -> bool {
        let i = head.user_data as int;
        let t = self.table.model();
        let slot = self.table.ops.slots@[i];
        let p = slot.platform;
        match op_step {
            OpStep::Ask { ask, stage } => self.unchanged(after) && step.asks(
                ask,
                head,
                stage,
                released,
            ),
            OpStep::Next { stage, released: more } => self.unchanged(after) && step.goes_on(
                head,
                stage,
                released + more@,
            ),
            OpStep::Done { result, released: more } => {
                let ids = released + more@;
                &&& after.same_but_table_and_rio(self)
                &&& counted(&self.rio, &after.rio, keeps_busy(p, result))
                &&& if head.background {
                    &&& after.table.model() == t.with_platform(
                        i,
                        IocpOpState { is_background: true, ..p },
                    )
                    &&& match result {
                        SubmissionResult::Offload { task } => step.asks(
                            SubmitAsk::Offload { task },
                            head,
                            SubmitStage::Offloaded,
                            ids,
                        ),
                        _ => step.done(ids),
                    }
                } else {
                    match result {
                        SubmissionResult::Pending => {
                            &&& after.table.model() == t.with_platform(
                                i,
                                IocpOpState {
                                    rio_pool_waiting: head.op is UdpRecv
                                        || head.op is UdpRecvStream,
                                    ..p
                                },
                            )
                            &&& step.done(ids)
                        },
                        SubmissionResult::PostToQueue => {
                            &&& after.table.model() == t
                            &&& step.asks(
                                SubmitAsk::Notify {
                                    port: self.port.handle.raw,
                                    user_data: head.user_data,
                                },
                                head,
                                SubmitStage::Notified,
                                ids,
                            )
                        },
                        SubmissionResult::Offload { task } => {
                            &&& after.table.model() == t.with_platform(
                                i,
                                IocpOpState { rio_pool_waiting: false, ..p },
                            )
                            &&& step.asks(
                                SubmitAsk::Offload { task },
                                head,
                                SubmitStage::Offloaded,
                                ids,
                            )
                        },
                        SubmissionResult::Timer { nanos } => {
                            &&& after.table.model() == t
                            &&& step.asks(
                                SubmitAsk::StartTimer { user_data: head.user_data, nanos },
                                head,
                                SubmitStage::TimerStarted { nanos },
                                ids,
                            )
                        },
                    }
                }
            },
            OpStep::Failed { failure, released: more } => {
                &&& after.same_but_table(self)
                &&& after.table.model() == (if head.background {
                    t.freed(i)
                } else {
                    t.with_slot(
                        i,
                        OpSlot {
                            state: Some(SlotState::Reserved),
                            platform: IocpOpState { in_flight: false, ..p },
                            ..slot
                        },
                    )
                })
                &&& step.failed(
                    DriverErrorKind::Submission,
                    failure.code,
                    SubmitStatus::Void,
                    None,
                    released + more@,
                )
            },
        }
    }

    /// Counts an operation that keeps a socket busy.
    fn track_socket_submit_pending(&mut self, platform: IocpOpState, result: SubmissionResult)
        requires
            old(self).wf(),
        ensures
            final(self).wf(),
            final(self).same_but_table_and_rio(old(self)),
            final(self).table == old(self).table,
            counted(&old(self).rio, &final(self).rio, keeps_busy(platform, result)),
    {
        let pending: bool = match result {
            SubmissionResult::Pending => true,
            _ => false,
        };
        if pending && platform.in_flight {
            if let Some(h) = platform.resolved_handle {
                if h.is_socket() {
                    let _ = self.rio.sockets.try_acquire_socket_inflight(actor_key(h));
                }
            }
        }
    }

    fn on_submit_done(
        &mut self,
        head: SubmitHead,
        released: Vec<RioBufferId>,
        result: SubmissionResult,
    ) -> (step: SubmitStep)
        requires
            old(self).wf(),
            head.holds(old(self).table.model()),
        ensures
            final(self).wf(),
            step.fits(final(self)),
            forall|earlier: Seq<RioBufferId>, more: Vec<RioBufferId>|
                earlier + more@ == released@ ==> #[trigger] old(self).settled(
                    final(self),
                    head,
                    earlier,
                    OpStep::Done { result, released: more },
                    &step,
                ),
    {
        let i: usize = head.user_data;
        let platform: IocpOpState = self.table.ops.slots[i].platform;
        self.track_socket_submit_pending(platform, result);
        if head.background {
            self.table.set_platform(i, IocpOpState { is_background: true, ..platform });
            return match result {
                SubmissionResult::Offload { task } => SubmitStep::Ask {
                    ask: SubmitAsk::Offload { task },
                    work: SubmitWork { head, stage: SubmitStage::Offloaded, released },
                },
                _ => SubmitStep::Done { released },
            };
        }
        match result {
            SubmissionResult::Pending => {
                self.table.set_platform(
                    i,
                    IocpOpState { rio_pool_waiting: head.op.waits_for_pool(), ..platform },
                );
                SubmitStep::Done { released }
            },
            SubmissionResult::PostToQueue => SubmitStep::Ask {
                ask: SubmitAsk::Notify { port: self.port.handle.as_raw(), user_data: i },
                work: SubmitWork { head, stage: SubmitStage::Notified, released },
            },
            SubmissionResult::Offload { task } => {
                self.table.set_platform(i, IocpOpState { rio_pool_waiting: false, ..platform });
                SubmitStep::Ask {
                    ask: SubmitAsk::Offload { task },
                    work: SubmitWork { head, stage: SubmitStage::Offloaded, released },
                }
            },
            SubmissionResult::Timer { nanos } => SubmitStep::Ask {
                ask: SubmitAsk::StartTimer { user_data: i, nanos },
                work: SubmitWork { head, stage: SubmitStage::TimerStarted { nanos }, released },
            },
        }
    }

    /// Takes note of where an operation stands on its way to the system.
    fn on_submit_res(&mut self, head: SubmitHead, released: Vec<RioBufferId>, op_step: OpStep) -> (step:
        SubmitStep)
        requires
            old(self).wf(),
            head.holds(old(self).table.model()),
            op_step.fits(head, old(self)),
        ensures
            final(self).wf(),
            step.fits(final(self)),
            old(self).settled(final(self), head, released@, op_step, &step),
    {
        let i: usize = head.user_data;
        let mut ids = released;
        match op_step {
            OpStep::Ask { ask, stage } => SubmitStep::Ask {
                ask,
                work: SubmitWork { head, stage, released: ids },
            },
            OpStep::Next { stage, released: more } => {
                let mut more_ids = more;
                ids.append(&mut more_ids);
                SubmitStep::Next { work: SubmitWork { head, stage, released: ids } }
            },
            OpStep::Done { result, released: more } => {
                let mut more_ids = more;
                ids.append(&mut more_ids);
                self.on_submit_done(head, ids, result)
            },
            OpStep::Failed { failure, released: more } => {
                let mut more_ids = more;
                ids.append(&mut more_ids);
                if head.background {
                    self.table.free_op(i);
                } else {
                    let ghost before = self.table.model();
                    let platform: IocpOpState = self.table.ops.slots[i].platform;
                    self.table.set_platform(i, IocpOpState { in_flight: false, ..platform });
                    self.table.ops.set_state(i, SlotState::Reserved);
                    assert(self.table.model() =~= before.with_slot(
                        i as int,
                        OpSlot {
                            state: Some(SlotState::Reserved),
                            platform: IocpOpState { in_flight: false, ..platform },
                            ..before.slots[i as int]
                        },
                    ));
                }
                SubmitStep::Failed {
                    kind: DriverErrorKind::Submission,
                    code: failure.code,
                    status: SubmitStatus::Void,
                    op: None,
                    released: ids,
                }
            },
        }
    }

    /// Goes on with a submission that waits for nothing.
    pub fn advance_submit(&mut self, work: SubmitWork, now: u64) -> (step: SubmitStep)
        requires
            old(self).wf(),
            work.fits(old(self)),
            !work.stage.waits(),
            work.stage.has_room(&old(self).rio),
        ensures
            final(self).wf(),
            step.fits(final(self)),
            exists|mid: Self, op_step: OpStep| #[trigger]
                old(self).op_advanced(&mid, work.head, &work.stage, now, &op_step) && mid.settled(
                    final(self),
                    work.head,
                    work.released@,
                    op_step,
                    &step,
                ),
    {
        let head = work.head;
        let op_step = self.op_advance(head, work.stage, now);
        let ghost mid = *self;
        let step = self.on_submit_res(head, work.released, op_step);
        assert(old(self).op_advanced(&mid, work.head, &work.stage, now, &op_step));
        step
    }

    /// Goes on with the name of a socket that is to connect, if it could be read.
    pub fn name_submit(&mut self, work: SubmitWork, name: Option<Vec<u8>>) -> (step: SubmitStep)
        requires
            old(self).wf(),
            work.fits(old(self)),
            work.stage is NameRead,
        ensures
            final(self).wf(),
            step.fits(final(self)),
            exists|op_step: OpStep| #[trigger]
                old(self).name_read(
                    work.head,
                    work.stage->NameRead_handle,
                    bytes_of(name),
                    &op_step,
                ) && old(self).settled(final(self), work.head, work.released@, op_step, &step),
    {
        let head = work.head;
        let op_step = match work.stage {
            SubmitStage::NameRead { handle } => self.ensure_socket_bound(head, handle, name),
            stage => OpStep::Next { stage, released: Vec::new() },
        };
        self.on_submit_res(head, work.released, op_step)
    }

    /// What the answer to the last thing that was asked for an operation leads to.
    pub open spec fn finished(
        &self,
        after: &Self,
        work: &SubmitWork,
        answer: Answer,
        now: u64,
        step: &SubmitStep,
    ) -> bool {
        let i = work.head.user_data as int;
        let t = self.table.model();
        let p = self.notes(i);
        let ids = work.released@;
        &&& after.same_but_table(self)
        &&& match work.stage {
            SubmitStage::Notified => if answer.value == 0 {
                &&& after.table.model() == t.freed(i)
                &&& step.failed(
                    DriverErrorKind::Submission,
                    Some(answer.error),
                    SubmitStatus::Void,
                    Some(work.head.op),
                    ids,
                )
            } else {
                &&& after.table.model() == t.with_platform(
                    i,
                    IocpOpState { rio_pool_waiting: false, ..p },
                )
                &&& step.done(ids)
            },
            SubmitStage::Offloaded => if answer.value == 0 {
                &&& after.table.model() == (if work.head.background {
                    t.freed(i)
                } else {
                    t.ended(i, work.head.generation, OFFLOAD_REFUSED_RES, None)
                })
                &&& step.failed(
                    DriverErrorKind::Submission,
                    None,
                    if work.head.background {
                        SubmitStatus::Void
                    } else {
                        SubmitStatus::InFlight
                    },
                    None,
                    ids,
                )
            } else {
                &&& after.table.model() == t
                &&& step.done(ids)
            },
            SubmitStage::TimerStarted { nanos } => {
                &&& after.table.model() == t.with_platform(
                    i,
                    IocpOpState {
                        timer_id: Some(answer.value),
                        timer_deadline: Some(deadline(now, nanos)),
                        rio_pool_waiting: false,
                        ..p
                    },
                )
                &&& step.done(ids)
            },
            _ => false,
        }
    }

    /// Takes note of a timer that was started.
    fn handle_timer_sub(&mut self, work: SubmitWork, answer: Answer, now: u64) -> (step: SubmitStep)
        requires
            old(self).wf(),
            work.fits(old(self)),
            work.stage is TimerStarted,
        ensures
            final(self).wf(),
            step.fits(final(self)),
            old(self).finished(final(self), &work, answer, now, &step),
    {
        let i: usize = work.head.user_data;
        let released = work.released;
        let platform: IocpOpState = self.table.ops.slots[i].platform;
        let nanos: u64 = match work.stage {
            SubmitStage::TimerStarted { nanos } => nanos,
            _ => 0,
        };
        self.table.set_platform(
            i,
            IocpOpState {
                timer_id: Some(answer.value),
                timer_deadline: Some(now.saturating_add(nanos)),
                rio_pool_waiting: false,
                ..platform
            },
        );
        SubmitStep::Done { released }
    }

    /// The thread pool has taken a call, or refused it.
    fn handle_offload(&mut self, work: SubmitWork, answer: Answer, now: u64) -> (step: SubmitStep)
        requires
            old(self).wf(),
            work.fits(old(self)),
            work.stage is Offloaded,
        ensures
            final(self).wf(),
            step.fits(final(self)),
            old(self).finished(final(self), &work, answer, now, &step),
    {
        let i: usize = work.head.user_data;
        let released = work.released;
        if answer.value != 0 {
            return SubmitStep::Done { released };
        }
        let status = if work.head.background {
            self.table.free_op(i);
            SubmitStatus::Void
        } else {
            self.table.end_op(i, work.head.generation, OFFLOAD_REFUSED_RES, None);
            SubmitStatus::InFlight
        };
        SubmitStep::Failed {
            kind: DriverErrorKind::Submission,
            code: None,
            status,
            op: None,
            released,
        }
    }

    /// The packet for an operation was posted, or not.
    fn handle_post_to_queue(&mut self, work: SubmitWork, answer: Answer, now: u64) -> (step: SubmitStep)
        requires
            old(self).wf(),
            work.fits(old(self)),
            work.stage is Notified,
        ensures
            final(self).wf(),
            step.fits(final(self)),
            old(self).finished(final(self), &work, answer, now, &step),
    {
        let i: usize = work.head.user_data;
        let released = work.released;
        if answer.value != 0 {
            let platform: IocpOpState = self.table.ops.slots[i].platform;
            self.table.set_platform(i, IocpOpState { rio_pool_waiting: false, ..platform });
            return SubmitStep::Done { released };
        }
        self.table.free_op(i);
        SubmitStep::Failed {
            kind: DriverErrorKind::Submission,
            code: Some(answer.error),
            status: SubmitStatus::Void,
            op: Some(work.head.op),
            released,
        }
    }

    /// Goes on with the system's answer.
    pub fn answer_submit(&mut self, work: SubmitWork, answer: Answer, now: u64) -> (step: SubmitStep)
        requires
            old(self).wf(),
            work.fits(old(self)),
            work.stage.waits(),
            !(work.stage is NameRead),
            work.stage.has_room(&old(self).rio),
        ensures
            final(self).wf(),
            step.fits(final(self)),
            if work.stage is Notified || work.stage is Offloaded || work.stage is TimerStarted {
                old(self).finished(final(self), &work, answer, now, &step)
            } else {
                exists|mid: Self, op_step: OpStep| #[trigger]
                    old(self).op_answered(&mid, work.head, &work.stage, answer, now, &op_step)
                        && mid.settled(final(self), work.head, work.released@, op_step, &step)
            },
    {
        match &work.stage {
            SubmitStage::Notified => {
                return self.handle_post_to_queue(work, answer, now);
            },
            SubmitStage::Offloaded => {
                return self.handle_offload(work, answer, now);
            },
            SubmitStage::TimerStarted { .. } => {
                return self.handle_timer_sub(work, answer, now);
            },
            _ => {},
        }
        let head = work.head;
        let op_step = self.op_answer(head, work.stage, answer, now);
        let ghost mid = *self;
        let step = self.on_submit_res(head, work.released, op_step);
        assert(old(self).op_answered(&mid, work.head, &work.stage, answer, now, &op_step));
        step
    }
}

} // verus!
