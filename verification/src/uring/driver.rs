//! The driver: operations on their way to the kernel and back.
use std::collections::VecDeque;
use vstd::prelude::*;
use crate::completion::{CompletionEvent, CompletionSink};
use crate::sockaddr::{is_native, native_order, ByteOrder};
use super::chunks::{bump, ChunkRegistry, UringRegistrationStats, MAX_CHUNKS};
use super::config::UringConfig;
use super::error::{DriverErrorKind, UringError};
use super::files::FileTable;
use super::op::{Sqe, SubmissionStrategy, UringOp};
use crate::slots::{OpRegistry, OpSlot, SlotState};

verus! {

/// What the driver notes about an operation.
#[derive(Debug, Clone, Copy, PartialEq, Eq, Structural)]
pub struct UringOpState {
    /// The timer that carries the operation out, if one does.
    pub timer_id: Option<u64>,
}

impl UringOpState {
    /// The notes about a new operation.
    pub fn new() -> (s: Self)
        ensures
            s.timer_id is None,
    {
        UringOpState { timer_id: None }
    }
}

/// An operation slot of this driver.
pub type UringSlot<P> = OpSlot<UringOp, UringOpState, P>;

/// The standing read of the wake-up descriptor.
#[derive(Debug, Clone, Copy, PartialEq, Eq, Structural)]
pub struct WakerState {
    /// The registered index of the wake-up descriptor.
    pub registered_fd: Option<u32>,
    /// The slot of the standing read.
    pub token: Option<usize>,
}

/// The state of an io_uring driver. `P` is what submitters attach to operations.
pub struct UringDriver<P> {
    pub ops: OpRegistry<UringOp, UringOpState, P>,
    /// Operations that wait for room in the submission queue, in order.
    pub backlog: VecDeque<usize>,
    /// Cancellations that wait for room in the submission queue, in order.
    pub pending_cancellations: VecDeque<usize>,
    pub completions: CompletionSink<P>,
    pub chunks: ChunkRegistry,
    pub files: FileTable,
    pub waker: WakerState,
    /// The byte order of this machine.
    pub order: ByteOrder,
}

/// A chunk as the buffer registrar describes it.
#[derive(Debug, Clone, Copy, PartialEq, Eq, Structural)]
pub struct ChunkInfo {
    pub id: u16,
    pub len: usize,
}

/// An operation being submitted: its slot, its entry, and how many of its chunks
/// have been dealt with.
#[derive(Debug)]
pub struct Submission {
    pub user_data: usize,
    pub sqe: Sqe,
    pub chunks: Vec<u16>,
    pub next: usize,
}

/// What the caller has to do next to submit an operation.
#[derive(Debug)]
pub enum SubmitStep {
    /// Ask the buffer registrar about chunk `chunks[next]`.
    ResolveChunk(Submission),
    /// Ask the kernel to register the chunk under `index`.
    RegisterChunk { submission: Submission, index: u32, info: ChunkInfo },
    /// Put the entry into the submission queue.
    PushSqe(Submission),
    /// Start a timer for the operation.
    ArmTimer { user_data: usize, secs: u64, nanos: u32 },
    /// Nothing: the operation cannot be submitted.
    Failed(UringError),
}

/// How far a submission got.
#[derive(Debug, Clone, Copy, PartialEq, Eq, Structural)]
pub enum SubmitPoll {
    /// The operation is on its way.
    Ready,
    /// The operation waits in the backlog.
    Pending,
}

impl Submission {
    /// The submission is of an operation in flight.
    pub open spec fn wf<P>(&self, d: &UringDriver<P>) -> bool {
        &&& d.ops.in_state(self.user_data as int, SlotState::InFlightWaiting)
        &&& self.next <= self.chunks@.len()
        &&& self.chunks@.len() <= 1
    }
}

impl<P> UringDriver<P> {
    /// The parts of the driver are in order and fit each other.
    pub open spec fn wf(&self) -> bool {
        &&& self.ops.wf()
        &&& forall|i: int|
            0 <= i < self.ops.slots@.len() ==> ((#[trigger] self.ops.slots@[i]).op matches Some(op)
                ==> op.wf())
        &&& self.completions.records().len() == self.ops.slots@.len()
        &&& self.chunks.wf()
        &&& self.files.wf()
    }

    /// Nothing but operations and chunk registrations differs.
    pub open spec fn same_but_ops_and_chunks(&self, before: &Self) -> bool {
        &&& self.backlog@ == before.backlog@
        &&& self.pending_cancellations@ == before.pending_cancellations@
        &&& self.completions == before.completions
        &&& self.files == before.files
        &&& self.waker == before.waker
        &&& self.order == before.order
    }

    /// Nothing but operations differs.
    pub open spec fn same_but_ops(&self, before: &Self) -> bool {
        &&& self.same_but_ops_and_chunks(before)
        &&& self.chunks == before.chunks
    }

    /// Slot `i` is `slot`, the other slots are as before.
    pub open spec fn slot_becomes(&self, before: &Self, i: int, slot: UringSlot<P>) -> bool {
        self.ops.slots@ == before.ops.slots@.update(i, slot)
    }

    /// Slot `i` is back to where submission started: reserved, with its operation.
    pub open spec fn slot_reverted(&self, before: &Self, i: int) -> bool {
        self.slot_becomes(
            before,
            i,
            OpSlot { state: Some(SlotState::Reserved), ..before.ops.slots@[i] },
        )
    }

    /// The driver has nothing to do, and never had: every slot is free, nothing waits,
    /// and nothing is registered. It reads addresses in the byte order of the machine.
    pub open spec fn idle(&self, config: &UringConfig) -> bool {
        &&& is_native(self.order)
        &&& self.ops.slots@ == Seq::new(
            config.entries.spec_get() as nat,
            |i: int| UringSlot::<P>::vacant(0, UringOpState { timer_id: None }),
        )
        &&& self.ops.slots@.len() == config.entries.spec_get()
        &&& forall|i: int| !self.ops.live(i)
        &&& self.backlog@.len() == 0
        &&& self.pending_cancellations@.len() == 0
        &&& self.completions.events() == Seq::<CompletionEvent>::empty()
        &&& forall|i: int|
            0 <= i < self.completions.records().len() ==> (
            #[trigger] self.completions.records()[i]) is None
        &&& self.chunks.registered@ == Set::<int>::empty()
        &&& self.chunks.failures() == Map::<u16, u64>::empty()
        &&& self.chunks.mode == config.registration_mode
        &&& self.chunks.stats == UringRegistrationStats::zero()
        &&& !self.files.initialized
        &&& self.files.files@.len() == 0
        &&& self.files.free@.len() == 0
        &&& self.waker == (WakerState { registered_fd: None, token: None })
    }

    /// A driver with nothing to do, for `config.entries` operations at a time.
    pub fn new(config: &UringConfig) -> (d: Self)
        ensures
            d.wf(),
            d.idle(config),
    {
        let entries: usize = config.entries.get() as usize;
        UringDriver {
            ops: OpRegistry::new(entries, UringOpState::new()),
            backlog: VecDeque::new(),
            pending_cancellations: VecDeque::new(),
            completions: CompletionSink::new(entries),
            chunks: ChunkRegistry::new(config.registration_mode),
            files: FileTable::new(),
            waker: WakerState { registered_fd: None, token: None },
            order: native_order(),
        }
    }

    /// Reserves a slot for an operation.
    pub fn reserve_op(&mut self) -> (r: Result<(usize, u32), DriverErrorKind>)
        requires
            old(self).wf(),
        ensures
            final(self).wf(),
            final(self).same_but_ops(old(self)),
            r is Err <==> forall|i: int|
                0 <= i < old(self).ops.slots@.len() ==> old(self).ops.live(i),
            r matches Err(e) ==> e is InvalidState && final(self).ops.slots@
                == old(self).ops.slots@,
            r matches Ok((i, g)) ==> {
                &&& i < old(self).ops.slots@.len()
                &&& !old(self).ops.live(i as int)
                &&& g == old(self).ops.slots@[i as int].generation
                &&& final(self).slot_becomes(old(self), i as int, OpSlot::fresh(
                    g,
                    UringOpState { timer_id: None },
                ))
            },
    {
        match self.ops.insert(UringOpState::new()) {
            Ok(handle) => Ok(handle),
            Err(_) => Err(DriverErrorKind::InvalidState),
        }
    }

    /// Attaches a payload to an operation. One whose slot is not in use is dropped.
    pub fn slot_set_payload(&mut self, user_data: usize, payload: P)
        requires
            old(self).wf(),
        ensures
            final(self).wf(),
            final(self).same_but_ops(old(self)),
            old(self).ops.live(user_data as int) ==> final(self).slot_becomes(
                old(self),
                user_data as int,
                OpSlot { payload: Some(payload), ..old(self).ops.slots@[user_data as int] },
            ),
            !old(self).ops.live(user_data as int) ==> final(self).ops.slots@
                == old(self).ops.slots@,
    {
        if self.ops.contains(user_data) {
            self.ops.set_payload(user_data, payload);
        }
    }

    /// Takes back the payload of an operation.
    pub fn slot_take_payload(&mut self, user_data: usize) -> (r: Option<P>)
        requires
            old(self).wf(),
        ensures
            final(self).wf(),
            final(self).same_but_ops(old(self)),
            old(self).ops.live(user_data as int) ==> {
                &&& r == old(self).ops.slots@[user_data as int].payload
                &&& final(self).slot_becomes(
                    old(self),
                    user_data as int,
                    OpSlot { payload: None, ..old(self).ops.slots@[user_data as int] },
                )
            },
            !old(self).ops.live(user_data as int) ==> r is None && final(self).ops.slots@
                == old(self).ops.slots@,
    {
        if self.ops.contains(user_data) {
            self.ops.take_payload(user_data)
        } else {
            None
        }
    }

    // -----------------------------------------------------------------------
    // Submission
    // -----------------------------------------------------------------------

    /// The chunks from place `from` up to place `to` of a list are within the table, and
    /// registered.
    pub open spec fn all_registered(&self, chunks: Seq<u16>, from: int, to: int) -> bool {
        forall|k: int|
            from <= k < to ==> (#[trigger] chunks[k]) < MAX_CHUNKS
                && self.chunks.registered@.contains(chunks[k] as int)
    }

    /// The step that follows when the chunks of `s` from `s.next` on remain to be
    /// looked at.
    pub open spec fn advanced(&self, before: &Self, s: &Submission, step: &SubmitStep) -> bool {
        match step {
            SubmitStep::PushSqe(t) => {
                &&& self.ops.slots@ == before.ops.slots@
                &&& t.user_data == s.user_data && t.sqe == s.sqe && t.chunks@ == s.chunks@
                &&& t.next == s.chunks@.len()
                &&& before.all_registered(s.chunks@, s.next as int, s.chunks@.len() as int)
                &&& t.wf(self)
            },
            SubmitStep::ResolveChunk(t) => {
                &&& self.ops.slots@ == before.ops.slots@
                &&& t.user_data == s.user_data && t.sqe == s.sqe && t.chunks@ == s.chunks@
                &&& s.next <= t.next < s.chunks@.len()
                &&& before.all_registered(s.chunks@, s.next as int, t.next as int)
                &&& t.chunks@[t.next as int] < MAX_CHUNKS
                &&& !before.chunks.registered@.contains(t.chunks@[t.next as int] as int)
                &&& t.wf(self)
            },
            SubmitStep::Failed(e) => {
                &&& e == UringError::InvalidState
                &&& exists|k: int|
                    {
                        &&& s.next <= k < s.chunks@.len()
                        &&& (#[trigger] s.chunks@[k]) >= MAX_CHUNKS
                        &&& before.all_registered(s.chunks@, s.next as int, k)
                    }
                &&& self.slot_reverted(before, s.user_data as int)
            },
            _ => false,
        }
    }

    /// Looks for the next chunk of a submission that is not registered. A chunk
    /// number beyond the table fails the submission.
    fn advance(&mut self, s: Submission) -> (step: SubmitStep)
        requires
            old(self).wf(),
            s.wf(old(self)),
        ensures
            final(self).wf(),
            final(self).same_but_ops(old(self)),
            final(self).advanced(old(self), &s, &step),
    {
        let mut t = s;
        while t.next < t.chunks.len()
            invariant
                self.wf(),
                self == old(self),
                t.wf(self),
                t.user_data == s.user_data,
                t.sqe == s.sqe,
                t.chunks@ == s.chunks@,
                s.next <= t.next,
                self.all_registered(s.chunks@, s.next as int, t.next as int),
            decreases t.chunks@.len() - t.next,
        {
            let id: u16 = t.chunks[t.next];
            match self.chunks.registered.get(id as usize) {
                Err(_) => {
                    self.ops.set_state(t.user_data, SlotState::Reserved);
                    assert(s.chunks@[t.next as int] >= MAX_CHUNKS);
                    return SubmitStep::Failed(UringError::InvalidState);
                },
                Ok(registered) => {
                    if !registered {
                        return SubmitStep::ResolveChunk(t);
                    }
                    t.next = t.next + 1;
                },
            }
        }
        SubmitStep::PushSqe(t)
    }

    /// Starts to submit the operation in slot `user_data`. The operation counts as in
    /// flight until the submission fails.
    pub fn begin_submission(&mut self, user_data: usize) -> (step: SubmitStep)
        requires
            old(self).wf(),
            old(self).ops.in_state(user_data as int, SlotState::Reserved) ==> old(
                self).ops.slots@[user_data as int].op is Some,
        ensures
            final(self).wf(),
            final(self).same_but_ops(old(self)),
            !old(self).ops.in_state(user_data as int, SlotState::Reserved) ==> {
                &&& step matches SubmitStep::Failed(e) && e is InvalidState
                &&& final(self).ops.slots@ == old(self).ops.slots@
            },
            old(self).ops.in_state(user_data as int, SlotState::Reserved) ==> old(
                self).begun(final(self), user_data, old(self).ops.slots@[user_data as int].op->Some_0, step),
    {
        match self.ops.state(user_data) {
            Some(SlotState::Reserved) => {},
            _ => {
                return SubmitStep::Failed(UringError::InvalidState);
            },
        }
        let op: UringOp = match self.ops.slots[user_data].op {
            Some(op) => op,
            None => {
                return SubmitStep::Failed(UringError::InvalidState);
            },
        };
        assert(op.wf());
        match op.strategy() {
            SubmissionStrategy::SubmitSqe => {
                let chunks = op.resolve_chunks();
                match op.make_sqe(&self.chunks.registered) {
                    Ok(sqe) => {
                        self.ops.set_state(user_data, SlotState::InFlightWaiting);
                        let s = Submission { user_data, sqe, chunks, next: 0 };
                        let ghost mid = *self;
                        let step = self.advance(s);
                        proof {
                            if step is Failed {
                                assert(self.ops.slots@ =~= old(self).ops.slots@);
                            }
                        }
                        step
                    },
                    Err(_) => SubmitStep::Failed(UringError::Submission),
                }
            },
            SubmissionStrategy::SoftwareTimer => match op.get_timeout() {
                Some((secs, nanos)) => {
                    self.ops.set_state(user_data, SlotState::InFlightWaiting);
                    SubmitStep::ArmTimer { user_data, secs, nanos }
                },
                None => SubmitStep::Failed(UringError::InvalidInput),
            },
            SubmissionStrategy::BackgroundOnly => SubmitStep::Failed(UringError::Unsupported),
        }
    }

    /// `after` and `step` are what comes of starting to submit `op`, which sits in
    /// the reserved slot `i`.
    pub open spec fn begun(&self, after: &Self, i: usize, op: UringOp, step: SubmitStep) -> bool {
        let in_flight = OpSlot {
            state: Some(SlotState::InFlightWaiting),
            ..self.ops.slots@[i as int]
        };
        match op.strategy_spec() {
            SubmissionStrategy::SubmitSqe => match op.sqe_spec(self.chunks.registered@) {
                Err(_) => {
                    &&& step == SubmitStep::Failed(UringError::Submission)
                    &&& after.ops.slots@ == self.ops.slots@
                },
                Ok(sqe) => match step {
                    // Every chunk is registered: the entry can go out.
                    SubmitStep::PushSqe(t) => {
                        &&& t.user_data == i && t.sqe == sqe && t.chunks@ == op.chunks_spec()
                        &&& t.next == t.chunks@.len()
                        &&& self.all_registered(
                            op.chunks_spec(),
                            0,
                            op.chunks_spec().len() as int,
                        )
                        &&& t.wf(after)
                        &&& after.slot_becomes(self, i as int, in_flight)
                    },
                    SubmitStep::ResolveChunk(t) => {
                        &&& t.user_data == i && t.sqe == sqe && t.chunks@ == op.chunks_spec()
                        &&& t.next < t.chunks@.len()
                        &&& self.all_registered(op.chunks_spec(), 0, t.next as int)
                        &&& t.chunks@[t.next as int] < MAX_CHUNKS
                        &&& !self.chunks.registered@.contains(t.chunks@[t.next as int] as int)
                        &&& t.wf(after)
                        &&& after.slot_becomes(self, i as int, in_flight)
                    },
                    SubmitStep::Failed(e) => {
                        &&& e == UringError::InvalidState
                        &&& exists|k: int|
                            {
                                &&& 0 <= k < op.chunks_spec().len()
                                &&& (#[trigger] op.chunks_spec()[k]) >= MAX_CHUNKS
                                &&& self.all_registered(op.chunks_spec(), 0, k)
                            }
                        &&& after.ops.slots@ == self.ops.slots@
                    },
                    _ => false,
                },
            },
            SubmissionStrategy::SoftwareTimer => {
                &&& op.timeout_spec() matches Some(d) && step == (SubmitStep::ArmTimer {
                    user_data: i,
                    secs: d.0,
                    nanos: d.1,
                })
                &&& after.slot_becomes(self, i as int, in_flight)
            },
            SubmissionStrategy::BackgroundOnly => {
                &&& step == SubmitStep::Failed(UringError::Unsupported)
                &&& after.ops.slots@ == self.ops.slots@
            },
        }
    }

    /// Goes on with a submission once the registrar was asked about chunk
    /// `chunks[next]`.
    pub fn chunk_resolved(
        &mut self,
        s: Submission,
        info: Option<ChunkInfo>,
        now: u64,
    ) -> (step: SubmitStep)
        requires
            old(self).wf(),
            s.wf(old(self)),
            s.next < s.chunks@.len(),
        ensures
            final(self).wf(),
            final(self).same_but_ops_and_chunks(old(self)),
            final(self).chunks.registered@ == old(self).chunks.registered@,
            final(self).chunks.failures() == old(self).chunks.failures(),
            final(self).chunks.mode == old(self).chunks.mode,
            match info {
                None => {
                    &&& step == SubmitStep::Failed(
                        if old(self).chunks.mode is Strict {
                            UringError::InvalidState
                        } else {
                            UringError::InvalidInput
                        },
                    )
                    &&& final(self).slot_reverted(old(self), s.user_data as int)
                    &&& final(self).chunks.stats == (UringRegistrationStats {
                        submission_missing_chunk_info: bump(
                            old(self).chunks.stats.submission_missing_chunk_info,
                        ),
                        ..old(self).chunks.stats
                    })
                },
                Some(info) => if old(self).chunks.cooling(info.id, now) {
                    &&& step == SubmitStep::Failed(UringError::Registration)
                    &&& final(self).slot_reverted(old(self), s.user_data as int)
                    &&& final(self).chunks.stats == (UringRegistrationStats {
                        chunk_register_skipped_recent_failure: bump(
                            old(self).chunks.stats.chunk_register_skipped_recent_failure,
                        ),
                        ..old(self).chunks.stats
                    })
                } else if info.id >= MAX_CHUNKS {
                    &&& step == SubmitStep::Failed(UringError::InvalidInput)
                    &&& final(self).slot_reverted(old(self), s.user_data as int)
                    &&& final(self).chunks.stats == old(self).chunks.stats
                } else {
                    &&& step == (SubmitStep::RegisterChunk {
                        submission: s,
                        index: info.id as u32,
                        info,
                    })
                    &&& s.wf(final(self))
                    &&& final(self).ops.slots@ == old(self).ops.slots@
                    &&& final(self).chunks.stats == (UringRegistrationStats {
                        chunk_register_attempts: bump(
                            old(self).chunks.stats.chunk_register_attempts,
                        ),
                        ..old(self).chunks.stats
                    })
                },
            },
    {
        match info {
            None => {
                let e = self.chunks.missing_chunk_info();
                self.ops.set_state(s.user_data, SlotState::Reserved);
                SubmitStep::Failed(e)
            },
            Some(info) => match self.chunks.begin_register(info.id, now) {
                Ok(index) => SubmitStep::RegisterChunk { submission: s, index, info },
                Err(e) => {
                    self.ops.set_state(s.user_data, SlotState::Reserved);
                    SubmitStep::Failed(e)
                },
            },
        }
    }

    /// Goes on with a submission once the kernel answered to the registration of
    /// the chunk that `info` describes.
    pub fn chunk_registered(
        &mut self,
        s: Submission,
        info: ChunkInfo,
        accepted: bool,
        now: u64,
    ) -> (step: SubmitStep)
        requires
            old(self).wf(),
            s.wf(old(self)),
            s.next < s.chunks@.len(),
            info.id < MAX_CHUNKS,
        ensures
            final(self).wf(),
            final(self).same_but_ops_and_chunks(old(self)),
            final(self).chunks.mode == old(self).chunks.mode,
            !accepted ==> {
                &&& step == SubmitStep::Failed(UringError::Registration)
                &&& final(self).slot_reverted(old(self), s.user_data as int)
                &&& final(self).chunks.registered@ == old(self).chunks.registered@
                &&& final(self).chunks.failures() == old(self).chunks.failures().insert(
                    info.id,
                    now,
                )
                &&& final(self).chunks.stats == (UringRegistrationStats {
                    chunk_register_failures: bump(old(self).chunks.stats.chunk_register_failures),
                    ..old(self).chunks.stats
                })
            },
            accepted ==> {
                &&& step matches SubmitStep::PushSqe(t) && t.user_data == s.user_data && t.sqe
                    == s.sqe && t.chunks@ == s.chunks@ && t.next == s.chunks@.len() && t.wf(
                    final(self))
                &&& final(self).ops.slots@ == old(self).ops.slots@
                &&& info.id == s.chunks@[s.next as int] ==> final(self).all_registered(
                    s.chunks@,
                    s.next as int,
                    s.chunks@.len() as int,
                )
                &&& final(self).chunks.registered@ == old(self).chunks.registered@.insert(
                    info.id as int,
                )
                &&& final(self).chunks.failures() == old(self).chunks.failures().remove(info.id)
                &&& final(self).chunks.stats == (UringRegistrationStats {
                    chunk_register_success: bump(old(self).chunks.stats.chunk_register_success),
                    ..old(self).chunks.stats
                })
            },
    {
        match self.chunks.finish_register(info.id, accepted, now) {
            Err(e) => {
                self.ops.set_state(s.user_data, SlotState::Reserved);
                SubmitStep::Failed(e)
            },
            Ok(_) => {
                let mut t = s;
                t.next = t.next + 1;
                self.advance(t)
            },
        }
    }

    /// Takes note of whether the entry found room in the submission queue. If it
    /// did not, the operation goes back to where it was.
    pub fn sqe_pushed(&mut self, s: &Submission, pushed: bool)
        requires
            old(self).wf(),
            s.wf(old(self)),
        ensures
            final(self).wf(),
            final(self).same_but_ops(old(self)),
            pushed ==> final(self).ops.slots@ == old(self).ops.slots@,
            !pushed ==> final(self).slot_reverted(old(self), s.user_data as int),
    {
        if !pushed {
            self.ops.set_state(s.user_data, SlotState::Reserved);
        }
    }

    /// Takes note of the timer that carries out the operation in slot `user_data`.
    pub fn timer_armed(&mut self, user_data: usize, timer_id: u64)
        requires
            old(self).wf(),
            old(self).ops.in_state(user_data as int, SlotState::InFlightWaiting),
        ensures
            final(self).wf(),
            final(self).same_but_ops(old(self)),
            final(self).slot_becomes(
                old(self),
                user_data as int,
                OpSlot {
                    platform: UringOpState { timer_id: Some(timer_id) },
                    ..old(self).ops.slots@[user_data as int]
                },
            ),
    {
        self.ops.set_platform(user_data, UringOpState { timer_id: Some(timer_id) });
    }

    /// Starts to submit an operation into its reserved slot. An operation that runs
    /// in the background is refused and left with the caller; any other one moves
    /// into the slot, and is lost where the slot is not reserved.
    pub fn begin_submit(&mut self, user_data: usize, op_in: &mut Option<UringOp>) -> (r: Result<
        SubmitStep,
        DriverErrorKind,
    >)
        requires
            old(self).wf(),
            *old(op_in) matches Some(op) ==> op.wf(),
        ensures
            final(self).wf(),
            final(self).same_but_ops(old(self)),
            match *old(op_in) {
                None => {
                    &&& r == Err::<SubmitStep, DriverErrorKind>(DriverErrorKind::InvalidState)
                    &&& *final(op_in) is None
                    &&& final(self).ops.slots@ == old(self).ops.slots@
                },
                Some(op) => if op.strategy_spec() is BackgroundOnly {
                    &&& r == Err::<SubmitStep, DriverErrorKind>(DriverErrorKind::Unsupported)
                    &&& *final(op_in) == *old(op_in)
                    &&& final(self).ops.slots@ == old(self).ops.slots@
                } else if !old(self).ops.in_state(user_data as int, SlotState::Reserved) {
                    &&& r == Err::<SubmitStep, DriverErrorKind>(DriverErrorKind::InvalidState)
                    &&& *final(op_in) is None
                    &&& final(self).ops.slots@ == old(self).ops.slots@
                } else {
                    &&& *final(op_in) is None
                    &&& r matches Ok(step) && exists|mid: Self|
                        {
                            &&& mid.same_but_ops(old(self))
                            &&& mid.slot_becomes(
                                old(self),
                                user_data as int,
                                OpSlot { op: Some(op), ..old(self).ops.slots@[user_data as int] },
                            )
                            &&& #[trigger] mid.begun(final(self), user_data, op, step)
                        }
                },
            },
    {
        let op: UringOp = match op_in.take() {
            Some(op) => op,
            None => {
                return Err(DriverErrorKind::InvalidState);
            },
        };
        if matches!(op.strategy(), SubmissionStrategy::BackgroundOnly) {
            *op_in = Some(op);
            return Err(DriverErrorKind::Unsupported);
        }
        match self.ops.state(user_data) {
            Some(SlotState::Reserved) => {},
            _ => {
                return Err(DriverErrorKind::InvalidState);
            },
        }
        self.ops.set_op(user_data, op);
        let ghost mid = *self;
        let step = self.begin_submission(user_data);
        assert(mid.begun(self, user_data, op, step));
        Ok(step)
    }

    /// Ends the submission of an operation: `outcome` tells whether its entry or
    /// timer was accepted (`Ok(true)`), found no room (`Ok(false)`), or failed. One
    /// that found no room waits in the backlog; one that failed goes back to the
    /// caller.
    pub fn finish_submit(
        &mut self,
        user_data: usize,
        op_in: &mut Option<UringOp>,
        outcome: Result<bool, UringError>,
    ) -> (r: Result<SubmitPoll, DriverErrorKind>)
        requires
            old(self).wf(),
            outcome is Err ==> old(self).ops.in_state(user_data as int, SlotState::Reserved),
        ensures
            final(self).wf(),
            match outcome {
                Ok(true) => {
                    &&& r == Ok::<SubmitPoll, DriverErrorKind>(SubmitPoll::Ready)
                    &&& *final(op_in) == *old(op_in)
                    &&& final(self).same_but_ops(old(self))
                    &&& final(self).ops.slots@ == old(self).ops.slots@
                },
                Ok(false) => {
                    &&& r == Ok::<SubmitPoll, DriverErrorKind>(SubmitPoll::Pending)
                    &&& *final(op_in) == *old(op_in)
                    &&& final(self).backlog@ == old(self).backlog@.push(user_data)
                    &&& final(self).same_but_backlog(old(self))
                },
                Err(_) => {
                    &&& r == Err::<SubmitPoll, DriverErrorKind>(DriverErrorKind::Submission)
                    &&& *final(op_in) == (match old(self).ops.slots@[user_data as int].op {
                        Some(op) => Some(op),
                        None => *old(op_in),
                    })
                    &&& final(self).same_but_ops(old(self))
                    &&& final(self).slot_becomes(
                        old(self),
                        user_data as int,
                        OpSlot { op: None, ..old(self).ops.slots@[user_data as int] },
                    )
                },
            },
    {
        match outcome {
            Ok(accepted) => if accepted {
                Ok(SubmitPoll::Ready)
            } else {
                self.push_backlog(user_data);
                Ok(SubmitPoll::Pending)
            },
            Err(_) => {
                if let Some(op) = self.ops.take_op(user_data) {
                    *op_in = Some(op);
                }
                Err(DriverErrorKind::Submission)
            },
        }
    }

    /// Nothing but the backlog differs.
    pub open spec fn same_but_backlog(&self, before: &Self) -> bool {
        &&& self.ops == before.ops
        &&& self.pending_cancellations@ == before.pending_cancellations@
        &&& self.completions == before.completions
        &&& self.chunks == before.chunks
        &&& self.files == before.files
        &&& self.waker == before.waker
        &&& self.order == before.order
    }

    /// Puts an operation at the end of the backlog.
    pub fn push_backlog(&mut self, user_data: usize)
        ensures
            final(self).backlog@ == old(self).backlog@.push(user_data),
            final(self).same_but_backlog(old(self)),
    {
        self.backlog.push_back(user_data);
    }

    /// Takes the operation at the front of the backlog.
    pub fn pop_backlog(&mut self) -> (r: Option<usize>)
        ensures
            final(self).same_but_backlog(old(self)),
            old(self).backlog@.len() == 0 ==> r is None && final(self).backlog@
                == old(self).backlog@,
            old(self).backlog@.len() > 0 ==> r == Some(old(self).backlog@[0]) && final(
                self).backlog@ == old(self).backlog@.drop_first(),
    {
        let r = self.backlog.pop_front();
        assert(old(self).backlog@.len() > 0 ==> self.backlog@ =~= old(self).backlog@.drop_first());
        r
    }

    /// Checks an operation that runs in the background, and gives its entry. Any
    /// other operation is refused.
    pub fn background_sqe(&self, op: &UringOp) -> (r: Result<Sqe, DriverErrorKind>)
        requires
            self.wf(),
            op.wf(),
        ensures
            r == (if op.strategy_spec() is BackgroundOnly {
                match op.sqe_spec(self.chunks.registered@) {
                    Ok(sqe) => Ok::<Sqe, DriverErrorKind>(sqe),
                    Err(_) => Err(DriverErrorKind::Submission),
                }
            } else {
                Err(DriverErrorKind::Unsupported)
            }),
    {
        if matches!(op.strategy(), SubmissionStrategy::BackgroundOnly) {
            match op.make_sqe(&self.chunks.registered) {
                Ok(sqe) => Ok(sqe),
                Err(_) => Err(DriverErrorKind::Submission),
            }
        } else {
            Err(DriverErrorKind::Unsupported)
        }
    }
}

/// A submission that fails, or whose entry finds no room, leaves every slot as it
/// was before the submission started.
pub proof fn abandoned_submission_changes_nothing<P>(
    before: UringDriver<P>,
    begun: UringDriver<P>,
    after: UringDriver<P>,
    i: usize,
    op: UringOp,
    step: SubmitStep,
)
    requires
        before.ops.in_state(i as int, SlotState::Reserved),
        before.begun(&begun, i, op, step),
        !(step is Failed),
        after.slot_reverted(&begun, i as int),
    ensures
        after.ops.slots@ == before.ops.slots@,
{
    assert(after.ops.slots@ =~= before.ops.slots@);
}

/// No entry goes out before its chunks are registered: the first one that is not is
/// asked for.
pub proof fn entries_wait_for_their_chunks<P>(
    before: UringDriver<P>,
    begun: UringDriver<P>,
    i: usize,
    op: UringOp,
    step: SubmitStep,
)
    requires
        before.begun(&begun, i, op, step),
        op.strategy_spec() is SubmitSqe,
    ensures
        step is PushSqe ==> before.all_registered(
            op.chunks_spec(),
            0,
            op.chunks_spec().len() as int,
        ),
        step matches SubmitStep::ResolveChunk(t) ==> {
            &&& before.all_registered(op.chunks_spec(), 0, t.next as int)
            &&& !before.chunks.registered@.contains(op.chunks_spec()[t.next as int] as int)
        },
{
}

} // verus!
