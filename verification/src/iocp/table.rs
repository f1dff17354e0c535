//! The operations under way and where their completions go.
use vstd::prelude::*;
use crate::completion::{CompletionEvent, CompletionRecord, CompletionSidecar, CompletionSink};
use crate::slots::{OpRegistry, OpSlot, SlotState};
use crate::sockaddr::SocketAddr;
use super::op::{IocpOp, IocpOpState};

verus! {

/// The slot of an operation.
pub type IocpSlot<P> = OpSlot<IocpOp, IocpOpState, P>;

/// A datagram of the receive pool on its way to an operation.
#[derive(Debug, Clone, Copy, PartialEq, Eq)]
pub enum Delivery {
    /// The first `copied` bytes of the chunk go into the operation's buffer, from
    /// `start` on; the chunk is free afterwards.
    Copy { user_data: usize, generation: u32, chunk: u32, start: usize, copied: usize },
    /// The first `len` bytes of the chunk are handed to the operation.
    Hand { user_data: usize, generation: u32, chunk: u32, len: usize, peer: SocketAddr },
}

/// The operations under way, the completions published, and the datagrams that the
/// caller still has to pass on.
pub struct OpTable<P> {
    pub ops: OpRegistry<IocpOp, IocpOpState, P>,
    pub completions: CompletionSink<P>,
    pub deliveries: Vec<Delivery>,
}

/// The contents of an `OpTable`, as mathematical values.
#[verifier::ext_equal]
pub struct TableModel<P> {
    pub slots: Seq<IocpSlot<P>>,
    /// Events announced and not yet drained, oldest first.
    pub events: Seq<CompletionEvent>,
    /// The latest completion of each slot.
    pub records: Seq<Option<CompletionRecord<P>>>,
    pub deliveries: Seq<Delivery>,
}

impl<P> TableModel<P> {
    /// Every slot is free, and nothing was announced.
    pub open spec fn empty(entries: nat) -> TableModel<P> {
        TableModel {
            slots: Seq::new(entries, |i: int| IocpSlot::<P>::vacant(0, IocpOpState::fresh(0))),
            events: Seq::empty(),
            records: Seq::new(entries, |i: int| None::<CompletionRecord<P>>),
            deliveries: Seq::empty(),
        }
    }

    /// Slot `i` exists and is in use.
    pub open spec fn live(self, i: int) -> bool {
        0 <= i < self.slots.len() && self.slots[i].state is Some
    }

    /// Slot `i` exists and is in the given state.
    pub open spec fn in_state(self, i: int, s: SlotState) -> bool {
        0 <= i < self.slots.len() && self.slots[i].state == Some(s)
    }

    /// Slot `i` has become `slot`.
    pub open spec fn with_slot(self, i: int, slot: IocpSlot<P>) -> TableModel<P> {
        TableModel { slots: self.slots.update(i, slot), ..self }
    }

    /// The notes on the operation in slot `i` have become `platform`.
    pub open spec fn with_platform(self, i: int, platform: IocpOpState) -> TableModel<P> {
        self.with_slot(i, OpSlot { platform, ..self.slots[i] })
    }

    /// The completion of the operation in slot `i`.
    pub open spec fn sidecar_of(
        self,
        i: int,
        generation: u32,
        res: i32,
        peer: Option<SocketAddr>,
    ) -> CompletionSidecar<P> {
        CompletionSidecar {
            user_data: i as usize,
            generation,
            res,
            flags: 0,
            payload: self.slots[i].payload,
            detail: self.slots[i].detail,
            peer,
        }
    }

    /// `done` is published.
    pub open spec fn published(self, done: CompletionSidecar<P>) -> TableModel<P> {
        TableModel {
            events: self.events.push(done.event()),
            records: self.records.update(done.user_data as int, Some(done.record())),
            ..self
        }
    }

    /// Slot `i` is free, under the next generation.
    pub open spec fn freed(self, i: int) -> TableModel<P> {
        self.with_slot(i, self.slots[i].vacated())
    }

    /// The operation in slot `i` has ended: its completion is published, and the slot
    /// is free.
    pub open spec fn ended(
        self,
        i: int,
        generation: u32,
        res: i32,
        peer: Option<SocketAddr>,
    ) -> TableModel<P> {
        self.published(self.sidecar_of(i, generation, res, peer)).freed(i)
    }

    /// The caller has one more datagram to pass on.
    pub open spec fn delivering(self, d: Delivery) -> TableModel<P> {
        TableModel { deliveries: self.deliveries.push(d), ..self }
    }
}

impl<P> OpTable<P> {
    /// There is a place for the completion of each slot, and the operations in the
    /// slots are in order.
    pub open spec fn wf(&self) -> bool {
        &&& self.ops.wf()
        &&& self.completions.records().len() == self.ops.slots@.len()
        &&& forall|i: int|
            0 <= i < self.ops.slots@.len() ==> ((#[trigger] self.ops.slots@[i]).op matches Some(op)
                ==> op.wf()) && self.ops.slots@[i].platform.wf()
    }

    /// The contents of the table.
    pub open spec fn model(&self) -> TableModel<P> {
        TableModel {
            slots: self.ops.slots@,
            events: self.completions.events(),
            records: self.completions.records(),
            deliveries: self.deliveries@,
        }
    }

    /// A table of `entries` free slots.
    pub fn new(entries: usize) -> (t: Self)
        ensures
            t.wf(),
            t.model() == TableModel::<P>::empty(entries as nat),
            t.ops.slots@.len() == entries,
            forall|i: int| !t.model().live(i),
    {
        let ops: OpRegistry<IocpOp, IocpOpState, P> = OpRegistry::new(entries, IocpOpState::new(0));
        assert forall|i: int| 0 <= i < ops.slots@.len() implies ((#[trigger] ops.slots@[i]).op matches Some(
            op,
        ) ==> op.wf()) && ops.slots@[i].platform.wf() by {
            assert(ops.slots@[i].wf());
        }
        OpTable { ops, completions: CompletionSink::new(entries), deliveries: Vec::new() }
    }

    /// Ends the operation in slot `i`: publishes its completion and frees the slot.
    pub fn end_op(&mut self, i: usize, generation: u32, res: i32, peer: Option<SocketAddr>)
        requires
            old(self).wf(),
            old(self).ops.live(i as int),
        ensures
            final(self).wf(),
            final(self).model() == old(self).model().ended(i as int, generation, res, peer),
    {
        let (_, payload, detail) = self.ops.take_completion_data(i);
        self.completions.push_completion_event(
            CompletionSidecar { user_data: i, generation, res, flags: 0, payload, detail, peer },
        );
    }

    /// Publishes the completion of the operation in slot `i`, which stays in use as
    /// ended until the kernel has reported on it.
    pub fn end_op_keeping_slot(&mut self, i: usize, generation: u32, res: i32, peer: Option<SocketAddr>)
        requires
            old(self).wf(),
            old(self).ops.live(i as int),
        ensures
            final(self).wf(),
            final(self).model() == old(self).model().published(
                old(self).model().sidecar_of(i as int, generation, res, peer),
            ).with_slot(
                i as int,
                OpSlot {
                    state: Some(SlotState::Completed),
                    payload: None,
                    detail: None,
                    ..old(self).ops.slots@[i as int]
                },
            ),
    {
        let (payload, detail) = self.ops.take_data(i);
        self.ops.set_state(i, SlotState::Completed);
        self.completions.push_completion_event(
            CompletionSidecar { user_data: i, generation, res, flags: 0, payload, detail, peer },
        );
        assert(self.model() =~= old(self).model().published(
            old(self).model().sidecar_of(i as int, generation, res, peer),
        ).with_slot(
            i as int,
            OpSlot {
                state: Some(SlotState::Completed),
                payload: None,
                detail: None,
                ..old(self).ops.slots@[i as int]
            },
        ));
    }

    /// Frees slot `i` without a word.
    pub fn free_op(&mut self, i: usize)
        requires
            old(self).wf(),
            old(self).ops.live(i as int),
        ensures
            final(self).wf(),
            final(self).model() == old(self).model().freed(i as int),
    {
        self.ops.remove(i);
    }

    /// Changes the notes on the operation in slot `i`.
    pub fn set_platform(&mut self, i: usize, platform: IocpOpState)
        requires
            old(self).wf(),
            old(self).ops.live(i as int),
            platform.wf(),
        ensures
            final(self).wf(),
            final(self).model() == old(self).model().with_platform(i as int, platform),
    {
        self.ops.set_platform(i, platform);
    }

    /// Keeps a datagram that the caller has to pass on.
    pub fn add_delivery(&mut self, d: Delivery)
        requires
            old(self).wf(),
        ensures
            final(self).wf(),
            final(self).model() == old(self).model().delivering(d),
    {
        self.deliveries.push(d);
    }

    /// Hands the datagrams over that the caller has to pass on.
    pub fn take_deliveries(&mut self) -> (d: Vec<Delivery>)
        requires
            old(self).wf(),
        ensures
            final(self).wf(),
            d@ == old(self).deliveries@,
            final(self).deliveries@.len() == 0,
            final(self).ops == old(self).ops,
            final(self).completions == old(self).completions,
    {
        let mut d: Vec<Delivery> = Vec::new();
        std::mem::swap(&mut d, &mut self.deliveries);
        d
    }
}

} // verus!
