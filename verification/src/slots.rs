//! The table of operations a driver is working on.
use vstd::prelude::*;

verus! {

/// Where the operation in a slot stands.
#[derive(Debug, Clone, Copy, PartialEq, Eq, Structural)]
pub enum SlotState {
    /// Allocated; the operation has not reached the kernel.
    Reserved,
    /// The kernel or the timer works on it, and somebody waits for the result.
    InFlightWaiting,
    /// The kernel works on it, but it was cancelled.
    InFlightOrphaned,
    /// It has ended, but the kernel may still report on it.
    Completed,
}

/// One place for an operation.
#[derive(Debug)]
pub struct OpSlot<O, S, P> {
    /// Counts the uses of the slot.
    pub generation: u32,
    /// None while the slot is free.
    pub state: Option<SlotState>,
    pub op: Option<O>,
    /// What the submitter attached.
    pub payload: Option<P>,
    /// A result that was stored ahead of the completion.
    pub detail: Option<Result<usize, i32>>,
    /// What the driver notes about the operation.
    pub platform: S,
}

impl<O, S, P> OpSlot<O, S, P> {
    /// An operation that is in flight is known; a free slot holds nothing.
    pub open spec fn wf(&self) -> bool {
        &&& self.state matches Some(SlotState::InFlightWaiting) ==> self.op is Some
        &&& self.state matches Some(SlotState::InFlightOrphaned) ==> self.op is Some
        &&& self.state is None ==> self.op is None && self.payload is None && self.detail is None
    }

    /// A slot that has just been allocated.
    pub open spec fn fresh(generation: u32, platform: S) -> Self {
        OpSlot {
            generation,
            state: Some(SlotState::Reserved),
            op: None,
            payload: None,
            detail: None,
            platform,
        }
    }

    /// The slot once its use has ended.
    pub open spec fn vacated(self) -> Self {
        OpSlot::vacant(next_generation(self.generation), self.platform)
    }

    /// A free slot.
    pub open spec fn vacant(generation: u32, platform: S) -> Self {
        OpSlot { generation, state: None, op: None, payload: None, detail: None, platform }
    }
}

/// The generation of the next use of a slot.
pub open spec fn next_generation(g: u32) -> u32 {
    if g == u32::MAX {
        0
    } else {
        (g + 1) as u32
    }
}

/// A fixed number of slots.
#[derive(Debug)]
pub struct OpRegistry<O, S, P> {
    pub slots: Vec<OpSlot<O, S, P>>,
    /// The free slots. The last one is given out first.
    pub free: Vec<usize>,
}

impl<O: Copy, S: Copy, P> OpRegistry<O, S, P> {
    /// `free` lists exactly the free slots, each once.
    pub open spec fn wf(&self) -> bool {
        &&& forall|i: int| 0 <= i < self.slots@.len() ==> (#[trigger] self.slots@[i]).wf()
        &&& forall|k: int|
            0 <= k < self.free@.len() ==> (#[trigger] self.free@[k]) < self.slots@.len()
                && self.slots@[self.free@[k] as int].state is None
        &&& self.free@.no_duplicates()
        &&& forall|i: int|
            0 <= i < self.slots@.len() && (#[trigger] self.slots@[i]).state is None
                ==> self.free@.contains(i as usize)
    }

    /// Slot `i` exists and is in use.
    pub open spec fn live(&self, i: int) -> bool {
        0 <= i < self.slots@.len() && self.slots@[i].state is Some
    }

    /// Slot `i` exists and is in the given state.
    pub open spec fn in_state(&self, i: int, s: SlotState) -> bool {
        0 <= i < self.slots@.len() && self.slots@[i].state == Some(s)
    }

    /// `entries` free slots.
    pub fn new(entries: usize, platform: S) -> (r: Self)
        ensures
            r.wf(),
            r.slots@ == Seq::new(entries as nat, |i: int| OpSlot::<O, S, P>::vacant(0, platform)),
            r.free@.len() == entries,
    {
        let mut slots: Vec<OpSlot<O, S, P>> = Vec::new();
        let mut free: Vec<usize> = Vec::new();
        let mut i: usize = 0;
        while i < entries
            invariant
                i <= entries,
                slots@.len() == i,
                free@.len() == i,
                forall|k: int|
                    0 <= k < i ==> (#[trigger] slots@[k]) == OpSlot::<O, S, P>::vacant(0, platform),
                forall|k: int| 0 <= k < i ==> free@[k] == entries - 1 - k,
            decreases entries - i,
        {
            slots.push(
                OpSlot {
                    generation: 0,
                    state: None,
                    op: None,
                    payload: None,
                    detail: None,
                    platform,
                },
            );
            free.push(entries - 1 - i);
            i = i + 1;
        }
        let r = OpRegistry { slots, free };
        assert forall|k: int|
            0 <= k < r.slots@.len() && (
            #[trigger] r.slots@[k]).state is None implies r.free@.contains(k as usize) by {
            assert(r.free@[entries - 1 - k] == k);
        }
        r
    }

    /// The number of slots.
    pub fn len(&self) -> (n: usize)
        ensures
            n == self.slots@.len(),
    {
        self.slots.len()
    }

    /// Whether slot `i` exists and is in use.
    pub fn contains(&self, i: usize) -> (b: bool)
        ensures
            b == self.live(i as int),
    {
        i < self.slots.len() && self.slots[i].state.is_some()
    }

    /// The state of slot `i`, if it is in use.
    pub fn state(&self, i: usize) -> (s: Option<SlotState>)
        ensures
            s == (if self.live(i as int) {
                self.slots@[i as int].state
            } else {
                None
            }),
    {
        if i < self.slots.len() {
            self.slots[i].state
        } else {
            None
        }
    }

    /// Allocates a slot and gives its number and generation. Fails when every slot
    /// is in use, and only then.
    pub fn insert(&mut self, platform: S) -> (r: Result<(usize, u32), ()>)
        requires
            old(self).wf(),
        ensures
            final(self).wf(),
            r is Err <==> (forall|i: int| 0 <= i < old(self).slots@.len() ==> old(self).live(i)),
            r is Err ==> final(self).slots@ == old(self).slots@,
            r matches Ok((i, g)) ==> {
                &&& i < old(self).slots@.len()
                &&& !old(self).live(i as int)
                &&& g == old(self).slots@[i as int].generation
                &&& final(self).slots@ == old(self).slots@.update(
                    i as int,
                    OpSlot::fresh(g, platform),
                )
            },
    {
        match self.free.pop() {
            Some(i) => {
                assert(old(self).free@.last() == i);
                let g: u32 = self.slots[i].generation;
                self.slots.set(
                    i,
                    OpSlot {
                        generation: g,
                        state: Some(SlotState::Reserved),
                        op: None,
                        payload: None,
                        detail: None,
                        platform,
                    },
                );
                proof {
                    assert(!old(self).live(i as int));
                    assert forall|j: int|
                        0 <= j < self.slots@.len() && (
                        #[trigger] self.slots@[j]).state is None implies self.free@.contains(
                        j as usize,
                    ) by {
                        assert(old(self).slots@[j].state is None);
                        assert(j < old(self).slots.len());
                        let k = old(self).free@.index_of(j as usize);
                        assert(old(self).free@[k] == j as usize);
                        assert(k != old(self).free@.len() - 1);
                        assert(self.free@[k] == j as usize);
                    }
                }
                Ok((i, g))
            },
            None => {
                assert forall|i: int| 0 <= i < self.slots@.len() implies old(self).live(i) by {
                    if self.slots@[i].state is None {
                        assert(old(self).free@.contains(i as usize));
                    }
                }
                Err(())
            },
        }
    }

    /// Ends the use of slot `i`: it becomes free under the next generation. A slot
    /// that is not in use is left alone.
    pub fn remove(&mut self, i: usize)
        requires
            old(self).wf(),
        ensures
            final(self).wf(),
            final(self).slots@ == (if old(self).live(i as int) {
                old(self).slots@.update(i as int, old(self).slots@[i as int].vacated())
            } else {
                old(self).slots@
            }),
    {
        if !self.contains(i) {
            return ;
        }
        let g: u32 = self.slots[i].generation;
        let platform: S = self.slots[i].platform;
        self.slots.set(
            i,
            OpSlot {
                generation: g.wrapping_add(1),
                state: None,
                op: None,
                payload: None,
                detail: None,
                platform,
            },
        );
        self.free.push(i);
        proof {
            assert(!old(self).free@.contains(i));
            assert forall|j: int|
                0 <= j < self.slots@.len() && (
                #[trigger] self.slots@[j]).state is None implies self.free@.contains(
                j as usize,
            ) by {
                if j == i {
                    assert(self.free@[self.free@.len() - 1] == i);
                } else {
                    assert(old(self).slots@[j].state is None);
                    let k = old(self).free@.index_of(j as usize);
                    assert(self.free@[k] == j as usize);
                }
            }
        }
    }

    /// Moves slot `i` to another state.
    pub fn set_state(&mut self, i: usize, s: SlotState)
        requires
            old(self).wf(),
            old(self).live(i as int),
            s is InFlightWaiting || s is InFlightOrphaned ==> old(self).slots@[i as int].op is Some,
        ensures
            final(self).wf(),
            final(self).slots@ == old(self).slots@.update(
                i as int,
                OpSlot { state: Some(s), ..old(self).slots@[i as int] },
            ),
    {
        let ghost before = self.slots@;
        self.slots[i].state = Some(s);
        assert(self.slots@ =~= before.update(i as int, OpSlot { state: Some(s), ..before[i as int] }));
        proof {
            self.keeps_free(*old(self), i as int);
        }
    }

    /// Changing a slot that stays in use keeps the table in order.
    proof fn keeps_free(&self, before: Self, i: int)
        requires
            before.wf(),
            before.live(i),
            self.free@ == before.free@,
            self.slots@.len() == before.slots@.len(),
            self.slots@[i].state is Some,
            self.slots@[i].wf(),
            forall|j: int|
                0 <= j < self.slots@.len() && j != i ==> (#[trigger] self.slots@[j])
                    == before.slots@[j],
        ensures
            self.wf(),
    {
        assert forall|k: int| 0 <= k < self.free@.len() implies (#[trigger] self.free@[k])
            < self.slots@.len() && self.slots@[self.free@[k] as int].state is None by {
            assert(before.slots@[before.free@[k] as int].state is None);
        }
        assert forall|j: int|
            0 <= j < self.slots@.len() && (
            #[trigger] self.slots@[j]).state is None implies self.free@.contains(j as usize) by {
            assert(before.slots@[j].state is None);
        }
    }

    /// Puts an operation into slot `i`.
    pub fn set_op(&mut self, i: usize, op: O)
        requires
            old(self).wf(),
            old(self).live(i as int),
        ensures
            final(self).wf(),
            final(self).slots@ == old(self).slots@.update(
                i as int,
                OpSlot { op: Some(op), ..old(self).slots@[i as int] },
            ),
    {
        let ghost before = self.slots@;
        self.slots[i].op = Some(op);
        assert(self.slots@ =~= before.update(i as int, OpSlot { op: Some(op), ..before[i as int] }));
        proof {
            self.keeps_free(*old(self), i as int);
        }
    }

    /// Takes the operation out of slot `i`, which must not be in flight.
    pub fn take_op(&mut self, i: usize) -> (op: Option<O>)
        requires
            old(self).wf(),
            old(self).in_state(i as int, SlotState::Reserved) || old(self).in_state(
                i as int,
                SlotState::Completed,
            ),
        ensures
            final(self).wf(),
            op == old(self).slots@[i as int].op,
            final(self).slots@ == old(self).slots@.update(
                i as int,
                OpSlot { op: None, ..old(self).slots@[i as int] },
            ),
    {
        let ghost before = self.slots@;
        let op = self.slots[i].op.take();
        assert(self.slots@ =~= before.update(i as int, OpSlot { op: None, ..before[i as int] }));
        proof {
            self.keeps_free(*old(self), i as int);
        }
        op
    }

    /// Changes the driver's notes about the operation in slot `i`.
    pub fn set_platform(&mut self, i: usize, platform: S)
        requires
            old(self).wf(),
            old(self).live(i as int),
        ensures
            final(self).wf(),
            final(self).slots@ == old(self).slots@.update(
                i as int,
                OpSlot { platform, ..old(self).slots@[i as int] },
            ),
    {
        let ghost before = self.slots@;
        self.slots[i].platform = platform;
        assert(self.slots@ =~= before.update(
            i as int,
            OpSlot { platform, ..before[i as int] },
        ));
        proof {
            self.keeps_free(*old(self), i as int);
        }
    }

    /// Attaches a payload to slot `i`.
    pub fn set_payload(&mut self, i: usize, payload: P)
        requires
            old(self).wf(),
            old(self).live(i as int),
        ensures
            final(self).wf(),
            final(self).slots@ == old(self).slots@.update(
                i as int,
                OpSlot { payload: Some(payload), ..old(self).slots@[i as int] },
            ),
    {
        let ghost before = self.slots@;
        self.slots[i].payload = Some(payload);
        assert(self.slots@ =~= before.update(
            i as int,
            OpSlot { payload: Some(payload), ..before[i as int] },
        ));
        proof {
            self.keeps_free(*old(self), i as int);
        }
    }

    /// Takes the payload out of slot `i`.
    pub fn take_payload(&mut self, i: usize) -> (payload: Option<P>)
        requires
            old(self).wf(),
            old(self).live(i as int),
        ensures
            final(self).wf(),
            payload == old(self).slots@[i as int].payload,
            final(self).slots@ == old(self).slots@.update(
                i as int,
                OpSlot { payload: None, ..old(self).slots@[i as int] },
            ),
    {
        let ghost before = self.slots@;
        let payload = self.slots[i].payload.take();
        assert(self.slots@ =~= before.update(
            i as int,
            OpSlot { payload: None, ..before[i as int] },
        ));
        proof {
            self.keeps_free(*old(self), i as int);
        }
        payload
    }

    /// Takes the payload and the stored result out of slot `i`.
    pub fn take_data(&mut self, i: usize) -> (r: (Option<P>, Option<Result<usize, i32>>))
        requires
            old(self).wf(),
            old(self).live(i as int),
        ensures
            final(self).wf(),
            r.0 == old(self).slots@[i as int].payload,
            r.1 == old(self).slots@[i as int].detail,
            final(self).slots@ == old(self).slots@.update(
                i as int,
                OpSlot { payload: None, detail: None, ..old(self).slots@[i as int] },
            ),
    {
        let ghost before = self.slots@;
        let payload = self.slots[i].payload.take();
        let detail = self.slots[i].detail.take();
        assert(self.slots@ =~= before.update(
            i as int,
            OpSlot { payload: None, detail: None, ..before[i as int] },
        ));
        proof {
            self.keeps_free(*old(self), i as int);
        }
        (payload, detail)
    }

    /// Stores a result in slot `i` ahead of its completion.
    pub fn set_detail(&mut self, i: usize, detail: Result<usize, i32>)
        requires
            old(self).wf(),
            old(self).live(i as int),
        ensures
            final(self).wf(),
            final(self).slots@ == old(self).slots@.update(
                i as int,
                OpSlot { detail: Some(detail), ..old(self).slots@[i as int] },
            ),
    {
        let ghost before = self.slots@;
        self.slots[i].detail = Some(detail);
        assert(self.slots@ =~= before.update(
            i as int,
            OpSlot { detail: Some(detail), ..before[i as int] },
        ));
        proof {
            self.keeps_free(*old(self), i as int);
        }
    }

    /// Ends the use of slot `i` and gives what it held of interest to the
    /// submitter.
    pub fn take_completion_data(&mut self, i: usize) -> (r: (
        u32,
        Option<P>,
        Option<Result<usize, i32>>,
    ))
        requires
            old(self).wf(),
            old(self).live(i as int),
        ensures
            final(self).wf(),
            r.0 == old(self).slots@[i as int].generation,
            r.1 == old(self).slots@[i as int].payload,
            r.2 == old(self).slots@[i as int].detail,
            final(self).slots@ == old(self).slots@.update(
                i as int,
                old(self).slots@[i as int].vacated(),
            ),
    {
        let ghost before = self.slots@;
        let generation: u32 = self.slots[i].generation;
        let payload = self.take_payload(i);
        let detail = self.slots[i].detail;
        self.remove(i);
        assert(self.slots@ =~= before.update(i as int, before[i as int].vacated()));
        (generation, payload, detail)
    }
}

/// A slot that is freed keeps nothing of the operation it held, and its generation is the next
/// number, so that tokens of the earlier use no longer fit; after the largest number comes 0.
pub proof fn freed_slots_forget_their_operation<O, S, P>(slot: OpSlot<O, S, P>)
    ensures
        slot.vacated().state is None,
        slot.vacated().op is None,
        slot.vacated().payload is None,
        slot.vacated().detail is None,
        slot.vacated().platform == slot.platform,
        slot.vacated().generation != slot.generation,
        slot.generation < 0xffff_ffff ==> slot.vacated().generation == slot.generation + 1,
        slot.generation == 0xffff_ffff ==> slot.vacated().generation == 0,
{
}

/// A slot that was just given out is reserved, holds nothing but the notes given, and has the
/// generation it was free under.
pub proof fn fresh_slots_hold_nothing<O, S, P>(generation: u32, platform: S)
    ensures
        ({
            let slot = OpSlot::<O, S, P>::fresh(generation, platform);
            &&& slot.state == Some(SlotState::Reserved)
            &&& slot.op is None && slot.payload is None && slot.detail is None
            &&& slot.generation == generation
            &&& slot.platform == platform
            &&& slot.wf()
        }),
{
}

/// Two uses of a slot have the same generation only if the numbers have come round: the one
/// after `n` uses is `n` larger, modulo 2 to the 32nd.
pub proof fn generations_count_uses(g: u32, n: nat)
    ensures
        after_uses(g, n) == (g + n) % 0x1_0000_0000,
        0 < n < 0x1_0000_0000 ==> after_uses(g, n) != g,
    decreases n,
{
    if n > 0 {
        generations_count_uses(g, (n - 1) as nat);
    }
}

/// The generation of a slot after `n` more uses.
pub open spec fn after_uses(g: u32, n: nat) -> u32
    decreases n,
{
    if n == 0 {
        g
    } else {
        next_generation(after_uses(g, (n - 1) as nat))
    }
}

/// A slot that is given out was free, and is told apart by its generation; no other slot
/// changes. None is given out only when all are in use. What was put into a slot is what comes
/// out when its use ends, and the slot is free then.
pub proof fn slots_hold_what_was_put_in<O: Copy, S: Copy, P>(platform: S, i: usize, j: int)
    ensures
        forall|t: &mut OpRegistry<O, S, P>, r: Result<(usize, u32), ()>| #[trigger]
            call_ensures(OpRegistry::<O, S, P>::insert, (t, platform), r) ==> {
                &&& r matches Ok((k, g)) ==> {
                    &&& k < (*t).slots@.len() && (*t).slots@[k as int].state is None
                    &&& g == (*t).slots@[k as int].generation
                    &&& (*final(t)).slots@[k as int].state == Some(SlotState::Reserved)
                    &&& (*final(t)).slots@[k as int].generation == g
                    &&& (*final(t)).slots@[k as int].op is None
                    &&& 0 <= j < (*t).slots@.len() && j != k ==> (*final(t)).slots@[j]
                        == (*t).slots@[j]
                }
                &&& r is Err && 0 <= j < (*t).slots@.len() ==> (*t).slots@[j].state is Some
            },
        forall|
            t: &mut OpRegistry<O, S, P>,
            r: (u32, Option<P>, Option<Result<usize, i32>>),
        | #[trigger]
            call_ensures(OpRegistry::<O, S, P>::take_completion_data, (t, i), r) && i
                < (*t).slots@.len() ==> {
                &&& r.0 == (*t).slots@[i as int].generation
                &&& r.1 == (*t).slots@[i as int].payload
                &&& r.2 == (*t).slots@[i as int].detail
                &&& (*final(t)).slots@[i as int].state is None
                &&& (*final(t)).slots@[i as int].payload is None
                &&& (*final(t)).slots@[i as int].generation != r.0
                &&& 0 <= j < (*t).slots@.len() && j != i ==> (*final(t)).slots@[j]
                    == (*t).slots@[j]
            },
{
    assert forall|t: &mut OpRegistry<O, S, P>, r: Result<(usize, u32), ()>| #[trigger]
        call_ensures(OpRegistry::<O, S, P>::insert, (t, platform), r) implies {
        &&& r matches Ok((k, g)) ==> {
            &&& k < (*t).slots@.len() && (*t).slots@[k as int].state is None
            &&& g == (*t).slots@[k as int].generation
            &&& (*final(t)).slots@[k as int].state == Some(SlotState::Reserved)
            &&& (*final(t)).slots@[k as int].generation == g
            &&& (*final(t)).slots@[k as int].op is None
            &&& 0 <= j < (*t).slots@.len() && j != k ==> (*final(t)).slots@[j] == (*t).slots@[j]
        }
        &&& r is Err && 0 <= j < (*t).slots@.len() ==> (*t).slots@[j].state is Some
    } by {
        if r is Err && 0 <= j < (*t).slots@.len() {
            assert((*t).live(j));
        }
    }
}

} // verus!
