//! Request contexts: the numbers that the kernel hands back with completions.
use vstd::prelude::*;
use super::keys::ActorKey;

verus! {

/// Marks the contexts of pool requests.
pub const POOL_CTX_TAG: u64 = 1;

/// So many contexts are there: each place has two numbers of 64 bits, and the first two
/// are left out.
pub const MAX_CONTEXTS: u64 = 0x7fff_ffff_ffff_ffff;

/// What a request was made for.
#[derive(Debug, Clone, Copy, PartialEq, Eq, Structural)]
pub enum RioCompletionKind {
    /// The receive pool of an actor; the generation tells its requests apart.
    Pool { actor_key: ActorKey, generation: u32 },
    /// An operation.
    Op { user_data: usize, generation: u32 },
}

/// The open request contexts.
#[derive(Debug)]
pub struct RequestContexts {
    pub slots: Vec<Option<RioCompletionKind>>,
    /// Free places. The last one is used first.
    pub free: Vec<usize>,
}

/// The place that a context refers to.
pub open spec fn place_of(ctx: u64) -> int {
    ctx / 2 - 1
}

impl RequestContexts {
    /// Free places exist, are empty, and are listed once.
    pub open spec fn wf(&self) -> bool {
        &&& self.slots@.len() <= MAX_CONTEXTS
        &&& self.free@.no_duplicates()
        &&& forall|k: int|
            0 <= k < self.free@.len() ==> (#[trigger] self.free@[k]) < self.slots@.len()
                && self.slots@[self.free@[k] as int] is None
    }

    /// Whether another context can be opened.
    pub open spec fn has_room(&self) -> bool {
        self.free@.len() > 0 || self.slots@.len() < MAX_CONTEXTS
    }

    /// What the context `ctx` was made for, if it is open. Contexts of pool requests
    /// are odd, those of operations even.
    pub open spec fn lookup(&self, ctx: u64) -> Option<RioCompletionKind> {
        if 0 <= place_of(ctx) < self.slots@.len() {
            match self.slots@[place_of(ctx)] {
                Some(kind) => if (kind is Pool) == (ctx % 2 == POOL_CTX_TAG) {
                    Some(kind)
                } else {
                    None
                },
                None => None,
            }
        } else {
            None
        }
    }

    /// `after` is the same but for the context `ctx`, which was opened for `kind`.
    pub open spec fn opened(&self, after: &Self, ctx: u64, kind: RioCompletionKind) -> bool {
        &&& after.wf()
        &&& ctx != 0
        &&& (ctx % 2 == POOL_CTX_TAG) == (kind is Pool)
        &&& self.lookup(ctx) is None
        &&& after.lookup(ctx) == Some(kind)
        &&& forall|other: u64| other != ctx ==> after.lookup(other) == self.lookup(other)
    }

    /// `after` is the same but for the context `ctx`, which is not open.
    pub open spec fn closed(&self, after: &Self, ctx: u64) -> bool {
        &&& after.wf()
        &&& after.lookup(ctx) is None
        &&& forall|other: u64| other != ctx ==> after.lookup(other) == self.lookup(other)
    }

    /// Whether another context can be opened.
    pub fn can_open(&self) -> (b: bool)
        ensures
            b == self.has_room(),
    {
        self.free.len() > 0 || (self.slots.len() as u64) < MAX_CONTEXTS
    }

    /// No open contexts.
    pub fn new() -> (c: Self)
        ensures
            c.wf(),
            c.has_room(),
            forall|ctx: u64| c.lookup(ctx) is None,
    {
        RequestContexts { slots: Vec::new(), free: Vec::new() }
    }

    fn open(&mut self, kind: RioCompletionKind) -> (ctx: u64)
        requires
            old(self).wf(),
            old(self).has_room(),
        ensures
            old(self).opened(final(self), ctx, kind),
    {
        let place: usize = match self.free.pop() {
            Some(place) => {
                assert(old(self).free@.last() == place);
                self.slots.set(place, Some(kind));
                place
            },
            None => {
                self.slots.push(Some(kind));
                self.slots.len() - 1
            },
        };
        let tag: u64 = match kind {
            RioCompletionKind::Pool { .. } => POOL_CTX_TAG,
            RioCompletionKind::Op { .. } => 0,
        };
        let ctx: u64 = (place as u64 + 1) * 2 + tag;
        assert(place_of(ctx) == place);
        assert forall|other: u64| other != ctx implies self.lookup(other) == old(self).lookup(
            other,
        ) by {
            if place_of(other) == place {
                assert(other % 2 != ctx % 2);
            }
        }
        ctx
    }

    /// Opens the context of an operation.
    pub fn encode_req_ctx(&mut self, user_data: usize, generation: u32) -> (ctx: u64)
        requires
            old(self).wf(),
            old(self).has_room(),
        ensures
            old(self).opened(final(self), ctx, RioCompletionKind::Op { user_data, generation }),
    {
        self.open(RioCompletionKind::Op { user_data, generation })
    }

    /// Opens the context of a pool request.
    pub fn encode_pool_req_ctx(&mut self, actor_key: ActorKey, generation: u32) -> (ctx: u64)
        requires
            old(self).wf(),
            old(self).has_room(),
        ensures
            old(self).opened(final(self), ctx, RioCompletionKind::Pool { actor_key, generation }),
    {
        self.open(RioCompletionKind::Pool { actor_key, generation })
    }

    /// What a context was made for. 0, and a context that is not open, was made for
    /// nothing.
    pub fn decode_req_ctx(&self, ctx: u64) -> (r: Option<RioCompletionKind>)
        requires
            self.wf(),
        ensures
            r == self.lookup(ctx),
    {
        let half: u64 = ctx / 2;
        if half == 0 || half > self.slots.len() as u64 {
            return None;
        }
        let place: usize = (half - 1) as usize;
        let tagged: bool = ctx % 2 == POOL_CTX_TAG;
        match self.slots[place] {
            Some(kind) => {
                let pool: bool = match kind {
                    RioCompletionKind::Pool { .. } => true,
                    RioCompletionKind::Op { .. } => false,
                };
                if pool == tagged {
                    Some(kind)
                } else {
                    None
                }
            },
            None => None,
        }
    }

    /// Closes a context, and gives what it was made for.
    pub fn close(&mut self, ctx: u64) -> (r: Option<RioCompletionKind>)
        requires
            old(self).wf(),
        ensures
            old(self).closed(final(self), ctx),
            old(self).has_room() ==> final(self).has_room(),
            r == old(self).lookup(ctx),
    {
        let r = self.decode_req_ctx(ctx);
        if r.is_some() {
            let n: usize = self.slots.len();
            assert(place_of(ctx) < n);
            let place: usize = (ctx / 2 - 1) as usize;
            assert(place == place_of(ctx));
            assert(!self.free@.contains(place));
            self.slots.set(place, None);
            self.free.push(place);
            assert forall|other: u64| other != ctx implies self.lookup(other) == old(self).lookup(
                other,
            ) by {
                if place_of(other) == place {
                    assert(other % 2 != ctx % 2);
                }
            }
        }
        r
    }

    /// Closes the context of an operation that was not accepted. The contexts of pool
    /// requests are left alone.
    pub fn free_op_req_ctx(&mut self, ctx: u64)
        requires
            old(self).wf(),
        ensures
            final(self).wf(),
            old(self).has_room() ==> final(self).has_room(),
            ctx % 2 == POOL_CTX_TAG ==> *final(self) == *old(self),
            ctx % 2 != POOL_CTX_TAG ==> old(self).closed(final(self), ctx),
    {
        if ctx % 2 == POOL_CTX_TAG {
            return ;
        }
        let _ = self.close(ctx);
    }
}

} // verus!
