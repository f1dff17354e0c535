//! Tokens that tell the requests of a receive pool apart.
use rustc_hash::FxHashMap;
use vstd::prelude::*;
use crate::fxmap::{fx_clear, fx_get, fx_insert, fx_new, fx_remove, no_entries};
use super::keys::SlotKey;

verus! {

/// The tokens in use, each with the slot whose request it stands for. 0 is never a
/// token.
pub struct TokenRegistry {
    pub map: FxHashMap<u32, SlotKey>,
    pub next_ctx: u32,
}

/// The token `t` is no one's.
pub open spec fn free_token(map: Map<u32, SlotKey>, t: u32) -> bool {
    t != 0 && !map.contains_key(t)
}

/// How many steps lead from `from` up to `to`, where 0 follows the largest number.
pub open spec fn steps(from: u32, to: u32) -> int {
    if from <= to {
        to - from
    } else {
        to - from + 0x1_0000_0000
    }
}

/// Among the first `n` tokens one is not in `used`, where `used` has fewer than `n`
/// elements.
proof fn some_token_is_free(used: Set<u32>, n: nat)
    requires
        used.finite(),
        used.len() < n,
        n <= u32::MAX,
    ensures
        exists|t: u32| 0 < t <= n && !used.contains(t),
    decreases n,
{
    let top = n as u32;
    if used.contains(top) {
        some_token_is_free(used.remove(top), (n - 1) as nat);
        let t = choose|t: u32| 0 < t <= n - 1 && !used.remove(top).contains(t);
        assert(0 < t <= n && !used.contains(t));
    } else {
        assert(0 < top <= n && !used.contains(top));
    }
}

impl TokenRegistry {
    /// No tokens in use.
    pub fn new() -> (r: Self)
        ensures
            no_entries(r.map@),
            r.next_ctx == 1,
    {
        TokenRegistry { map: fx_new(), next_ctx: 1 }
    }

    /// Takes a token for a slot. The first one that is free is taken, counting up from
    /// the one after the last.
    pub fn take(&mut self, slot_key: SlotKey) -> (token: u32)
        requires
            old(self).map@.dom().finite(),
            old(self).map@.len() < u32::MAX,
        ensures
            token != 0,
            !old(self).map@.contains_key(token),
            final(self).map@ == old(self).map@.insert(token, slot_key),
            final(self).next_ctx == token.wrapping_add(1),
            forall|t: u32|
                #[trigger] free_token(old(self).map@, t) ==> steps(old(self).next_ctx, token) <= steps(
                    old(self).next_ctx,
                    t,
                ),
    {
        let ghost goal: u32;
        proof {
            some_token_is_free(self.map@.dom(), u32::MAX as nat);
            goal = choose|t: u32| 0 < t <= u32::MAX && !self.map@.dom().contains(t);
        }
        let ghost start = self.next_ctx;
        loop
            invariant
                self.map@ == old(self).map@,
                goal != 0,
                !self.map@.contains_key(goal),
                start == old(self).next_ctx,
                forall|t: u32|
                    #[trigger] free_token(old(self).map@, t) ==> steps(start, self.next_ctx) <= steps(
                        start,
                        t,
                    ),
            decreases steps(self.next_ctx, goal),
        {
            let token: u32 = self.next_ctx;
            self.next_ctx = token.wrapping_add(1);
            if token == 0 {
                assert(!free_token(old(self).map@, 0));
                continue;
            }
            if fx_get(&self.map, token).is_none() {
                fx_insert(&mut self.map, token, slot_key);
                return token;
            }
            assert(!free_token(old(self).map@, token));
        }
    }

    /// Gives up a token whose request was refused.
    pub fn reclaim(&mut self, token: u32)
        ensures
            final(self).map@ == old(self).map@.remove(token),
            final(self).next_ctx == old(self).next_ctx,
    {
        let _ = fx_remove(&mut self.map, token);
    }

    /// Gives up a token whose request has ended, and gives its slot.
    pub fn ack_pool_done(&mut self, token: u32) -> (r: Option<SlotKey>)
        ensures
            final(self).map@ == old(self).map@.remove(token),
            final(self).next_ctx == old(self).next_ctx,
            r == (if old(self).map@.contains_key(token) {
                Some(old(self).map@[token])
            } else {
                None
            }),
    {
        fx_remove(&mut self.map, token)
    }

    /// Gives up every token.
    pub fn forget(&mut self)
        ensures
            no_entries(final(self).map@),
            final(self).next_ctx == old(self).next_ctx,
    {
        fx_clear(&mut self.map);
    }
}

} // verus!
