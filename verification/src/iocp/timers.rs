//! Operations that wait for a time.
use vstd::prelude::*;
use crate::slots::SlotState;
use super::driver::IocpDriver;
use super::op::IocpOpState;
use super::table::TableModel;

verus! {

/// A timer that has to be started again.
#[derive(Debug, Clone, Copy, PartialEq, Eq, Structural)]
pub struct TimerRestart {
    pub user_data: usize,
    pub nanos: u64,
}

/// How long to wait on the port, in milliseconds: no longer than asked for, and no
/// longer than until the next timer fires.
pub fn calculate_wait_ms(timeout_ms: u32, next_timeout: Option<u64>) -> (ms: u32)
    ensures
        ms <= timeout_ms,
        match next_timeout {
            Some(nanos) => {
                &&& ms <= nanos / 1_000_000
                &&& ms == timeout_ms || ms == nanos / 1_000_000
            },
            None => ms == timeout_ms,
        },
{
    match next_timeout {
        Some(nanos) => {
            let millis: u64 = nanos / 1_000_000;
            let millis: u32 = if millis > 0xffff_ffff {
                0xffff_ffff
            } else {
                millis as u32
            };
            if timeout_ms < millis {
                timeout_ms
            } else {
                millis
            }
        },
        None => timeout_ms,
    }
}

impl<P> TableModel<P> {
    /// The operation in slot `i` is with the system or the timer.
    pub open spec fn in_flight(self, i: int) -> bool {
        self.in_state(i, SlotState::InFlightWaiting) || self.in_state(
            i,
            SlotState::InFlightOrphaned,
        )
    }

    /// The timer of the operation in slot `i` has fired too early: that much time is
    /// left.
    pub open spec fn time_left(self, i: int, now: u64) -> Option<u64> {
        match self.slots[i].platform.timer_deadline {
            Some(deadline) => if self.in_flight(i) && now < deadline {
                Some((deadline - now) as u64)
            } else {
                None
            },
            None => None,
        }
    }

    /// What the timer of slot `i` does when it fires: an operation that somebody waits
    /// for has ended, unless time is left. A slot that is not in flight forgets about
    /// the timer.
    pub open spec fn timer_fired(self, i: int, now: u64) -> TableModel<P> {
        if self.time_left(i, now) is Some {
            self
        } else if self.in_state(i, SlotState::InFlightWaiting) {
            self.ended(i, self.slots[i].generation, 0, None)
        } else if self.live(i) && !self.in_flight(i) {
            self.with_platform(
                i,
                IocpOpState { timer_id: None, timer_deadline: None, ..self.slots[i].platform },
            )
        } else {
            self
        }
    }

    /// What timers do when they fire one after the other.
    pub open spec fn timers_fired(self, fired: Seq<usize>, now: u64) -> TableModel<P>
        decreases fired.len(),
    {
        if fired.len() == 0 {
            self
        } else {
            self.timers_fired(fired.drop_last(), now).timer_fired(fired.last() as int, now)
        }
    }

    /// The timers that have to be started again after some have fired.
    pub open spec fn restarts(self, fired: Seq<usize>, now: u64) -> Seq<TimerRestart>
        decreases fired.len(),
    {
        if fired.len() == 0 {
            Seq::empty()
        } else {
            let front = self.restarts(fired.drop_last(), now);
            let t = self.timers_fired(fired.drop_last(), now);
            match t.time_left(fired.last() as int, now) {
                Some(nanos) => front.push(TimerRestart { user_data: fired.last(), nanos }),
                None => front,
            }
        }
    }
}

impl<P> IocpDriver<P> {
    /// Handles a timer that has fired, and says how much time is left.
    fn finish_timer_op(&mut self, user_data: usize, now: u64) -> (left: Option<u64>)
        requires
            old(self).wf(),
        ensures
            final(self).wf(),
            final(self).same_but_table(old(self)),
            final(self).table.model() == old(self).table.model().timer_fired(user_data as int, now),
            left == old(self).table.model().time_left(user_data as int, now),
    {
        let state = match self.table.ops.state(user_data) {
            Some(state) => state,
            None => {
                return None;
            },
        };
        let platform: IocpOpState = self.table.ops.slots[user_data].platform;
        let in_flight: bool = match state {
            SlotState::InFlightWaiting => true,
            SlotState::InFlightOrphaned => true,
            _ => false,
        };
        if !in_flight {
            self.table.set_platform(
                user_data,
                IocpOpState { timer_id: None, timer_deadline: None, ..platform },
            );
            return None;
        }
        if let Some(deadline) = platform.timer_deadline {
            if now < deadline {
                return Some(deadline - now);
            }
        }
        if let SlotState::InFlightWaiting = state {
            let generation: u32 = self.table.ops.slots[user_data].generation;
            self.table.end_op(user_data, generation, 0, None);
        }
        None
    }

    /// Handles timers that have fired, and gives those that have to be started again.
    pub fn process_timers(&mut self, fired: &Vec<usize>, now: u64) -> (restarts: Vec<TimerRestart>)
        requires
            old(self).wf(),
        ensures
            final(self).wf(),
            final(self).same_but_table(old(self)),
            final(self).table.model() == old(self).table.model().timers_fired(fired@, now),
            restarts@ == old(self).table.model().restarts(fired@, now),
    {
        let mut restarts: Vec<TimerRestart> = Vec::new();
        let mut i: usize = 0;
        while i < fired.len()
            invariant
                i <= fired@.len(),
                self.wf(),
                self.same_but_table(old(self)),
                self.table.model() == old(self).table.model().timers_fired(
                    fired@.take(i as int),
                    now,
                ),
                restarts@ == old(self).table.model().restarts(fired@.take(i as int), now),
            decreases fired@.len() - i,
        {
            let user_data: usize = fired[i];
            let left = self.finish_timer_op(user_data, now);
            if let Some(nanos) = left {
                restarts.push(TimerRestart { user_data, nanos });
            }
            proof {
                let more = fired@.take(i + 1);
                assert(more.drop_last() =~= fired@.take(i as int));
                assert(more.last() == user_data);
            }
            i = i + 1;
        }
        assert(fired@.take(i as int) =~= fired@);
        restarts
    }

    /// Takes note of a timer that was started again.
    pub fn timer_restarted(&mut self, user_data: usize, timer_id: u64)
        requires
            old(self).wf(),
        ensures
            final(self).wf(),
            final(self).same_but_table(old(self)),
            final(self).table.model() == (if old(self).table.ops.live(user_data as int) {
                old(self).table.model().with_platform(
                    user_data as int,
                    IocpOpState {
                        timer_id: Some(timer_id),
                        ..old(self).table.ops.slots@[user_data as int].platform
                    },
                )
            } else {
                old(self).table.model()
            }),
    {
        if self.table.ops.contains(user_data) {
            let platform: IocpOpState = self.table.ops.slots[user_data].platform;
            self.table.set_platform(
                user_data,
                IocpOpState { timer_id: Some(timer_id), ..platform },
            );
        }
    }
}

/// A wait ends no later than asked for and no later than the next timer, and no more than a
/// millisecond before the earlier of the two.
pub proof fn waits_end_with_the_next_timer(timeout_ms: u32, next_timeout: Option<u64>, ms: u32)
    requires
        call_ensures(calculate_wait_ms, (timeout_ms, next_timeout), ms),
    ensures
        ms <= timeout_ms,
        next_timeout is None ==> ms == timeout_ms,
        next_timeout matches Some(nanos) ==> ms * 1_000_000 <= nanos && (ms == timeout_ms || nanos
            < (ms + 1) * 1_000_000),
{
}

} // verus!
