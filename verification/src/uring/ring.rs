//! Setting the ring up, waiting on it, and being woken from other threads.
use vstd::prelude::*;
use super::config::{IoMode, OwnedRawHandle, RawHandle, UringConfig};
use super::driver::{SubmitStep, UringDriver, UringOpState, WakerState};
use super::error::UringError;
use super::op::{IoFd, UringOp};
use crate::slots::OpSlot;

verus! {

/// `EIO`.
pub const EIO: i32 = 5;

/// `EAGAIN`.
pub const EAGAIN: i32 = 11;

/// `ETIME`.
pub const ETIME: i32 = 62;

/// How the ring is to be created.
#[derive(Debug, Clone, Copy, PartialEq, Eq, Structural)]
pub struct RingSetup {
    pub entries: u32,
    pub coop_taskrun: bool,
    pub single_issuer: bool,
    pub defer_taskrun: bool,
    /// The idle time of the kernel's polling thread in milliseconds, where there is
    /// to be one.
    pub sqpoll_idle: Option<u32>,
}

impl RingSetup {
    /// The setup that a configuration asks for.
    pub fn from_config(config: &UringConfig) -> (s: Self)
        ensures
            s.entries == config.entries.spec_get(),
            s.coop_taskrun == config.setup.coop_taskrun,
            s.single_issuer == config.setup.single_issuer,
            s.defer_taskrun == config.setup.defer_taskrun,
            s.sqpoll_idle == (match config.mode {
                IoMode::Interrupt => None::<u32>,
                IoMode::Polling(idle) => Some(idle.spec_get()),
            }),
    {
        let sqpoll_idle: Option<u32> = match config.mode {
            IoMode::Interrupt => None,
            IoMode::Polling(idle) => Some(idle.get()),
        };
        RingSetup {
            entries: config.entries.get(),
            coop_taskrun: config.setup.coop_taskrun,
            single_issuer: config.setup.single_issuer,
            defer_taskrun: config.setup.defer_taskrun,
            sqpoll_idle,
        }
    }
}

/// Starts a driver on the kernel's answer to the ring setup. A kernel that refuses
/// the setup, for whatever reason, keeps the driver from starting: no flag is given
/// up silently.
pub fn ring_built<P>(config: &UringConfig, built: Result<(), i32>) -> (r: Result<
    UringDriver<P>,
    UringError,
>)
    ensures
        built is Err <==> r is Err,
        r matches Err(e) ==> e is DriverInit,
        r matches Ok(d) ==> {
            &&& d.wf()
            &&& d.idle(config)
        },
{
    match built {
        Ok(_) => Ok(UringDriver::new(config)),
        Err(_) => Err(UringError::DriverInit),
    }
}

/// Takes over the wake-up descriptor that the kernel made, if it made one.
pub fn eventfd_created(fd: i32) -> (r: Result<OwnedRawHandle, UringError>)
    ensures
        fd < 0 ==> r == Err::<OwnedRawHandle, UringError>(UringError::DriverInit),
        fd >= 0 ==> r == Ok::<OwnedRawHandle, UringError>(
            OwnedRawHandle { raw: RawHandle::File { fd } },
        ),
{
    if fd < 0 {
        return Err(UringError::DriverInit);
    }
    Ok(OwnedRawHandle::from_raw_owned(RawHandle::for_file(fd)))
}

/// Whether the kernel has to be entered for it to see new entries: a polling thread
/// sees them by itself while it is awake.
pub fn needs_enter(sqpoll: bool, need_wakeup: bool) -> (b: bool)
    ensures
        b <==> (sqpoll ==> need_wakeup),
{
    if sqpoll {
        need_wakeup
    } else {
        true
    }
}

/// How to wait for completions.
#[derive(Debug, Clone, Copy, PartialEq, Eq, Structural)]
pub enum WaitPlan {
    /// Not at all: nothing is under way.
    Idle,
    /// Not at all: completions are there.
    Process,
    /// Until one arrives, but no longer than this.
    WaitFor { secs: u64, nanos: u32 },
    /// Until one arrives.
    WaitForever,
}

/// Takes note of how waiting with a time limit ended. Running out of time is no
/// error.
pub fn wait_ended(r: Result<(), i32>) -> (e: Result<(), UringError>)
    ensures
        e is Err <==> (r matches Err(code) && code != ETIME),
        e matches Err(kind) ==> kind is CompletionWait,
{
    match r {
        Ok(_) => Ok(()),
        Err(code) => if code == ETIME {
            Ok(())
        } else {
            Err(UringError::CompletionWait)
        },
    }
}

/// Takes note of how writing to the wake-up descriptor ended. A counter that is
/// full wakes the driver just the same; an error without a number counts as `EIO`.
pub fn wake_written(r: Result<(), Option<i32>>) -> (e: Result<(), i32>)
    ensures
        e == (match r {
            Ok(_) => Ok::<(), i32>(()),
            Err(Some(code)) => if code == EAGAIN {
                Ok(())
            } else {
                Err(code)
            },
            Err(None) => Err(EIO),
        }),
{
    match r {
        Ok(_) => Ok(()),
        Err(code) => match code {
            Some(c) => if c == EAGAIN {
                Ok(())
            } else {
                Err(c)
            },
            None => Err(EIO),
        },
    }
}

/// Whether a wake-up is on its way. Whoever wakes the driver shares it with the driver.
#[derive(Debug, Clone, Copy, PartialEq, Eq, Structural)]
pub struct WakeFlag {
    pub is_waked: bool,
}

impl WakeFlag {
    /// No wake-up is on its way.
    pub fn new() -> (f: Self)
        ensures
            !f.is_waked,
    {
        WakeFlag { is_waked: false }
    }

    /// Asks for a wake-up, and says whether the wake-up descriptor has to be written
    /// to: only the first request since the driver last woke up has to.
    pub fn begin_wake(&mut self) -> (write: bool)
        ensures
            write == !old(self).is_waked,
            final(self).is_waked,
    {
        if self.is_waked {
            return false;
        }
        self.is_waked = true;
        true
    }
}

/// What is to be done for the driver to listen for wake-ups.
#[derive(Debug)]
pub enum WakerArm {
    /// Nothing: it does.
    Armed,
    /// Register the wake-up descriptor.
    RegisterFd,
    /// Submit the read of the wake-up descriptor.
    Submit(SubmitStep),
    /// Nothing: there is no slot for the read.
    Failed(UringError),
}

impl<P> UringDriver<P> {
    /// Decides how to wait for completions, given whether some are there and when the
    /// next timer runs out.
    pub fn wait_plan(&self, completions_ready: bool, next_timeout: Option<(u64, u32)>) -> (p:
        WaitPlan)
        ensures
            p == (if !(exists|i: int| self.ops.live(i)) {
                WaitPlan::Idle
            } else if completions_ready {
                WaitPlan::Process
            } else {
                match next_timeout {
                    Some((secs, nanos)) => WaitPlan::WaitFor { secs, nanos },
                    None => WaitPlan::WaitForever,
                }
            }),
    {
        if !self.has_active_ops() {
            return WaitPlan::Idle;
        }
        if completions_ready {
            return WaitPlan::Process;
        }
        match next_timeout {
            Some((secs, nanos)) => WaitPlan::WaitFor { secs, nanos },
            None => WaitPlan::WaitForever,
        }
    }

    /// Nothing but operations and the waker differs.
    pub open spec fn same_but_ops_and_waker(&self, before: &Self) -> bool {
        &&& self.backlog@ == before.backlog@
        &&& self.pending_cancellations@ == before.pending_cancellations@
        &&& self.completions == before.completions
        &&& self.chunks == before.chunks
        &&& self.files == before.files
        &&& self.order == before.order
    }

    /// Notes under which index the wake-up descriptor is registered.
    pub fn waker_registered(&mut self, index: u32)
        requires
            old(self).wf(),
        ensures
            final(self).wf(),
            final(self).same_but_ops_and_waker(old(self)),
            final(self).ops == old(self).ops,
            final(self).waker == (WakerState { registered_fd: Some(index), ..old(self).waker }),
    {
        self.waker.registered_fd = Some(index);
    }

    /// The read of the wake-up descriptor is over: its slot is free.
    pub open spec fn read_over(&self, after: &Self) -> bool {
        &&& after.same_but_ops_and_waker(self)
        &&& after.waker == (WakerState { token: None, ..self.waker })
        &&& match self.waker.token {
            Some(t) => if self.ops.live(t as int) {
                after.slot_becomes(self, t as int, self.ops.slots@[t as int].vacated())
            } else {
                after.ops.slots@ == self.ops.slots@
            },
            None => after.ops.slots@ == self.ops.slots@,
        }
    }

    /// Ends a wake-up: its read is over, and the next request counts as the first.
    fn waker_fired(&mut self, flag: &mut WakeFlag)
        requires
            old(self).wf(),
        ensures
            final(self).wf(),
            !final(flag).is_waked,
            old(self).read_over(final(self)),
    {
        flag.is_waked = false;
        if let Some(token) = self.waker.token {
            self.waker.token = None;
            self.ops.remove(token);
        }
    }

    /// The driver reads from the wake-up descriptor, as far as it can be said before
    /// what `r` asks for is done.
    pub open spec fn armed(&self, after: &Self, r: &WakerArm) -> bool {
        &&& after.same_but_ops_and_waker(self)
        &&& match *r {
            WakerArm::Armed => {
                &&& self.waker.token is Some
                &&& after.waker == self.waker
                &&& after.ops.slots@ == self.ops.slots@
            },
            WakerArm::RegisterFd => {
                &&& self.waker.token is None
                &&& self.waker.registered_fd is None
                &&& after.waker == self.waker
                &&& after.ops.slots@ == self.ops.slots@
            },
            WakerArm::Failed(e) => {
                &&& e == UringError::InvalidState
                &&& self.waker.token is None
                &&& self.waker.registered_fd is Some
                &&& forall|i: int| 0 <= i < self.ops.slots@.len() ==> self.ops.live(i)
                &&& after.waker == self.waker
                &&& after.ops.slots@ == self.ops.slots@
            },
            WakerArm::Submit(step) => {
                &&& self.waker.token is None
                &&& self.waker.registered_fd is Some
                &&& after.waker.token matches Some(i) && !self.ops.live(i as int)
                    && i < self.ops.slots@.len() && after.waker == (WakerState {
                    token: Some(i),
                    ..self.waker
                }) && exists|mid: Self|
                    {
                        &&& mid.slot_becomes(
                            self,
                            i as int,
                            OpSlot {
                                op: Some(wakeup_op(self.waker.registered_fd->Some_0)),
                                ..OpSlot::fresh(
                                    self.ops.slots@[i as int].generation,
                                    UringOpState { timer_id: None },
                                )
                            },
                        )
                        &&& mid.chunks == self.chunks
                        &&& #[trigger] mid.begun(
                            after,
                            i,
                            wakeup_op(self.waker.registered_fd->Some_0),
                            step,
                        )
                    }
            },
        }
    }

    /// Goes on after a wake-up: its read is over, the next request counts as the first,
    /// and the wake-up descriptor is read from again.
    pub fn waker_completed(&mut self, flag: &mut WakeFlag) -> (r: WakerArm)
        requires
            old(self).wf(),
        ensures
            final(self).wf(),
            !final(flag).is_waked,
            exists|mid: Self| #[trigger] old(self).read_over(&mid) && mid.armed(final(self), &r),
    {
        self.waker_fired(flag);
        let ghost mid = *self;
        let r = self.arm_waker();
        assert(old(self).read_over(&mid) && mid.armed(self, &r));
        r
    }

    /// Starts to read from the wake-up descriptor, unless that is under way. The read
    /// takes a slot of its own.
    pub fn arm_waker(&mut self) -> (r: WakerArm)
        requires
            old(self).wf(),
        ensures
            final(self).wf(),
            old(self).armed(final(self), &r),
    {
        if self.waker.token.is_some() {
            return WakerArm::Armed;
        }
        let index: u32 = match self.waker.registered_fd {
            Some(index) => index,
            None => {
                return WakerArm::RegisterFd;
            },
        };
        match self.ops.insert(UringOpState::new()) {
            Err(_) => WakerArm::Failed(UringError::InvalidState),
            Ok((i, _g)) => {
                self.waker.token = Some(i);
                self.ops.set_op(i, UringOp::Wakeup { fd: IoFd::Fixed { index } });
                let ghost mid = *self;
                proof {
                    assert(mid.ops.slots@ =~= old(self).ops.slots@.update(
                        i as int,
                        OpSlot {
                            op: Some(wakeup_op(index)),
                            ..OpSlot::fresh(
                                        old(self).ops.slots@[i as int].generation,
                                        UringOpState { timer_id: None },
                                    )
                        },
                    ));
                }
                let step = self.begin_submission(i);
                assert(mid.begun(self, i, wakeup_op(index), step));
                WakerArm::Submit(step)
            },
        }
    }

    /// Ends the submission of the wake-up read. One that found no room waits in the
    /// backlog.
    pub fn waker_submitted(&mut self, outcome: Result<bool, UringError>) -> (r: Result<
        (),
        UringError,
    >)
        requires
            old(self).wf(),
            old(self).waker.token is Some,
        ensures
            final(self).wf(),
            final(self).same_but_backlog(old(self)),
            match outcome {
                Ok(true) => r is Ok && final(self).backlog@ == old(self).backlog@,
                Ok(false) => r is Ok && final(self).backlog@ == old(self).backlog@.push(
                    old(self).waker.token->Some_0,
                ),
                Err(e) => r == Err::<(), UringError>(e) && final(self).backlog@
                    == old(self).backlog@,
            },
    {
        match outcome {
            Ok(accepted) => {
                if !accepted {
                    if let Some(token) = self.waker.token {
                        self.push_backlog(token);
                    }
                }
                Ok(())
            },
            Err(e) => Err(e),
        }
    }
}

/// The read of the wake-up descriptor, which is registered under `index`.
pub open spec fn wakeup_op(index: u32) -> UringOp {
    UringOp::Wakeup { fd: IoFd::Fixed { index } }
}

/// A driver that works on nothing does not wait, nor does one with completions to process. Any
/// other waits until a completion arrives, and no longer than until the next timer runs out.
pub proof fn waits_end_with_the_next_timer<P>(
    d: &UringDriver<P>,
    ready: bool,
    next: Option<(u64, u32)>,
    plan: WaitPlan,
    i: int,
)
    requires
        call_ensures(UringDriver::<P>::wait_plan, (d, ready, next), plan),
    ensures
        (forall|k: int|
            0 <= k < d.ops.slots@.len() ==> (#[trigger] d.ops.slots@[k]).state is None)
            ==> plan is Idle,
        0 <= i < d.ops.slots@.len() && d.ops.slots@[i].state is Some ==> {
            &&& ready ==> plan is Process
            &&& !ready && next is None ==> plan is WaitForever
            &&& !ready ==> (next matches Some((s, n)) ==> (plan matches WaitPlan::WaitFor {
                secs,
                nanos,
            } && secs == s && nanos == n))
        },
{
    if 0 <= i < d.ops.slots@.len() && d.ops.slots@[i].state is Some {
        assert(d.ops.live(i));
    }
    if forall|k: int| 0 <= k < d.ops.slots@.len() ==> (#[trigger] d.ops.slots@[k]).state is None {
        assert forall|k: int| !d.ops.live(k) by {
            if 0 <= k < d.ops.slots@.len() {
                assert(d.ops.slots@[k].state is None);
            }
        }
    }
}

} // verus!
