//! What a completion means for the operation it belongs to.
use vstd::prelude::*;
use crate::completion::{event_res, io_result_to_event_res};
use crate::slots::{OpSlot, SlotState};
use crate::sockaddr::{decoded, decoded_is_unique, ByteOrder, SocketAddr};
use super::config::{IocpHandle, SocketGenerations, ThreadTags};
use super::driver::{
    Cleanup, IocpDriver, CONTROL_EVENT_KEY, RIO_EVENT_KEY, WAKEUP_USER_DATA,
};
use super::error::IocpError;
use super::net::{to_socket_addr_in, AF_INET6};
use super::op::{IoFd, IocpOp, IocpOpState};
use super::submit::bytes_of;
use super::table::{OpTable, TableModel};
use super::win32::{CompletionStatus, WAIT_TIMEOUT};

verus! {

/// The number that stands for an operation that does not exist.
pub const UNKNOWN_USER_DATA: usize = usize::MAX - 2;

/// The error that is stored with a completion when the system gave no number.
pub const UNNUMBERED_ERROR: i32 = 1;

/// What is asked of the system before an operation is complete.
#[derive(Debug, Clone, Copy, PartialEq, Eq, Structural)]
#[allow(inconsistent_fields)]
pub enum CompletionAsk {
    /// Set `SO_UPDATE_CONNECT_CONTEXT`.
    UpdateConnect { socket: usize },
    /// Set `SO_UPDATE_ACCEPT_CONTEXT` to the socket that listens, and read the peer's
    /// name out of the output of `AcceptEx`.
    UpdateAccept { accept: usize, listen: usize },
    /// `getpeername`.
    PeerName { socket: usize },
}

/// The answer: the error, if the call failed, and the name that was read.
#[derive(Debug)]
pub struct CompletionAnswer {
    pub error: Option<i32>,
    pub name: Option<Vec<u8>>,
}

/// A completion under way.
#[derive(Debug, Clone, Copy, PartialEq, Eq, Structural)]
pub struct CompletionWork {
    pub user_data: usize,
    pub generation: u32,
    /// The number of bytes that the system reported.
    pub bytes: usize,
}

/// Where a completion stands.
#[derive(Debug)]
pub enum CompletionStep {
    /// It belongs to no operation under way.
    Ignored,
    /// The system is asked for something first.
    Ask { ask: CompletionAsk, work: CompletionWork },
    /// The operation has ended.
    Done { cleanup: Cleanup },
}

/// What a packet of the port is about.
#[derive(Debug, Clone, Copy, PartialEq, Eq, Structural)]
pub enum Packet {
    /// Nothing came.
    Nothing,
    /// A command to the driver.
    Control,
    /// Registered I/O has completions.
    Rio,
    /// A wake-up.
    Wakeup,
    /// An operation.
    Op { user_data: usize, success: bool, error_code: Option<u32>, bytes: u32 },
}

impl Packet {
    /// By how much a packet brings the end of a strict close nearer: a command and an
    /// operation count once, and registered I/O as often as requests were `completed`.
    pub fn drained(&self, completed: usize) -> (n: usize)
        ensures
            n == (match *self {
                Packet::Control => 1,
                Packet::Op { .. } => 1,
                Packet::Rio => completed,
                Packet::Nothing => 0,
                Packet::Wakeup => 0,
            }),
    {
        match self {
            Packet::Control => 1,
            Packet::Op { .. } => 1,
            Packet::Rio => completed,
            Packet::Nothing => 0,
            Packet::Wakeup => 0,
        }
    }
}

/// What the system reports of an operation.
pub open spec fn reported(success: bool, error_code: Option<u32>, bytes: u32) -> Result<
    usize,
    Option<i32>,
> {
    if success {
        Ok(bytes as usize)
    } else {
        Err(
            Some(
                match error_code {
                    Some(code) => code as i32,
                    None => 0,
                },
            ),
        )
    }
}

/// The error that the system reports can be published: its negation is a number.
pub open spec fn publishable(res: Result<usize, Option<i32>>) -> bool {
    res matches Err(Some(code)) ==> code > i32::MIN
}

/// The address that a name spells out, if it does, in specifications.
pub open spec fn peer_named(order: ByteOrder, name: Option<Seq<u8>>) -> Option<SocketAddr> {
    match name {
        None => None,
        Some(bytes) => match decoded(order, AF_INET6, bytes) {
            Ok(addr) => Some(addr),
            Err(_) => None,
        },
    }
}

/// The address that a name spells out, if it does.
pub fn parse_name(order: ByteOrder, name: &Option<Vec<u8>>) -> (peer: Option<SocketAddr>)
    ensures
        peer == peer_named(order, bytes_of(*name)),
{
    match name {
        None => None,
        Some(bytes) => {
            let r = to_socket_addr_in(order, bytes.as_slice());
            proof {
                decoded_is_unique(order, AF_INET6, bytes@, r);
            }
            match r {
                Ok(addr) => Some(addr),
                Err(_) => None,
            }
        },
    }
}

/// What an operation hands to whoever waited for it.
#[derive(Debug, Clone, Copy, PartialEq, Eq, Structural)]
pub enum OpOutput {
    /// A number, such as that of the bytes transferred.
    Number { value: usize },
    /// The handle that the operation made.
    Handle { handle: IocpHandle },
}

impl IocpOp {
    /// What the number that the operation ended with stands for: that of an accepted
    /// socket is a socket, under a fresh generation of this thread, and that of an
    /// opened file is a file.
    pub fn map_completion(
        &self,
        raw: usize,
        generations: &mut SocketGenerations,
        tags: &mut ThreadTags,
    ) -> (o: OpOutput)
        ensures
            match *self {
                IocpOp::Accept { .. } => {
                    &&& o == (OpOutput::Handle {
                        handle: IocpHandle::Socket {
                            handle: raw,
                            generation: old(generations).next_generation(*old(tags)),
                        },
                    })
                    &&& *final(generations) == old(generations).after_generation(*old(tags))
                    &&& *final(tags) == old(generations).tags_left(*old(tags))
                },
                IocpOp::Open { .. } => {
                    &&& o == (OpOutput::Handle { handle: IocpHandle::File { handle: raw } })
                    &&& *final(generations) == *old(generations)
                    &&& *final(tags) == *old(tags)
                },
                _ => {
                    &&& o == (OpOutput::Number { value: raw })
                    &&& *final(generations) == *old(generations)
                    &&& *final(tags) == *old(tags)
                },
            },
    {
        match self {
            IocpOp::Accept { .. } => OpOutput::Handle {
                handle: IocpHandle::for_socket(raw, generations, tags),
            },
            IocpOp::Open { .. } => OpOutput::Handle { handle: IocpHandle::for_file(raw) },
            _ => OpOutput::Number { value: raw },
        }
    }

    /// What is asked of the system before the operation is complete.
    pub open spec fn completion_ask(self, platform: IocpOpState) -> Option<CompletionAsk> {
        match self {
            IocpOp::Connect { fd, .. } => match (platform.resolved_handle, fd) {
                (Some(h), _) => Some(CompletionAsk::UpdateConnect { socket: h.handle_spec() }),
                (None, IoFd::Raw { handle }) => Some(
                    CompletionAsk::UpdateConnect { socket: handle.handle_spec() },
                ),
                _ => None,
            },
            IocpOp::Accept { fd: IoFd::Raw { handle }, accept_socket } => Some(
                CompletionAsk::UpdateAccept {
                    accept: accept_socket,
                    listen: handle.handle_spec(),
                },
            ),
            IocpOp::UdpRecvStream { fd: IoFd::Raw { handle }, .. } => if platform.datagram is None {
                Some(CompletionAsk::PeerName { socket: handle.handle_spec() })
            } else {
                None
            },
            _ => None,
        }
    }

    /// What is asked of the system before the operation is complete.
    fn ask_on_complete(&self, platform: IocpOpState) -> (r: Option<CompletionAsk>)
        ensures
            r == self.completion_ask(platform),
    {
        match self {
            IocpOp::Connect { fd, .. } => {
                if let Some(h) = platform.resolved_handle {
                    return Some(CompletionAsk::UpdateConnect { socket: h.as_socket() });
                }
                match fd {
                    IoFd::Raw { handle } => Some(
                        CompletionAsk::UpdateConnect { socket: handle.as_socket() },
                    ),
                    _ => None,
                }
            },
            IocpOp::Accept { fd: IoFd::Raw { handle }, accept_socket } => Some(
                CompletionAsk::UpdateAccept { accept: *accept_socket, listen: handle.as_socket() },
            ),
            IocpOp::UdpRecvStream { fd: IoFd::Raw { handle }, .. } => {
                if platform.datagram.is_none() {
                    return Some(CompletionAsk::PeerName { socket: handle.as_socket() });
                }
                None
            },
            _ => None,
        }
    }

    /// The outcome of an operation for which nothing has to be asked. A listening
    /// socket has to be known by its handle; a stream that was given a datagram
    /// reports its length.
    pub open spec fn outcome(self, platform: IocpOpState, bytes: usize) -> Result<
        usize,
        Option<i32>,
    > {
        match self {
            IocpOp::Accept { .. } => Err(Some(0)),
            IocpOp::UdpRecvStream { .. } => match platform.datagram {
                Some(p) => Ok(
                    if bytes == 0 {
                        p.len
                    } else {
                        bytes
                    },
                ),
                None => Ok(bytes),
            },
            _ => Ok(bytes),
        }
    }

    /// Who sent the datagram that the operation was given.
    pub open spec fn given_peer(self, platform: IocpOpState) -> Option<SocketAddr> {
        match (self, platform.datagram) {
            (IocpOp::UdpRecvStream { .. }, Some(p)) => Some(p.peer),
            _ => None,
        }
    }

    /// The outcome of an operation for which nothing has to be asked.
    fn on_complete(&self, platform: IocpOpState, bytes: usize) -> (r: (
        Result<usize, Option<i32>>,
        Option<SocketAddr>,
    ))
        ensures
            r.0 == self.outcome(platform, bytes),
            r.1 == self.given_peer(platform),
    {
        match self {
            IocpOp::Accept { .. } => (Err(Some(0)), None),
            IocpOp::UdpRecvStream { .. } => match platform.datagram {
                Some(p) => (
                    Ok(
                        if bytes == 0 {
                            p.len
                        } else {
                            bytes
                        },
                    ),
                    Some(p.peer),
                ),
                None => (Ok(bytes), None),
            },
            _ => (Ok(bytes), None),
        }
    }

    /// The outcome of an operation after the system has answered.
    pub open spec fn outcome_after(self, bytes: usize, error: Option<i32>) -> Result<
        usize,
        Option<i32>,
    > {
        match (self, error) {
            (IocpOp::Connect { .. }, Some(code)) => Err(Some(code)),
            (IocpOp::Accept { .. }, Some(_)) => Err(None),
            (IocpOp::Accept { accept_socket, .. }, None) => Ok(accept_socket),
            _ => Ok(bytes),
        }
    }

    /// Whether a name that was read is the peer's.
    pub open spec fn takes_name(self, error: Option<i32>) -> bool {
        self is UdpRecvStream || (self is Accept && error is None)
    }
}

impl<P> TableModel<P> {
    /// The operation in slot `i` has ended with `res`. Without anybody who waits for
    /// it, it is gone without a word; when the kernel has still to report on it, its
    /// slot stays in use.
    pub open spec fn emitted(
        self,
        i: int,
        res: Result<usize, Option<i32>>,
        peer: Option<SocketAddr>,
    ) -> TableModel<P> {
        let platform = IocpOpState { rio_pool_waiting: false, ..self.slots[i].platform };
        let t = self.with_platform(i, platform);
        let generation = t.slots[i].generation;
        if platform.is_background {
            t.freed(i)
        } else if platform.rio_needs_drain && !platform.rio_drained {
            t.published(t.sidecar_of(i, generation, event_res(res) as i32, peer)).with_slot(
                i,
                OpSlot {
                    state: Some(SlotState::Completed),
                    payload: None,
                    detail: None,
                    ..t.slots[i]
                },
            )
        } else {
            t.ended(i, generation, event_res(res) as i32, peer)
        }
    }
}

impl<P> OpTable<P> {
    /// Ends the operation in slot `i`, which is under way.
    pub fn emit_event(
        &mut self,
        i: usize,
        res: &Result<usize, Option<i32>>,
        peer: Option<SocketAddr>,
    )
        requires
            old(self).wf(),
            old(self).ops.live(i as int),
            publishable(*res),
        ensures
            final(self).wf(),
            final(self).model() == old(self).model().emitted(i as int, *res, peer),
    {
        let event: i32 = io_result_to_event_res(res);
        let generation: u32 = self.ops.slots[i].generation;
        let platform: IocpOpState = self.ops.slots[i].platform;
        self.set_platform(i, IocpOpState { rio_pool_waiting: false, ..platform });
        if platform.is_background {
            self.free_op(i);
        } else if platform.rio_needs_drain && !platform.rio_drained {
            self.end_op_keeping_slot(i, generation, event, peer);
        } else {
            self.end_op(i, generation, event, peer);
        }
    }
}

impl<P> IocpDriver<P> {
    /// What a packet of the port is about.
    pub open spec fn packet_of(&self, status: CompletionStatus) -> Result<Packet, IocpError> {
        match status {
            CompletionStatus::Timeout => Ok(Packet::Nothing),
            CompletionStatus::Completed { bytes, key, overlapped, success, error_code } => if key
                == CONTROL_EVENT_KEY {
                Ok(Packet::Control)
            } else if key == RIO_EVENT_KEY {
                Ok(Packet::Rio)
            } else {
                match self.user_data_of(overlapped, success, key, error_code) {
                    Ok(user_data) => Ok(
                        if user_data == WAKEUP_USER_DATA {
                            Packet::Wakeup
                        } else {
                            Packet::Op { user_data, success, error_code, bytes }
                        },
                    ),
                    Err(e) => Err(e),
                }
            },
        }
    }

    /// The operation that a packet belongs to. A packet without one carries the
    /// operation's number in its key; a failure to wait has neither.
    pub open spec fn user_data_of(
        &self,
        overlapped: Option<usize>,
        success: bool,
        key: usize,
        error_code: Option<u32>,
    ) -> Result<usize, IocpError> {
        match overlapped {
            Some(idx) => Ok(
                if idx < self.table.ops.slots@.len() {
                    idx
                } else {
                    UNKNOWN_USER_DATA
                },
            ),
            None => if !success && error_code == Some(WAIT_TIMEOUT) {
                Ok(WAKEUP_USER_DATA)
            } else if !success && key == 0 {
                Err(IocpError::CompletionWait)
            } else {
                Ok(key)
            },
        }
    }

    /// The operation that a packet belongs to.
    pub fn resolve_user_data(
        &self,
        overlapped: Option<usize>,
        success: bool,
        completion_key: usize,
        error_code: Option<u32>,
    ) -> (r: Result<usize, IocpError>)
        ensures
            r == self.user_data_of(overlapped, success, completion_key, error_code),
    {
        match overlapped {
            Some(idx) => {
                if idx >= self.table.ops.len() {
                    return Ok(UNKNOWN_USER_DATA);
                }
                Ok(idx)
            },
            None => {
                if !success {
                    let err: u32 = match error_code {
                        Some(code) => code,
                        None => 0,
                    };
                    if err == WAIT_TIMEOUT {
                        return Ok(WAKEUP_USER_DATA);
                    }
                    if completion_key == 0 {
                        return Err(IocpError::CompletionWait);
                    }
                }
                Ok(completion_key)
            },
        }
    }

    /// Takes a packet from the port. A wake-up lets the next one be asked for.
    pub fn get_completion(&mut self, status: CompletionStatus) -> (r: Result<Packet, IocpError>)
        requires
            old(self).wf(),
        ensures
            final(self).wf(),
            r == old(self).packet_of(status),
            *final(self) == (IocpDriver {
                is_notified: old(self).is_notified && r != Ok::<Packet, IocpError>(Packet::Wakeup),
                ..*old(self)
            }),
    {
        match status {
            CompletionStatus::Timeout => Ok(Packet::Nothing),
            CompletionStatus::Completed { bytes, key, overlapped, success, error_code } => {
                if key == CONTROL_EVENT_KEY {
                    return Ok(Packet::Control);
                }
                if key == RIO_EVENT_KEY {
                    return Ok(Packet::Rio);
                }
                match self.resolve_user_data(overlapped, success, key, error_code) {
                    Ok(user_data) => {
                        if user_data == WAKEUP_USER_DATA {
                            self.is_notified = false;
                            return Ok(Packet::Wakeup);
                        }
                        Ok(Packet::Op { user_data, success, error_code, bytes })
                    },
                    Err(e) => Err(e),
                }
            },
        }
    }

    /// Takes a packet from the port while the driver is being closed: packets without
    /// an operation are passed over.
    pub fn poll_completion(&self, status: CompletionStatus) -> (p: Packet)
        ensures
            p == (match status {
                CompletionStatus::Timeout => Packet::Nothing,
                CompletionStatus::Completed { bytes, key, overlapped, success, error_code } => if key
                    == CONTROL_EVENT_KEY {
                    Packet::Control
                } else if key == RIO_EVENT_KEY {
                    Packet::Rio
                } else {
                    match overlapped {
                        Some(user_data) => Packet::Op { user_data, success, error_code, bytes },
                        None => Packet::Nothing,
                    }
                },
            }),
    {
        match status {
            CompletionStatus::Timeout => Packet::Nothing,
            CompletionStatus::Completed { bytes, key, overlapped, success, error_code } => {
                if key == CONTROL_EVENT_KEY {
                    return Packet::Control;
                }
                if key == RIO_EVENT_KEY {
                    return Packet::Rio;
                }
                match overlapped {
                    Some(user_data) => Packet::Op { user_data, success, error_code, bytes },
                    None => Packet::Nothing,
                }
            },
        }
    }

    /// The operation in slot `i`, which is under way, ends with `res`: its socket is no
    /// longer busy with it, and its completion is published. A completion that is meant
    /// for an earlier use of the slot changes nothing. An error without a number is
    /// stored with the completion.
    pub open spec fn ends_with(
        &self,
        after: &Self,
        i: int,
        res: Result<usize, Option<i32>>,
        peer: Option<SocketAddr>,
        step: &CompletionStep,
    ) -> bool {
        let slot = self.table.ops.slots@[i];
        let noted = if res == Err::<usize, Option<i32>>(None) {
            self.table.model().with_slot(
                i,
                OpSlot { detail: Some(Err(UNNUMBERED_ERROR)), ..slot },
            )
        } else {
            self.table.model()
        };
        if slot.platform.generation != slot.generation {
            &&& after.same_but_table(self)
            &&& after.table.model() == noted
            &&& step is Ignored
        } else {
            &&& step matches CompletionStep::Done { cleanup }
            &&& exists|start: Self, free: Self| #[trigger]
                start.op_released(&free, i, &cleanup) && start.same_but_table(self)
                    && start.table.model() == noted && after.same_but_table(&free)
                    && after.table.model() == free.table.model().emitted(i, res, peer)
        }
    }

    /// What a completion that the system reports leads to.
    pub open spec fn completed(
        &self,
        after: &Self,
        user_data: usize,
        res: Result<usize, Option<i32>>,
        step: &CompletionStep,
    ) -> bool {
        let i = user_data as int;
        let t = self.table.model();
        let slot = self.table.ops.slots@[i];
        if t.in_state(i, SlotState::InFlightWaiting) {
            let op = slot.op->Some_0;
            let found = slot.platform.blocking_result;
            match (found, res) {
                (Some(found), _) => exists|mid: Self| #[trigger]
                    self.noted(
                        &mid,
                        i,
                        IocpOpState { blocking_result: None, ..slot.platform },
                    ) && mid.ends_with(after, i, found, None, step),
                (None, Err(_)) => self.ends_with(after, i, res, None, step),
                (None, Ok(bytes)) => match op.completion_ask(slot.platform) {
                    Some(ask) => {
                        &&& *after == *self
                        &&& *step == (CompletionStep::Ask {
                            ask,
                            work: CompletionWork { user_data, generation: slot.generation, bytes },
                        })
                    },
                    None => self.ends_with(
                        after,
                        i,
                        op.outcome(slot.platform, bytes),
                        op.given_peer(slot.platform),
                        step,
                    ),
                },
            }
        } else if t.in_state(i, SlotState::InFlightOrphaned) {
            &&& step matches CompletionStep::Done { cleanup }
            &&& exists|free: Self| #[trigger]
                self.op_released(&free, i, &cleanup) && after.same_but_table(&free)
                    && after.table.model() == free.table.model().ended(
                    i,
                    slot.generation,
                    event_res(res) as i32,
                    None,
                )
        } else {
            *after == *self && step is Ignored
        }
    }

    fn end_with(&mut self, i: usize, res: Result<usize, Option<i32>>, peer: Option<SocketAddr>) -> (step:
        CompletionStep)
        requires
            old(self).wf(),
            old(self).table.model().in_state(i as int, SlotState::InFlightWaiting),
            publishable(res),
        ensures
            final(self).wf(),
            old(self).ends_with(final(self), i as int, res, peer, &step),
    {
        if let Err(None) = res {
            self.table.ops.set_detail(i, Err(UNNUMBERED_ERROR));
        }
        let ghost start = *self;
        if self.table.ops.slots[i].platform.generation != self.table.ops.slots[i].generation {
            return CompletionStep::Ignored;
        }
        let cleanup = self.release_socket_inflight_for_op(i);
        let ghost free = *self;
        assert(start.op_released(&free, i as int, &cleanup));
        proof {
            start.release_keeps_slot(&free, i as int, &cleanup);
        }
        self.table.emit_event(i, &res, peer);
        let step = CompletionStep::Done { cleanup };
        assert(step matches CompletionStep::Done { cleanup: c } && c == cleanup);
        step
    }

    /// An operation that the system lets go of stays in its slot.
    proof fn release_keeps_slot(&self, after: &Self, i: int, out: &Cleanup)
        requires
            self.table.ops.live(i),
            self.op_released(after, i, out),
        ensures
            after.table.ops.live(i),
            after.table.ops.slots@.len() == self.table.ops.slots@.len(),
            after.table.ops.slots@[i].state == self.table.ops.slots@[i].state,
            after.table.ops.slots@[i].generation == self.table.ops.slots@[i].generation,
    {
        let mid = choose|mid: Self| #[trigger]
            self.let_go(&mid, i) && if self.busy_socket(i) is Some {
                mid.cleaned_up(after, out)
            } else {
                *after == mid && out.released@.len() == 0 && out.closes@.len() == 0
            };
        assert(mid.table.model().slots == mid.table.ops.slots@);
        assert(after.table.model().slots == after.table.ops.slots@);
    }

    /// Takes the completion of an operation.
    pub fn process_completion(
        &mut self,
        user_data: usize,
        success: bool,
        error_code: Option<u32>,
        bytes_transferred: u32,
    ) -> (step: CompletionStep)
        requires
            old(self).wf(),
            publishable(reported(success, error_code, bytes_transferred)),
        ensures
            final(self).wf(),
            old(self).completed(
                final(self),
                user_data,
                reported(success, error_code, bytes_transferred),
                &step,
            ),
    {
        let code: u32 = match error_code {
            Some(code) => code,
            None => 0,
        };
        let res: Result<usize, Option<i32>> = if success {
            Ok(bytes_transferred as usize)
        } else {
            Err(
                Some(
                    #[verifier::truncate]
                    (code as i32),
                ),
            )
        };
        assert(res == reported(success, error_code, bytes_transferred));
        match self.table.ops.state(user_data) {
            Some(SlotState::InFlightWaiting) => {},
            Some(SlotState::InFlightOrphaned) => {
                return self.process_orphaned(user_data, res);
            },
            _ => {
                return CompletionStep::Ignored;
            },
        }
        let i: usize = user_data;
        let platform: IocpOpState = self.table.ops.slots[i].platform;
        if let Some(found) = platform.blocking_result {
            self.table.set_platform(i, IocpOpState { blocking_result: None, ..platform });
            let ghost mid = *self;
            assert(old(self).noted(
                &mid,
                i as int,
                IocpOpState { blocking_result: None, ..platform },
            ));
            return self.end_with(i, found, None);
        }
        let bytes: usize = match res {
            Ok(bytes) => bytes,
            Err(_) => {
                return self.end_with(i, res, None);
            },
        };
        let generation: u32 = self.table.ops.slots[i].generation;
        let op: IocpOp = match self.table.ops.slots[i].op {
            Some(op) => op,
            None => {
                return CompletionStep::Ignored;
            },
        };
        match op.ask_on_complete(platform) {
            Some(ask) => CompletionStep::Ask {
                ask,
                work: CompletionWork { user_data, generation, bytes },
            },
            None => {
                let (outcome, peer) = op.on_complete(platform, bytes);
                self.end_with(i, outcome, peer)
            },
        }
    }

    /// Takes the completion of an operation that was cancelled.
    fn process_orphaned(&mut self, i: usize, res: Result<usize, Option<i32>>) -> (step:
        CompletionStep)
        requires
            old(self).wf(),
            old(self).table.model().in_state(i as int, SlotState::InFlightOrphaned),
            publishable(res),
        ensures
            final(self).wf(),
            old(self).completed(final(self), i, res, &step),
    {
        let generation: u32 = self.table.ops.slots[i].generation;
        let cleanup = self.release_socket_inflight_for_op(i);
        let ghost free = *self;
        proof {
            old(self).release_keeps_slot(&free, i as int, &cleanup);
        }
        let event: i32 = io_result_to_event_res(&res);
        self.table.end_op(i, generation, event, None);
        let step = CompletionStep::Done { cleanup };
        assert(step matches CompletionStep::Done { cleanup: c } && c == cleanup);
        step
    }

    /// Stores the result of a call that the thread pool has made for an operation. One
    /// that is no longer under way is left alone.
    pub fn set_blocking_result(
        &mut self,
        user_data: usize,
        generation: u32,
        res: Result<usize, Option<i32>>,
    )
        requires
            old(self).wf(),
            publishable(res),
        ensures
            final(self).wf(),
            if old(self).table.model().in_flight(user_data as int)
                && old(self).table.ops.slots@[user_data as int].generation == generation {
                old(self).noted(
                    final(self),
                    user_data as int,
                    IocpOpState {
                        blocking_result: Some(res),
                        ..old(self).table.ops.slots@[user_data as int].platform
                    },
                )
            } else {
                *final(self) == *old(self)
            },
    {
        match self.table.ops.state(user_data) {
            Some(SlotState::InFlightWaiting) => {},
            Some(SlotState::InFlightOrphaned) => {},
            _ => {
                return ;
            },
        }
        if self.table.ops.slots[user_data].generation != generation {
            return ;
        }
        let platform: IocpOpState = self.table.ops.slots[user_data].platform;
        self.table.set_platform(
            user_data,
            IocpOpState { blocking_result: Some(res), ..platform },
        );
    }

    /// What the system's answer leads to. The operation may have ended meanwhile.
    pub open spec fn completion_answered(
        &self,
        after: &Self,
        work: CompletionWork,
        answer: CompletionAnswer,
        step: &CompletionStep,
    ) -> bool {
        let i = work.user_data as int;
        let slot = self.table.ops.slots@[i];
        let op = slot.op->Some_0;
        if self.table.model().in_state(i, SlotState::InFlightWaiting) && slot.generation
            == work.generation {
            let peer = if op.takes_name(answer.error) {
                peer_named(self.order, bytes_of(answer.name))
            } else {
                None
            };
            self.ends_with(after, i, op.outcome_after(work.bytes, answer.error), peer, step)
        } else {
            *after == *self && step is Ignored
        }
    }

    /// Goes on with the system's answer.
    pub fn answer_completion(&mut self, work: CompletionWork, answer: CompletionAnswer) -> (step:
        CompletionStep)
        requires
            old(self).wf(),
            answer.error matches Some(code) ==> code > i32::MIN,
        ensures
            final(self).wf(),
            old(self).completion_answered(final(self), work, answer, &step),
    {
        let i: usize = work.user_data;
        match self.table.ops.state(i) {
            Some(SlotState::InFlightWaiting) => {},
            _ => {
                return CompletionStep::Ignored;
            },
        }
        if self.table.ops.slots[i].generation != work.generation {
            return CompletionStep::Ignored;
        }
        let op: IocpOp = match self.table.ops.slots[i].op {
            Some(op) => op,
            None => {
                return CompletionStep::Ignored;
            },
        };
        let name = parse_name(self.order, &answer.name);
        let (res, peer): (Result<usize, Option<i32>>, Option<SocketAddr>) = match op {
            IocpOp::Connect { .. } => match answer.error {
                Some(code) => (Err(Some(code)), None),
                None => (Ok(work.bytes), None),
            },
            IocpOp::Accept { accept_socket, .. } => match answer.error {
                Some(_) => (Err(None), None),
                None => (Ok(accept_socket), name),
            },
            IocpOp::UdpRecvStream { .. } => (Ok(work.bytes), name),
            _ => (Ok(work.bytes), None),
        };
        self.end_with(i, res, peer)
    }
}

} // verus!
