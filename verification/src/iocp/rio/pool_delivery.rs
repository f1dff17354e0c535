//! How datagrams of a receive pool reach operations.
use vstd::prelude::*;
use crate::iocp::error::RioError;
use crate::iocp::net::to_socket_addr_in;
use crate::iocp::op::IocpOp;
use crate::iocp::table::{Delivery, OpTable, TableModel};
use crate::slots::SlotState;
use crate::sockaddr::{decoded, decoded_is_unique, ByteOrder, SocketAddr, SocketAddrV4};
use super::contexts::RequestContexts;
use super::kernel::RioResult;
use super::keys::{ActorKey, SlotKey};
use super::pool::{
    PoolModel, RioFailure, UdpPoolManager, UdpPoolPacket, UdpPoolState, UdpWaiter, UdpWaiterKind,
    UDP_RECV_POOL_QUEUE_CAP, UDP_RECV_POOL_SLAB_CHUNKS,
};
use super::pool_slots::UdpRecvPoolSlot;
use super::pool_steps::{dropping_first_chunk, no_room, runs_by_itself, PoolStep, PoolTask, Stage};

verus! {

/// How many bytes of a datagram go into a buffer that is filled from `buf_offset` on.
pub open spec fn copied_len(buf_len: usize, buf_offset: usize, data_len: usize) -> int {
    let room = if buf_offset < buf_len {
        buf_len - buf_offset
    } else {
        0
    };
    if data_len < room {
        data_len as int
    } else {
        room
    }
}

/// Where in a buffer a datagram goes.
pub open spec fn copy_start(buf_len: usize, buf_offset: usize) -> usize {
    if buf_offset < buf_len {
        buf_offset
    } else {
        buf_len
    }
}

/// Copies a datagram into a buffer, from `buf_offset` on, as far as it fits, and gives
/// the number of bytes copied. The rest of the buffer stays as it is.
pub fn copy_data_to_recv_op(buf: &mut Vec<u8>, buf_offset: usize, src: &[u8]) -> (copied: usize)
    ensures
        copied == copied_len(old(buf).len(), buf_offset, src.len()),
        final(buf)@.len() == old(buf)@.len(),
        forall|i: int|
            0 <= i < final(buf)@.len() ==> (#[trigger] final(buf)@[i]) == (if buf_offset <= i
                < buf_offset + copied {
                src@[i - buf_offset]
            } else {
                old(buf)@[i]
            }),
{
    let start: usize = if buf_offset < buf.len() {
        buf_offset
    } else {
        buf.len()
    };
    let dst_len: usize = buf.len() - start;
    let copied: usize = if src.len() < dst_len {
        src.len()
    } else {
        dst_len
    };
    let mut i: usize = 0;
    while i < copied
        invariant
            i <= copied,
            buf@.len() == old(buf)@.len(),
            copied > 0 ==> start == buf_offset,
            start + copied <= buf.len(),
            copied <= src@.len(),
            forall|j: int|
                0 <= j < buf@.len() ==> (#[trigger] buf@[j]) == (if start <= j < start + i {
                    src@[j - start]
                } else {
                    old(buf)@[j]
                }),
        decreases copied - i,
    {
        buf.set(start + i, src[i]);
        i = i + 1;
    }
    copied
}

/// The address of a datagram's sender, as the kernel wrote it. One that cannot be read
/// counts as 0.0.0.0:0.
pub open spec fn rio_address(order: ByteOrder, name: Seq<u8>) -> SocketAddr {
    match decoded(order, crate::iocp::net::AF_INET6, name) {
        Ok(addr) => addr,
        Err(_) => SocketAddr::V4(SocketAddrV4 { ip: [0u8, 0u8, 0u8, 0u8], port: 0 }),
    }
}

/// Reads the address of a datagram's sender.
pub fn parse_rio_address(order: ByteOrder, name: &[u8]) -> (addr: SocketAddr)
    ensures
        addr == rio_address(order, name@),
{
    let r = to_socket_addr_in(order, name);
    proof {
        decoded_is_unique(order, crate::iocp::net::AF_INET6, name@, r);
    }
    match r {
        Ok(addr) => addr,
        Err(_) => SocketAddr::V4(SocketAddrV4 { ip: [0u8, 0u8, 0u8, 0u8], port: 0 }),
    }
}

/// A count as an event result.
pub open spec fn count_res(n: int) -> i32 {
    if n > i32::MAX {
        i32::MAX
    } else {
        n as i32
    }
}

fn count_to_res(n: usize) -> (r: i32)
    ensures
        r == count_res(n as int),
{
    if n > 0x7fff_ffff {
        i32::MAX
    } else {
        n as i32
    }
}

impl<P> TableModel<P> {
    /// The operation that waits as `w` is still there and takes a datagram.
    pub open spec fn awaits(self, w: UdpWaiter) -> bool {
        let i = w.user_data as int;
        &&& self.in_state(i, SlotState::InFlightWaiting)
        &&& self.slots[i].platform.generation == w.generation
        &&& match w.kind {
            UdpWaiterKind::Stream => self.slots[i].op matches Some(op) && op is UdpRecvStream,
            UdpWaiterKind::Recv => self.slots[i].op matches Some(op) && op is UdpRecv,
        }
    }

    /// The operation that waits as `w` has ended with the datagram `d`.
    pub open spec fn delivered(self, w: UdpWaiter, d: UdpPoolPacket) -> TableModel<P> {
        let i = w.user_data as int;
        match w.kind {
            UdpWaiterKind::Stream => self.delivering(
                Delivery::Hand {
                    user_data: w.user_data,
                    generation: w.generation,
                    chunk: d.chunk,
                    len: d.len,
                    peer: d.peer,
                },
            ).ended(i, w.generation, count_res(d.len as int), Some(d.peer)),
            UdpWaiterKind::Recv => {
                let op = self.slots[i].op->Some_0;
                let copied = copied_len(op->UdpRecv_buf.len, op->UdpRecv_buf_offset, d.len);
                self.delivering(
                    Delivery::Copy {
                        user_data: w.user_data,
                        generation: w.generation,
                        chunk: d.chunk,
                        start: copy_start(op->UdpRecv_buf.len, op->UdpRecv_buf_offset),
                        copied: copied as usize,
                    },
                ).ended(i, w.generation, count_res(copied), None)
            },
        }
    }
}

/// Delivers a datagram to an operation that waits, if that is still there.
pub fn deliver_to_waiter<P>(table: &mut OpTable<P>, w: UdpWaiter, d: UdpPoolPacket) -> (delivered:
    bool)
    requires
        old(table).wf(),
    ensures
        final(table).wf(),
        delivered == old(table).model().awaits(w),
        final(table).model() == (if delivered {
            old(table).model().delivered(w, d)
        } else {
            old(table).model()
        }),
{
    let i: usize = w.user_data;
    match table.ops.state(i) {
        Some(SlotState::InFlightWaiting) => {},
        _ => {
            return false;
        },
    }
    if table.ops.slots[i].platform.generation != w.generation {
        return false;
    }
    match (w.kind, table.ops.slots[i].op) {
        (UdpWaiterKind::Stream, Some(IocpOp::UdpRecvStream { .. })) => {
            table.deliveries.push(
                Delivery::Hand {
                    user_data: i,
                    generation: w.generation,
                    chunk: d.chunk,
                    len: d.len,
                    peer: d.peer,
                },
            );
            table.end_op(i, w.generation, count_to_res(d.len), Some(d.peer));
            true
        },
        (UdpWaiterKind::Recv, Some(IocpOp::UdpRecv { buf, buf_offset, .. })) => {
            let start: usize = if buf_offset < buf.len {
                buf_offset
            } else {
                buf.len
            };
            let room: usize = buf.len - start;
            let copied: usize = if d.len < room {
                d.len
            } else {
                room
            };
            table.deliveries.push(
                Delivery::Copy {
                    user_data: i,
                    generation: w.generation,
                    chunk: d.chunk,
                    start,
                    copied,
                },
            );
            table.end_op(i, w.generation, count_to_res(copied), None);
            true
        },
        _ => false,
    }
}

/// Waiting operations, waiting datagrams and the operations under way.
#[verifier::ext_equal]
pub struct DispatchModel<P> {
    pub waiters: Seq<UdpWaiter>,
    pub queue: Seq<UdpPoolPacket>,
    pub table: TableModel<P>,
}

impl<P> DispatchModel<P> {
    /// Datagrams go to operations in order, the oldest to the one that has waited
    /// longest. An operation that is gone is passed over.
    pub open spec fn dispatched(self) -> DispatchModel<P>
        decreases self.waiters.len(),
    {
        if self.waiters.len() == 0 || self.queue.len() == 0 {
            self
        } else if self.table.awaits(self.waiters[0]) {
            DispatchModel {
                waiters: self.waiters.drop_first(),
                queue: self.queue.drop_first(),
                table: self.table.delivered(self.waiters[0], self.queue[0]),
            }.dispatched()
        } else {
            DispatchModel { waiters: self.waiters.drop_first(), ..self }.dispatched()
        }
    }
}

/// What a completion means for the pool.
#[derive(Debug, Clone, Copy, PartialEq, Eq, Structural)]
pub enum PoolCompletionEvent {
    SlotMissing,
    DrainingAck,
    ReceivedNoDatagram,
    DatagramQueued { resubmit: bool },
}

/// A completion brought a datagram.
pub open spec fn brings_datagram(res: RioResult) -> bool {
    res.status == 0 && res.bytes_transferred > 0
}

impl PoolModel {
    /// The pool with the request of a slot ended.
    pub open spec fn request_ended(self, key: SlotKey) -> PoolModel {
        self.with_slot(
            key,
            UdpRecvPoolSlot { in_flight: false, stop_requested: false, ..self.slots[key] },
        )
    }

    /// The pool with room in the queue: when it is full, the oldest datagram is
    /// dropped, and its chunk is free.
    pub open spec fn with_room(self) -> PoolModel {
        if self.queue.len() >= UDP_RECV_POOL_QUEUE_CAP {
            PoolModel {
                queue: self.queue.drop_first(),
                ..self.with_free(self.free().push(self.queue[0].chunk))
            }
        } else {
            self
        }
    }

    /// What a completion does to the pool: the request of the slot has ended. A
    /// running pool puts a datagram into the queue, and the slot gets another chunk;
    /// without a free chunk the datagram is lost.
    pub open spec fn updated(self, key: SlotKey, res: RioResult, peer: SocketAddr) -> (
        PoolModel,
        PoolCompletionEvent,
    ) {
        let stopping = self.slots[key].stop_requested;
        let m = self.request_ended(key);
        if !self.slots.contains_key(key) {
            (self, PoolCompletionEvent::SlotMissing)
        } else if !(self.state is Running) {
            (m, PoolCompletionEvent::DrainingAck)
        } else if !brings_datagram(res) {
            (m, PoolCompletionEvent::ReceivedNoDatagram)
        } else if m.with_room().free().len() == 0 {
            (m.with_room(), PoolCompletionEvent::ReceivedNoDatagram)
        } else {
            let r = m.with_room();
            (
                PoolModel {
                    slots: r.slots.insert(
                        key,
                        UdpRecvPoolSlot { current_idx: r.free()[0], ..r.slots[key] },
                    ),
                    queue: r.queue.push(
                        UdpPoolPacket {
                            chunk: r.slots[key].current_idx,
                            len: res.bytes_transferred as usize,
                            peer,
                        },
                    ),
                    ..r.with_free(r.free().drop_first())
                },
                PoolCompletionEvent::DatagramQueued {
                    resubmit: !stopping && self.slots.len() <= self.target_credits,
                },
            )
        }
    }
}

/// What follows from a completion, the first piece of work last.
pub open spec fn planned(event: PoolCompletionEvent, key: SlotKey) -> Seq<Stage> {
    match event {
        PoolCompletionEvent::DatagramQueued { resubmit } => if resubmit {
            seq![Stage::Rebalance, Stage::Dispatch, Stage::Resubmit { key }]
        } else {
            seq![Stage::Rebalance, Stage::Dispatch]
        },
        PoolCompletionEvent::ReceivedNoDatagram => seq![Stage::Rebalance, Stage::Dispatch],
        _ => Seq::<Stage>::empty(),
    }
}

/// What follows from a completion.
pub fn plan_actions(event: PoolCompletionEvent, key: SlotKey) -> (todo: Vec<Stage>)
    ensures
        todo@ == planned(event, key),
{
    let mut todo: Vec<Stage> = Vec::new();
    match event {
        PoolCompletionEvent::DatagramQueued { resubmit } => {
            todo.push(Stage::Rebalance);
            todo.push(Stage::Dispatch);
            if resubmit {
                todo.push(Stage::Resubmit { key });
            }
        },
        PoolCompletionEvent::ReceivedNoDatagram => {
            todo.push(Stage::Rebalance);
            todo.push(Stage::Dispatch);
        },
        _ => {},
    }
    assert(todo@ =~= planned(event, key));
    todo
}

/// What passing a datagram on directly comes to.
#[derive(Debug, Clone, Copy, PartialEq, Eq)]
pub enum FastDelivery {
    /// The operation has it; `resubmit` says whether the slot makes another request.
    Delivered { resubmit: bool },
    /// The operation is gone, or there is no other chunk for the slot.
    NotDelivered,
    Failed(RioFailure),
}

impl PoolModel {
    /// What passing a datagram on directly to the operation `w`, which was first in
    /// line, does. The slot gets another chunk and the operation gets the one with the
    /// datagram. Where it cannot be done, the operation is first in line again. When
    /// an operation of the stream kind is gone, the slot gets its chunk back.
    pub open spec fn fast_delivered<P>(
        self,
        table: TableModel<P>,
        w: UdpWaiter,
        key: SlotKey,
        res: RioResult,
        peer: SocketAddr,
    ) -> (PoolModel, TableModel<P>, FastDelivery) {
        let slot = self.slots[key];
        let len = res.bytes_transferred as usize;
        let back = PoolModel { waiters: seq![w] + self.waiters, ..self };
        let d = UdpPoolPacket { chunk: slot.current_idx, len, peer };
        let free = self.free().drop_first();
        let moved = UdpRecvPoolSlot { current_idx: self.free()[0], ..slot };
        if len > self.slab->Some_0.chunk_size {
            (
                back,
                table,
                FastDelivery::Failed(RioFailure { error: RioError::Internal, code: None }),
            )
        } else if self.free().len() == 0 {
            (back, table, FastDelivery::NotDelivered)
        } else if table.awaits(w) {
            (
                self.with_free(free).with_slot(
                    key,
                    UdpRecvPoolSlot { in_flight: false, stop_requested: false, ..moved },
                ),
                table.delivered(w, d),
                FastDelivery::Delivered {
                    resubmit: !slot.stop_requested && self.slots.len() <= self.target_credits,
                },
            )
        } else {
            match w.kind {
                UdpWaiterKind::Recv => (
                    back.with_free(free).with_slot(key, moved),
                    table,
                    FastDelivery::NotDelivered,
                ),
                UdpWaiterKind::Stream => (
                    back.with_slot(key, UdpRecvPoolSlot { in_flight: false, ..slot }),
                    table,
                    FastDelivery::NotDelivered,
                ),
            }
        }
    }

    /// The pool without the token of a request that has ended.
    pub open spec fn acknowledged(self, token: u32) -> PoolModel {
        PoolModel { tokens: self.tokens.remove(token), ..self }
    }

    /// What the completion of the request `token` leads to. A datagram goes directly
    /// to the operation that is first in line, if there is one; otherwise, and when
    /// that fails, the way through the queue is taken.
    pub open spec fn completed<P>(
        self,
        table: TableModel<P>,
        token: u32,
        res: RioResult,
        peer: SocketAddr,
    ) -> (PoolModel, TableModel<P>, Result<Seq<Stage>, RioFailure>) {
        let key = self.tokens[token];
        let m = self.acknowledged(token);
        if brings_datagram(res) && m.waiters.len() > 0 {
            let w = m.waiters[0];
            let (m1, t1, outcome) = PoolModel {
                waiters: m.waiters.drop_first(),
                ..m
            }.fast_delivered(table, w, key, res, peer);
            match outcome {
                FastDelivery::Delivered { resubmit } => (
                    m1,
                    t1,
                    Ok(
                        if resubmit {
                            seq![Stage::Resubmit { key }]
                        } else {
                            Seq::<Stage>::empty()
                        },
                    ),
                ),
                FastDelivery::Failed(failure) => (m1, t1, Err(failure)),
                FastDelivery::NotDelivered => {
                    let (m2, event) = m1.updated(key, res, peer);
                    (m2, t1, Ok(planned(event, key)))
                },
            }
        } else {
            let (m2, event) = m.updated(key, res, peer);
            (m2, table, Ok(planned(event, key)))
        }
    }
}

/// No token stands for a request of slot `key`.
pub open spec fn no_token_for(m: PoolModel, key: SlotKey) -> bool {
    forall|t: u32| #[trigger] m.tokens.contains_key(t) ==> m.tokens[t] != key
}

/// Giving a slot for which no request is under way another value, with a chunk that
/// nobody holds or its own, keeps the pool in order, and nobody holds its old chunk if
/// that was another one.
proof fn changing_slot(m: PoolModel, key: SlotKey, slot: UdpRecvPoolSlot)
    requires
        m.wf(),
        m.slots.contains_key(key),
        slot.current_idx == m.slots[key].current_idx || m.unheld(slot.current_idx),
        slot.current_idx < UDP_RECV_POOL_SLAB_CHUNKS,
        no_token_for(m, key) || slot.in_flight,
        m.state is Closed ==> !slot.in_flight,
    ensures
        m.with_slot(key, slot).wf(),
        slot.current_idx != m.slots[key].current_idx ==> m.with_slot(key, slot).unheld(
            m.slots[key].current_idx,
        ),
        m.with_slot(key, slot).slots.len() == m.slots.len(),
{
    let a = m.with_slot(key, slot);
    assert(a.free() == m.free());
    assert(a.slots.dom() =~= m.slots.dom());
    assert forall|k: SlotKey| a.slots.contains_key(k) implies m.slots.contains_key(k) by {}
}

/// Forgetting a token keeps the pool in order, and no token stands for its slot.
pub(crate) proof fn acknowledging(m: PoolModel, token: u32)
    requires
        m.wf(),
    ensures
        m.acknowledged(token).wf(),
        m.tokens.contains_key(token) ==> no_token_for(m.acknowledged(token), m.tokens[token]),
{
    let a = m.acknowledged(token);
    assert(a.free() == m.free());
    assert(a.tokens.dom() =~= m.tokens.dom().remove(token));
    assert forall|t: u32| a.tokens.contains_key(t) implies m.tokens.contains_key(t) by {}
}

/// Another order of waiting operations keeps the pool in order.
proof fn changing_waiters(m: PoolModel, waiters: Seq<UdpWaiter>)
    requires
        m.wf(),
    ensures
        (PoolModel { waiters, ..m }).wf(),
{
    assert((PoolModel { waiters, ..m }).free() == m.free());
}

/// Making room in the queue keeps the pool in order.
proof fn making_room(m: PoolModel)
    requires
        m.wf(),
        m.state is Running,
    ensures
        m.with_room().wf(),
        m.with_room().queue.len() < UDP_RECV_POOL_QUEUE_CAP,
{
    if m.queue.len() >= UDP_RECV_POOL_QUEUE_CAP {
        let c = m.queue[0].chunk;
        let f = m.free().push(c);
        let a = m.with_room();
        assert(a.free() == f);
        assert forall|d: u32| f.contains(d) implies d == c || m.free().contains(d) by {
            let i = f.index_of(d);
            if i < m.free().len() {
                assert(m.free()[i] == d);
            }
        }
        assert forall|i: int| 0 <= i < a.queue.len() implies (#[trigger] a.queue[i]) == m.queue[i
            + 1] by {}
        assert forall|i: int| 0 <= i < f.len() implies (#[trigger] f[i]) < UDP_RECV_POOL_SLAB_CHUNKS by {
            if i < m.free().len() {
                assert(m.free()[i] == f[i]);
            }
        }
        assert forall|i: int, j: int| 0 <= i < j < f.len() implies f[i] != f[j] by {
            assert(m.free().contains(m.free()[i]));
        }
    }
}

/// A datagram in a chunk that nobody holds can be put into the queue.
proof fn queueing(m: PoolModel, d: UdpPoolPacket)
    requires
        m.wf(),
        m.state is Running,
        m.unheld(d.chunk),
        d.chunk < UDP_RECV_POOL_SLAB_CHUNKS,
        m.queue.len() < UDP_RECV_POOL_QUEUE_CAP,
    ensures
        (PoolModel { queue: m.queue.push(d), ..m }).wf(),
{
    let a = PoolModel { queue: m.queue.push(d), ..m };
    assert(a.free() == m.free());
    assert forall|i: int| 0 <= i < a.queue.len() implies (#[trigger] a.queue[i]) == (if i
        < m.queue.len() {
        m.queue[i]
    } else {
        d
    }) by {}
}

/// A completion keeps the pool in order.
proof fn updating(m: PoolModel, key: SlotKey, res: RioResult, peer: SocketAddr)
    requires
        m.wf(),
        m.slots.contains_key(key),
        no_token_for(m, key),
    ensures
        m.updated(key, res, peer).0.wf(),
        m.updated(key, res, peer).1 matches PoolCompletionEvent::DatagramQueued { .. } ==> {
            &&& m.updated(key, res, peer).0.state is Running
            &&& m.updated(key, res, peer).0.slots.contains_key(key)
            &&& !m.updated(key, res, peer).0.slots[key].in_flight
        },
{
    let slot = UdpRecvPoolSlot { in_flight: false, stop_requested: false, ..m.slots[key] };
    changing_slot(m, key, slot);
    let e = m.request_ended(key);
    if m.state is Running && brings_datagram(res) {
        making_room(e);
        let r = e.with_room();
        if r.free().len() > 0 {
            dropping_first_chunk(r);
            let d = r.with_free(r.free().drop_first());
            assert(d.free() == r.free().drop_first());
            let moved = UdpRecvPoolSlot { current_idx: r.free()[0], ..r.slots[key] };
            assert(r.slots.contains_key(key));
            assert(r.free().contains(r.free()[0]));
            changing_slot(d, key, moved);
            let s = d.with_slot(key, moved);
            let p = UdpPoolPacket {
                chunk: r.slots[key].current_idx,
                len: res.bytes_transferred as usize,
                peer,
            };
            queueing(s, p);
            assert(m.updated(key, res, peer).0 == (PoolModel { queue: s.queue.push(p), ..s }));
        }
    }
}

impl UdpPoolManager {
    /// Takes note of a completion of a request from a slot.
    pub fn update_state(&mut self, key: SlotKey, res: &RioResult, peer: SocketAddr) -> (event:
        PoolCompletionEvent)
        requires
            old(self).wf(),
            no_token_for(old(self).model(), key),
        ensures
            final(self).wf(),
            (final(self).model(), event) == old(self).model().updated(key, *res, peer),
    {
        let ghost m = self.model();
        let slot = match self.pool.slots.get(key) {
            Some(slot) => slot,
            None => {
                return PoolCompletionEvent::SlotMissing;
            },
        };
        proof {
            updating(m, key, *res, peer);
        }
        let stopping: bool = slot.stop_requested;
        self.pool.slots.set(
            key,
            UdpRecvPoolSlot { in_flight: false, stop_requested: false, ..slot },
        );
        assert(self.model() == m.request_ended(key));
        if self.pool.state != UdpPoolState::Running {
            return PoolCompletionEvent::DrainingAck;
        }
        if !(res.status == 0 && res.bytes_transferred > 0) {
            return PoolCompletionEvent::ReceivedNoDatagram;
        }
        let ghost e = self.model();
        if self.mailbox.queue.len() >= UDP_RECV_POOL_QUEUE_CAP {
            if let Some(dropped) = self.mailbox.queue.pop_front() {
                if let Some(slab) = &mut self.pool.slab {
                    slab.free_indices.push_back(dropped.chunk);
                }
                assert(self.mailbox.queue@ =~= e.queue.drop_first());
            }
        }
        assert(self.model() == e.with_room());
        let ghost r = self.model();
        let resubmit: bool = !stopping && self.pool.slots.len() <= self.pool.target_credits;
        assert(e.slots.dom() =~= m.slots.dom());
        let replacement: Option<u32> = match &mut self.pool.slab {
            Some(slab) => slab.free_indices.pop_front(),
            None => None,
        };
        match replacement {
            Some(next) => {
                self.pool.slots.set(
                    key,
                    UdpRecvPoolSlot {
                        current_idx: next,
                        addr_buf_id: slot.addr_buf_id,
                        in_flight: false,
                        stop_requested: false,
                    },
                );
                self.mailbox.queue.push_back(
                    UdpPoolPacket {
                        chunk: slot.current_idx,
                        len: res.bytes_transferred as usize,
                        peer,
                    },
                );
                assert(self.model().free() =~= r.free().drop_first());
                assert(self.model() == m.updated(key, *res, peer).0);
                PoolCompletionEvent::DatagramQueued { resubmit }
            },
            None => {
                assert(self.model() == r);
                PoolCompletionEvent::ReceivedNoDatagram
            },
        }
    }

    /// Passes a datagram on directly to the operation `w`, which was first in line.
    pub fn try_fast_deliver<P>(
        &mut self,
        table: &mut OpTable<P>,
        w: UdpWaiter,
        key: SlotKey,
        res: &RioResult,
        peer: SocketAddr,
    ) -> (outcome: FastDelivery)
        requires
            old(self).wf(),
            old(table).wf(),
            old(self).model().slots.contains_key(key),
            no_token_for(old(self).model(), key),
        ensures
            final(self).wf(),
            final(table).wf(),
            (final(self).model(), final(table).model(), outcome) == old(
                self,
            ).model().fast_delivered(old(table).model(), w, key, *res, peer),
            no_token_for(final(self).model(), key),
            final(self).model().slots.contains_key(key),
            outcome matches FastDelivery::Delivered { resubmit } && resubmit ==> final(self).pool.state is Running && !final(self).model().slots[key].in_flight,
    {
        let ghost m = self.model();
        let ghost t = table.model();
        let slot = match self.pool.slots.get(key) {
            Some(slot) => slot,
            None => {
                return FastDelivery::NotDelivered;
            },
        };
        let len: usize = res.bytes_transferred as usize;
        let chunk_size: usize = match &self.pool.slab {
            Some(slab) => slab.chunk_size,
            None => 0,
        };
        proof {
            assert(m.slab is Some) by {
                if m.slab is None {
                    assert(m.slots.dom().contains(key));
                    assert(m.slots.dom() =~= Set::<SlotKey>::empty());
                }
            }
            changing_waiters(m, seq![w] + m.waiters);
        }
        if len > chunk_size {
            self.mailbox.waiters.push_front(w);
            assert(self.mailbox.waiters@ =~= seq![w] + m.waiters);
            return FastDelivery::Failed(RioFailure { error: RioError::Internal, code: None });
        }
        let next: Option<u32> = match &mut self.pool.slab {
            Some(slab) => slab.free_indices.pop_front(),
            None => None,
        };
        let next: u32 = match next {
            Some(next) => next,
            None => {
                self.mailbox.waiters.push_front(w);
                assert(self.mailbox.waiters@ =~= seq![w] + m.waiters);
                assert(self.model() == (PoolModel { waiters: seq![w] + m.waiters, ..m }));
                return FastDelivery::NotDelivered;
            },
        };
        let ghost taken = m.with_free(m.free().drop_first());
        proof {
            assert(m.free()[0] == next);
            assert(m.free().contains(next));
            assert(self.model().free() =~= m.free().drop_first());
            assert(self.model() == taken);
            dropping_first_chunk(m);
            assert(taken.free() == m.free().drop_first());
        }
        let d = UdpPoolPacket { chunk: slot.current_idx, len, peer };
        if deliver_to_waiter(table, w, d) {
            let resubmit: bool = !slot.stop_requested && self.pool.slots.len()
                <= self.pool.target_credits;
            let moved = UdpRecvPoolSlot {
                current_idx: next,
                addr_buf_id: slot.addr_buf_id,
                in_flight: false,
                stop_requested: false,
            };
            self.pool.slots.set(key, moved);
            proof {
                changing_slot(taken, key, moved);
                assert(self.model() == taken.with_slot(key, moved));
                if resubmit {
                    assert(m.slots.dom().contains(key));
                    if m.slots.len() == 0 {
                        assert(m.slots.dom() =~= Set::<SlotKey>::empty());
                    }
                }
            }
            return FastDelivery::Delivered { resubmit };
        }
        self.mailbox.waiters.push_front(w);
        assert(self.mailbox.waiters@ =~= seq![w] + m.waiters);
        match w.kind {
            UdpWaiterKind::Recv => {
                let moved = UdpRecvPoolSlot { current_idx: next, ..slot };
                self.pool.slots.set(key, moved);
                proof {
                    if moved.in_flight {
                        changing_slot(taken, key, moved);
                    } else {
                        changing_slot(taken, key, moved);
                    }
                    let s = taken.with_slot(key, moved);
                    changing_waiters(s, seq![w] + m.waiters);
                    assert(self.model() == (PoolModel { waiters: seq![w] + m.waiters, ..s }));
                    let back = PoolModel { waiters: seq![w] + m.waiters, ..m };
                    assert(back.with_free(m.free().drop_first()).with_slot(key, moved)
                        == self.model());
                }
            },
            UdpWaiterKind::Stream => {
                if let Some(slab) = &mut self.pool.slab {
                    slab.free_indices.push_front(next);
                }
                let stopped = UdpRecvPoolSlot { in_flight: false, ..slot };
                self.pool.slots.set(key, stopped);
                proof {
                    assert(self.model().free() =~= m.free());
                    changing_slot(m, key, stopped);
                    let s = m.with_slot(key, stopped);
                    changing_waiters(s, seq![w] + m.waiters);
                    assert(self.model() == (PoolModel { waiters: seq![w] + m.waiters, ..s }));
                }
            },
        }
        FastDelivery::NotDelivered
    }
}

/// Taking the oldest datagram out of the queue keeps the pool in order.
proof fn dropping_packet(m: PoolModel)
    requires
        m.wf(),
        m.queue.len() > 0,
    ensures
        (PoolModel { queue: m.queue.drop_first(), ..m }).wf(),
{
    let a = PoolModel { queue: m.queue.drop_first(), ..m };
    assert(a.free() == m.free());
    assert forall|i: int| 0 <= i < a.queue.len() implies (#[trigger] a.queue[i]) == m.queue[i + 1] by {}
}

impl PoolModel {
    /// The pool after datagrams that wait were given to operations that wait.
    pub open spec fn dispatched<P>(self, table: TableModel<P>) -> (PoolModel, TableModel<P>) {
        let d = (DispatchModel {
            waiters: self.waiters,
            queue: self.queue,
            table,
        }).dispatched();
        (PoolModel { waiters: d.waiters, queue: d.queue, ..self }, d.table)
    }

    /// What a piece of work that needs no answer leads to.
    pub open spec fn advanced<P>(
        self,
        after: PoolModel,
        before_table: TableModel<P>,
        after_table: TableModel<P>,
        before_contexts: &RequestContexts,
        after_contexts: &RequestContexts,
        actor: ActorKey,
        task: &PoolTask,
        step: PoolStep,
    ) -> bool {
        if task.todo@.len() == 0 {
            &&& after == self
            &&& after_table == before_table
            &&& after_contexts == before_contexts
            &&& step matches PoolStep::Done { task: t }
            &&& task.doing(&t, task.todo@)
        } else {
            match task.todo@.last() {
                Stage::Grow { target } => {
                    &&& after_table == before_table
                    &&& after_contexts == before_contexts
                    &&& self.grown(after, task, target, step)
                },
                Stage::Rebalance => {
                    &&& after_table == before_table
                    &&& after_contexts == before_contexts
                    &&& self.looked_at(after, task, step)
                },
                Stage::Trim => {
                    &&& after_table == before_table
                    &&& after_contexts == before_contexts
                    &&& self.trimmed(after, task, step)
                },
                Stage::RestoreCount { submissions } => {
                    &&& after == self
                    &&& after_table == before_table
                    &&& after_contexts == before_contexts
                    &&& step matches PoolStep::Next { task: t }
                    &&& t.todo@ == task.rest()
                    &&& t.submissions == submissions
                    &&& t.served == task.served
                    &&& t.released@ == task.released@
                },
                Stage::Serve { waiter } => {
                    &&& after_table == before_table
                    &&& after_contexts == before_contexts
                    &&& self.served(after, task, waiter, step)
                },
                Stage::Dispatch => {
                    &&& (after, after_table) == self.dispatched(before_table)
                    &&& after_contexts == before_contexts
                    &&& step matches PoolStep::Next { task: t }
                    &&& task.doing(&t, task.rest())
                },
                Stage::Resubmit { key } => {
                    &&& after_table == before_table
                    &&& if before_contexts.has_room() {
                        self.resubmitted(
                            after,
                            before_contexts,
                            after_contexts,
                            actor,
                            task,
                            key,
                            None,
                            step,
                        )
                    } else {
                        &&& after == self
                        &&& after_contexts == before_contexts
                        &&& step matches PoolStep::Failed { failure, task: t }
                        &&& failure == no_room()
                        &&& task.doing(&t, task.rest())
                    }
                },
                _ => false,
            }
        }
    }
}

impl UdpPoolManager {
    /// Gives datagrams that wait to operations that wait.
    pub fn dispatch_waiters<P>(&mut self, table: &mut OpTable<P>)
        requires
            old(self).wf(),
            old(table).wf(),
        ensures
            final(self).wf(),
            final(table).wf(),
            (final(self).model(), final(table).model()) == old(self).model().dispatched(
                old(table).model(),
            ),
    {
        let ghost m = self.model();
        let ghost start = DispatchModel {
            waiters: m.waiters,
            queue: m.queue,
            table: table.model(),
        };
        loop
            invariant
                self.wf(),
                table.wf(),
                self.model() == (PoolModel {
                    waiters: self.mailbox.waiters@,
                    queue: self.mailbox.queue@,
                    ..m
                }),
                (DispatchModel {
                    waiters: self.mailbox.waiters@,
                    queue: self.mailbox.queue@,
                    table: table.model(),
                }).dispatched() == start.dispatched(),
            ensures
                self.mailbox.waiters@.len() == 0 || self.mailbox.queue@.len() == 0,
            decreases self.mailbox.waiters@.len(),
        {
            let ghost here = DispatchModel {
                waiters: self.mailbox.waiters@,
                queue: self.mailbox.queue@,
                table: table.model(),
            };
            let ghost now = self.model();
            if self.mailbox.waiters.len() == 0 || self.mailbox.queue.len() == 0 {
                break;
            }
            let waiter: UdpWaiter = self.mailbox.waiters[0];
            let packet: UdpPoolPacket = self.mailbox.queue[0];
            let _ = self.mailbox.waiters.pop_front();
            proof {
                changing_waiters(now, self.mailbox.waiters@);
                assert(self.mailbox.waiters@ =~= here.waiters.drop_first());
            }
            if deliver_to_waiter(table, waiter, packet) {
                let ghost mid = self.model();
                let _ = self.mailbox.queue.pop_front();
                proof {
                    dropping_packet(mid);
                    assert(self.mailbox.queue@ =~= here.queue.drop_first());
                    assert(self.model() == (PoolModel { queue: mid.queue.drop_first(), ..mid }));
                }
            }
        }
    }

    /// Takes note of the completion of the request `token`, unless it was forgotten.
    pub fn handle_completion<P>(
        &mut self,
        table: &mut OpTable<P>,
        token: u32,
        res: &RioResult,
        peer: SocketAddr,
    ) -> (r: Option<PoolStep>)
        requires
            old(self).wf(),
            old(table).wf(),
        ensures
            final(self).wf(),
            final(table).wf(),
            !old(self).model().tokens.contains_key(token) ==> {
                &&& r is None
                &&& final(self).model() == old(self).model()
                &&& final(table).model() == old(table).model()
            },
            old(self).model().tokens.contains_key(token) ==> {
                let (m, t, todo) = old(self).model().completed(
                    old(table).model(),
                    token,
                    *res,
                    peer,
                );
                &&& final(self).model() == m
                &&& final(table).model() == t
                &&& r matches Some(step)
                &&& step.fits(m)
                &&& match todo {
                    Ok(todo) => step matches PoolStep::Next { task } && task.todo@ == todo
                        && task.untouched(),
                    Err(e) => step matches PoolStep::Failed { failure, task } && failure == e
                        && task.untouched(),
                }
            },
    {
        let ghost m0 = self.model();
        let ghost t0 = table.model();
        let key = match self.registry.ack_pool_done(token) {
            Some(key) => key,
            None => {
                assert(self.registry.map@ =~= m0.tokens);
                return None;
            },
        };
        let ghost m = self.model();
        proof {
            assert(m == m0.acknowledged(token));
            acknowledging(m0, token);
            assert(m0.slots.contains_key(key));
        }
        let mut task = PoolTask::empty();
        if res.status == 0 && res.bytes_transferred > 0 {
            if self.mailbox.waiters.len() > 0 {
                let waiter: UdpWaiter = self.mailbox.waiters[0];
                let _ = self.mailbox.waiters.pop_front();
                proof {
                    assert(self.mailbox.waiters@ =~= m.waiters.drop_first());
                    changing_waiters(m, m.waiters.drop_first());
                }
                match self.try_fast_deliver(table, waiter, key, res, peer) {
                    FastDelivery::Delivered { resubmit } => {
                        if resubmit {
                            task.todo.push(Stage::Resubmit { key });
                            assert(task.todo@ =~= seq![Stage::Resubmit { key }]);
                        }
                        return Some(PoolStep::Next { task });
                    },
                    FastDelivery::Failed(failure) => {
                        return Some(PoolStep::Failed { failure, task });
                    },
                    FastDelivery::NotDelivered => {},
                }
            }
        }
        let ghost m1 = self.model();
        let event = self.update_state(key, res, peer);
        proof {
            updating(m1, key, *res, peer);
        }
        task.todo = plan_actions(event, key);
        Some(PoolStep::Next { task })
    }

    /// Goes on with the next piece of work.
    pub fn advance<P>(
        &mut self,
        mut task: PoolTask,
        actor: ActorKey,
        contexts: &mut RequestContexts,
        table: &mut OpTable<P>,
    ) -> (step: PoolStep)
        requires
            old(self).wf(),
            old(table).wf(),
            old(contexts).wf(),
            task.fits(old(self).model()),
            task.todo@.len() > 0 ==> runs_by_itself(task.todo@.last()),
        ensures
            final(self).wf(),
            final(table).wf(),
            final(contexts).wf(),
            step.fits(final(self).model()),
            old(self).model().advanced(
                final(self).model(),
                old(table).model(),
                final(table).model(),
                old(contexts),
                final(contexts),
                actor,
                &task,
                step,
            ),
    {
        let n: usize = task.todo.len();
        if n == 0 {
            return PoolStep::Done { task };
        }
        match task.todo[n - 1] {
            Stage::Grow { target } => self.grow(task, target),
            Stage::Rebalance => self.rebalance(task),
            Stage::Trim => self.trim_tail(task),
            Stage::Serve { waiter } => self.serve(task, waiter),
            Stage::RestoreCount { submissions } => {
                let _ = task.todo.pop();
                task.submissions = submissions;
                PoolStep::Next { task }
            },
            Stage::Dispatch => {
                let _ = task.todo.pop();
                self.dispatch_waiters(table);
                PoolStep::Next { task }
            },
            Stage::Resubmit { key } => {
                let _ = task.todo.pop();
                if !contexts.can_open() {
                    return PoolStep::Failed {
                        failure: RioFailure { error: RioError::ResourceExhaustion, code: None },
                        task,
                    };
                }
                self.submit_slot(task, key, None, actor, contexts)
            },
            _ => PoolStep::Next { task },
        }
    }

    /// Takes an operation out of the line, and looks at the demand again.
    pub fn cancel_waiter(&mut self, user_data: usize, generation: u32) -> (step: PoolStep)
        requires
            old(self).wf(),
        ensures
            final(self).wf(),
            final(self).model() == (PoolModel {
                waiters: without_waiter(old(self).model().waiters, user_data, generation),
                ..old(self).model()
            }),
            step.fits(final(self).model()),
            step matches PoolStep::Next { task } && task.rebalances(),
    {
        let ghost m = self.model();
        let mut kept: std::collections::VecDeque<UdpWaiter> = std::collections::VecDeque::new();
        let mut i: usize = 0;
        assert(m.waiters.take(0) =~= Seq::<UdpWaiter>::empty());
        while i < self.mailbox.waiters.len()
            invariant
                i <= self.mailbox.waiters@.len(),
                self.mailbox.waiters@ == m.waiters,
                kept@ == without_waiter(m.waiters.take(i as int), user_data, generation),
            decreases self.mailbox.waiters@.len() - i,
        {
            let w: UdpWaiter = self.mailbox.waiters[i];
            assert(m.waiters.take(i + 1).drop_last() =~= m.waiters.take(i as int));
            assert(m.waiters.take(i + 1).last() == w);
            if !(w.user_data == user_data && w.generation == generation) {
                kept.push_back(w);
            }
            i = i + 1;
        }
        assert(m.waiters.take(i as int) =~= m.waiters);
        std::mem::swap(&mut self.mailbox.waiters, &mut kept);
        proof {
            changing_waiters(m, self.mailbox.waiters@);
        }
        let mut task = PoolTask::empty();
        task.todo.push(Stage::Rebalance);
        assert(task.todo@ =~= seq![Stage::Rebalance]);
        PoolStep::Next { task }
    }
}

/// The line without one operation; the others keep their order.
pub open spec fn without_waiter(
    waiters: Seq<UdpWaiter>,
    user_data: usize,
    generation: u32,
) -> Seq<UdpWaiter>
    decreases waiters.len(),
{
    if waiters.len() == 0 {
        waiters
    } else {
        let front = without_waiter(waiters.drop_last(), user_data, generation);
        let w = waiters.last();
        if w.user_data == user_data && w.generation == generation {
            front
        } else {
            front.push(w)
        }
    }
}

} // verus!
