//! What holds of calls of the driver, whatever state it is in.
use vstd::prelude::*;
use crate::slots::SlotState;
use crate::sockaddr::SocketAddr;
use super::buffer::MemoryRange;
use super::config::IocpHandle;
use super::driver::IocpDriver;
use super::op::IocpOp;
use super::rio::kernel::{RioBufferId, RioResult, RioRq};
use super::rio::keys::SlotKey;
use super::rio::laws::{covers_the_filled_part, covers_the_room, ranges_cover_what_is_transferred};
use super::rio::pool::{Answer, UdpPoolManager, UdpWaiter};
use super::rio::pool_delivery::FastDelivery;
use super::rio::pool_laws::{
    chunk_of, datagrams_come_from_the_chunk_of_their_request, goes_to, receives_into, suits,
};
use super::rio::pool_steps::PoolStep;
use super::rio::state::RioState;
use super::rio::submit::{RioRequest, RioStage, RioStep, RioWork};
use super::submission::SubmitStep;
use super::submit::{OpStep, SubmitAsk, SubmitHead, SubmitStage, SubmitWork};
use super::submit_laws::{
    asks_after_answers_follow_the_operation, files_are_read_and_written, is_number, reaches_up_to,
    takes_part,
};
use super::table::OpTable;

verus! {

/// Once its file is associated, an operation that writes has `WriteFile` asked for, and one
/// that reads `ReadFile`: on the handle that was looked up, at its place in the file, with the
/// part of its buffer from the offset up to the end of what is filled.
pub proof fn answered_submissions_read_and_write<P>(
    work: SubmitWork,
    h: IocpHandle,
    answer: Answer,
    now: u64,
)
    requires
        work.stage == (SubmitStage::FileAssociated { handle: h }),
        takes_part(answer),
    ensures
        forall|d: &mut IocpDriver<P>, step: SubmitStep| #[trigger]
            call_ensures(IocpDriver::<P>::answer_submit, (d, work, answer, now), step) ==> {
                &&& work.head.op matches IocpOp::WriteFixed { buf, buf_offset, offset, .. } ==> {
                    &&& step matches SubmitStep::Ask { ask, work: w }
                    &&& w.head == work.head
                    &&& ask matches SubmitAsk::WriteFile { handle, ptr, start, len, offset: o }
                    &&& is_number(h, handle)
                    &&& ptr == buf.ptr && start == buf_offset && o == offset
                    &&& reaches_up_to(start, len, buf.len)
                }
                &&& work.head.op matches IocpOp::ReadFixed { buf, buf_offset, offset, .. } ==> {
                    &&& step matches SubmitStep::Ask { ask, work: w }
                    &&& w.head == work.head
                    &&& ask matches SubmitAsk::ReadFile { handle, ptr, start, len, offset: o }
                    &&& is_number(h, handle)
                    &&& ptr == buf.ptr && start == buf_offset && o == offset
                    &&& reaches_up_to(start, len, buf.len)
                }
            },
{
    let stage = SubmitStage::FileAssociated { handle: h };
    assert forall|d: &mut IocpDriver<P>, step: SubmitStep| #[trigger]
        call_ensures(IocpDriver::<P>::answer_submit, (d, work, answer, now), step) implies {
        &&& work.head.op matches IocpOp::WriteFixed { buf, buf_offset, offset, .. } ==> {
            &&& step matches SubmitStep::Ask { ask, work: w }
            &&& w.head == work.head
            &&& ask matches SubmitAsk::WriteFile { handle, ptr, start, len, offset: o }
            &&& is_number(h, handle)
            &&& ptr == buf.ptr && start == buf_offset && o == offset
            &&& reaches_up_to(start, len, buf.len)
        }
        &&& work.head.op matches IocpOp::ReadFixed { buf, buf_offset, offset, .. } ==> {
            &&& step matches SubmitStep::Ask { ask, work: w }
            &&& w.head == work.head
            &&& ask matches SubmitAsk::ReadFile { handle, ptr, start, len, offset: o }
            &&& is_number(h, handle)
            &&& ptr == buf.ptr && start == buf_offset && o == offset
            &&& reaches_up_to(start, len, buf.len)
        }
    } by {
        let (mid, op_step) = choose|mid: IocpDriver<P>, op_step: OpStep| #[trigger]
            (*d).op_answered(&mid, work.head, &work.stage, answer, now, &op_step) && mid.settled(
                &*final(d),
                work.head,
                work.released@,
                op_step,
                &step,
            );
        files_are_read_and_written(
            *d,
            mid,
            *final(d),
            work.head,
            h,
            answer,
            now,
            op_step,
            work.released@,
            step,
        );
    }
}

/// What is asked of the system after an answer follows the kind of the operation: files are
/// read for reads alone and written for writes alone.
pub proof fn answered_submissions_keep_their_direction<P>(
    head: SubmitHead,
    stage: SubmitStage,
    answer: Answer,
    now: u64,
    released: Vec<RioBufferId>,
    work: SubmitWork,
)
    requires
        work == (SubmitWork { head, stage, released }),
        !(stage is Notified) && !(stage is Offloaded) && !(stage is TimerStarted),
    ensures
        forall|d: &mut IocpDriver<P>, step: SubmitStep| #[trigger]
            call_ensures(IocpDriver::<P>::answer_submit, (d, work, answer, now), step)
                && stage.suits(head, &*d) ==> (step matches SubmitStep::Ask { ask, .. } ==> {
                &&& ask is ReadFile ==> head.op is ReadFixed
                &&& ask is WriteFile ==> head.op is WriteFixed
                &&& ask is ConnectEx || ask is SocketName ==> head.op is Connect
                &&& ask is AcceptEx ==> head.op is Accept
            }),
{
    assert forall|d: &mut IocpDriver<P>, step: SubmitStep| #[trigger]
        call_ensures(IocpDriver::<P>::answer_submit, (d, work, answer, now), step) && stage.suits(
            head,
            &*d,
        ) implies (step matches SubmitStep::Ask { ask, .. } ==> {
        &&& ask is ReadFile ==> head.op is ReadFixed
        &&& ask is WriteFile ==> head.op is WriteFixed
        &&& ask is ConnectEx || ask is SocketName ==> head.op is Connect
        &&& ask is AcceptEx ==> head.op is Accept
    }) by {
        let (mid, op_step) = choose|mid: IocpDriver<P>, op_step: OpStep| #[trigger]
            (*d).op_answered(&mid, work.head, &work.stage, answer, now, &op_step) && mid.settled(
                &*final(d),
                work.head,
                work.released@,
                op_step,
                &step,
            );
        asks_after_answers_follow_the_operation(*d, mid, head, stage, answer, now, op_step);
    }
}

/// A request of registered I/O whose buffer is registered covers exactly what is to be
/// transferred: what is filled of the buffer from the offset on when it sends, and what there
/// is room for when it receives.
pub proof fn advanced_requests_cover_what_is_transferred<P>(
    work: RioWork,
    rq: RioRq,
    id: RioBufferId,
    now: u64,
)
    requires
        work.stage == (RioStage::WithData { rq, id }),
        !(work.request is Pool),
    ensures
        forall|s: &mut RioState, table: &mut OpTable<P>, step: RioStep| #[trigger]
            call_ensures(RioState::advance::<P>, (s, work, table, now), step) ==> {
                &&& work.request is Send || work.request is Recv ==> step is Next
                &&& step matches RioStep::Next { work: w } ==> {
                    &&& w.target == work.target && w.request == work.request
                    &&& w.stage matches RioStage::Ready { rq: q, data, addr }
                    &&& q == rq && data.buffer_id == id
                    &&& addr is Some <==> work.request is SendTo
                    &&& work.request matches RioRequest::Send { transfer }
                        ==> covers_the_filled_part(transfer, data)
                    &&& work.request matches RioRequest::SendTo { transfer, .. }
                        ==> covers_the_filled_part(transfer, data)
                    &&& work.request matches RioRequest::Recv { transfer } ==> covers_the_room(
                        transfer,
                        data,
                    )
                }
            },
{
    assert forall|s: &mut RioState, table: &mut OpTable<P>, step: RioStep| #[trigger]
        call_ensures(RioState::advance::<P>, (s, work, table, now), step) implies {
        &&& work.request is Send || work.request is Recv ==> step is Next
        &&& step matches RioStep::Next { work: w } ==> {
            &&& w.target == work.target && w.request == work.request
            &&& w.stage matches RioStage::Ready { rq: q, data, addr }
            &&& q == rq && data.buffer_id == id
            &&& addr is Some <==> work.request is SendTo
            &&& work.request matches RioRequest::Send { transfer } ==> covers_the_filled_part(
                transfer,
                data,
            )
            &&& work.request matches RioRequest::SendTo { transfer, .. } ==> covers_the_filled_part(
                transfer,
                data,
            )
            &&& work.request matches RioRequest::Recv { transfer } ==> covers_the_room(
                transfer,
                data,
            )
        }
    } by {
        ranges_cover_what_is_transferred(
            *s,
            *final(s),
            (*table).model(),
            (*final(table)).model(),
            work,
            rq,
            id,
            now,
            step,
        );
    }
}

/// A datagram that is passed on directly is passed on from the chunk that it came into: the
/// one that its slot received into when the request was made.
pub proof fn directly_delivered_datagrams_come_from_their_chunk<P>(
    w: UdpWaiter,
    key: SlotKey,
    res: &RioResult,
    peer: SocketAddr,
)
    ensures
        forall|pool: &mut UdpPoolManager, table: &mut OpTable<P>, outcome: FastDelivery| #[trigger]
            call_ensures(
                UdpPoolManager::try_fast_deliver::<P>,
                (pool, table, w, key, res, peer),
                outcome,
            ) ==> {
                let before = (*table).model().deliveries;
                let after = (*final(table)).model().deliveries;
                &&& outcome is Delivered <==> after.len() == before.len() + 1
                &&& !(outcome is Delivered) ==> after == before
                &&& outcome is Delivered ==> {
                    &&& goes_to(after.last(), w.user_data, w.generation)
                    &&& chunk_of(after.last()) == (*pool).model().slots[key].current_idx
                    &&& after.drop_last() == before
                    &&& (*pool).model().free().contains(
                        (*final(pool)).model().slots[key].current_idx,
                    )
                }
            },
{
    assert forall|
        pool: &mut UdpPoolManager,
        table: &mut OpTable<P>,
        outcome: FastDelivery,
    | #[trigger]
        call_ensures(
            UdpPoolManager::try_fast_deliver::<P>,
            (pool, table, w, key, res, peer),
            outcome,
        ) implies {
        let before = (*table).model().deliveries;
        let after = (*final(table)).model().deliveries;
        &&& outcome is Delivered <==> after.len() == before.len() + 1
        &&& !(outcome is Delivered) ==> after == before
        &&& outcome is Delivered ==> {
            &&& goes_to(after.last(), w.user_data, w.generation)
            &&& chunk_of(after.last()) == (*pool).model().slots[key].current_idx
            &&& after.drop_last() == before
            &&& (*pool).model().free().contains((*final(pool)).model().slots[key].current_idx)
        }
    } by {
        let m = (*pool).model();
        let before = (*table).model().deliveries;
        let after = (*final(table)).model().deliveries;
        if outcome is Delivered {
            assert((*final(pool)).model().slots[key].current_idx == m.free()[0]);
            assert(after.drop_last() =~= before);
        }
    }
}

/// When a request that was made into chunk `c` brings a datagram, whatever is delivered on
/// that account is delivered from chunk `c`, to the operation that is first in line.
pub proof fn completed_requests_deliver_from_their_chunk<P>(
    token: u32,
    c: u32,
    res: &RioResult,
    peer: SocketAddr,
)
    requires
        res.status == 0,
        res.bytes_transferred > 0,
    ensures
        forall|pool: &mut UdpPoolManager, table: &mut OpTable<P>, r: Option<PoolStep>| #[trigger]
            call_ensures(
                UdpPoolManager::handle_completion::<P>,
                (pool, table, token, res, peer),
                r,
            ) && (*pool).wf() && (*table).wf() && receives_into((*pool).model(), token, c) ==> {
                let m = (*pool).model();
                let before = (*table).model();
                let after = (*final(table)).model();
                ||| after.deliveries == before.deliveries
                ||| {
                    &&& after.deliveries.len() == before.deliveries.len() + 1
                    &&& m.waiters.len() > 0
                    &&& suits(
                        before,
                        m.waiters[0],
                        after.deliveries.last(),
                        c,
                        res.bytes_transferred as int,
                        peer,
                    )
                    &&& (*final(pool)).model().slots[m.tokens[token]].current_idx != c
                }
            },
{
    assert forall|pool: &mut UdpPoolManager, table: &mut OpTable<P>, r: Option<PoolStep>| #[trigger]
        call_ensures(
            UdpPoolManager::handle_completion::<P>,
            (pool, table, token, res, peer),
            r,
        ) && (*pool).wf() && (*table).wf() && receives_into((*pool).model(), token, c) implies {
        let m = (*pool).model();
        let before = (*table).model();
        let after = (*final(table)).model();
        ||| after.deliveries == before.deliveries
        ||| {
            &&& after.deliveries.len() == before.deliveries.len() + 1
            &&& m.waiters.len() > 0
            &&& suits(
                before,
                m.waiters[0],
                after.deliveries.last(),
                c,
                res.bytes_transferred as int,
                peer,
            )
            &&& (*final(pool)).model().slots[m.tokens[token]].current_idx != c
        }
    } by {
        datagrams_come_from_the_chunk_of_their_request(
            (*pool).model(),
            (*table).model(),
            token,
            c,
            *res,
            peer,
        );
    }
}

/// An operation goes into the slot that was reserved for it, and on its way from there: as it
/// is, under the generation of the slot, and waited for. Nothing is taken while the driver
/// shuts down, which is answered with error 995 and gives the operation back, and nothing goes
/// into a slot that is not reserved.
pub proof fn operations_go_into_their_reserved_slot<P>(
    user_data: usize,
    op: IocpOp,
    chunk: Option<MemoryRange>,
)
    ensures
        forall|d: &mut IocpDriver<P>, step: SubmitStep| #[trigger]
            call_ensures(IocpDriver::<P>::submit, (d, user_data, Some(op), chunk), step)
                && user_data < (*d).table.ops.slots@.len() ==> {
                let was = (*d).table.model().slots[user_data as int];
                let is = (*final(d)).table.model().slots[user_data as int];
                &&& (*d).shutting_down ==> (step matches SubmitStep::Failed { code, op: o, .. }
                    && code == Some(995i32) && o == Some(op)) && is == was
                &&& !(*d).shutting_down && was.state == Some(SlotState::Reserved) ==> {
                    &&& step matches SubmitStep::Next { work } && work.head.op == op
                        && work.head.user_data == user_data && work.head.generation
                        == was.generation && work.head.chunk == chunk && !work.head.background
                        && work.stage is Begin
                    &&& is.state == Some(SlotState::InFlightWaiting) && is.op == Some(op)
                        && is.payload == was.payload && is.generation == was.generation
                }
                &&& !(*d).shutting_down && was.state != Some(SlotState::Reserved)
                    ==> step is Failed && is == was
                &&& (*final(d)).table.model().events == (*d).table.model().events
            },
{
}

/// An operation that nobody waits for gets a slot of its own, which was free, and goes on its
/// way from there; it is refused when no slot is free.
pub proof fn background_operations_get_a_slot_of_their_own<P>(
    op: IocpOp,
    chunk: Option<MemoryRange>,
    j: int,
)
    ensures
        forall|d: &mut IocpDriver<P>, step: SubmitStep| #[trigger]
            call_ensures(IocpDriver::<P>::submit_background, (d, op, chunk), step) ==> {
                let t = (*d).table.model();
                let u = (*final(d)).table.model();
                &&& step matches SubmitStep::Next { work } ==> {
                    let i = work.head.user_data as int;
                    &&& i < t.slots.len() && t.slots[i].state is None
                    &&& work.head.background && work.head.op == op
                    &&& u.slots[i].state == Some(SlotState::InFlightWaiting) && u.slots[i].op
                        == Some(op)
                    &&& u.slots[i].generation == t.slots[i].generation
                    &&& 0 <= j < t.slots.len() && j != i ==> u.slots[j] == t.slots[j]
                }
                &&& step is Failed ==> u.slots == t.slots
                &&& !(*d).shutting_down && 0 <= j < t.slots.len() && t.slots[j].state is None
                    ==> step is Next
                &&& u.events == t.events
            },
{
    assert forall|d: &mut IocpDriver<P>, step: SubmitStep| #[trigger]
        call_ensures(IocpDriver::<P>::submit_background, (d, op, chunk), step) implies {
        let t = (*d).table.model();
        let u = (*final(d)).table.model();
        &&& step matches SubmitStep::Next { work } ==> {
            let i = work.head.user_data as int;
            &&& i < t.slots.len() && t.slots[i].state is None
            &&& work.head.background && work.head.op == op
            &&& u.slots[i].state == Some(SlotState::InFlightWaiting) && u.slots[i].op == Some(op)
            &&& u.slots[i].generation == t.slots[i].generation
            &&& 0 <= j < t.slots.len() && j != i ==> u.slots[j] == t.slots[j]
        }
        &&& step is Failed ==> u.slots == t.slots
        &&& !(*d).shutting_down && 0 <= j < t.slots.len() && t.slots[j].state is None
            ==> step is Next
        &&& u.events == t.events
    } by {
        if 0 <= j < (*d).table.ops.slots@.len() && (*d).table.ops.slots@[j].state is None {
            assert(!(*d).table.ops.live(j));
        }
    }
}

} // verus!
