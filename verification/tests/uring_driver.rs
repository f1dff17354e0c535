//! The io_uring driver with a kernel that is played by the test.
use std::collections::VecDeque;
use veloq_driver::completion::{CompletionEvent, CompletionToken};
use veloq_driver::nonzero::NonZeroU32;
use veloq_driver::slots::SlotState;
use veloq_driver::sockaddr::{ByteOrder, SocketAddr, SocketAddrV4};
use veloq_driver::uring::chunks::{
    ChunkRegistry, ChunkSet, MAX_CHUNKS, REGISTER_FAILURE_RETRY_COOLDOWN,
};
use veloq_driver::uring::config::{
    BufferRegistrationMode, IoMode, RawHandle, SetupFlag, SetupPolicy, SocketGenerations,
    UringConfig,
};
use veloq_driver::uring::driver::{
    ChunkInfo, Submission, SubmitPoll, SubmitStep, UringDriver, WakerState,
};
use veloq_driver::uring::entry::cancel_entry;
use veloq_driver::uring::error::{DriverErrorKind, UringError};
use veloq_driver::uring::files::{FileRegistration, FileStep, FileTable, RegisterFd};
use veloq_driver::uring::lifecycle::{
    BacklogAction, CancelStep, Cqe, BACKGROUND_USER_DATA, CANCEL_USER_DATA, ECANCELED,
};
use veloq_driver::uring::net::socket_addr_to_storage;
use veloq_driver::uring::op::{BufferView, IoFd, PoolKind, RegionInfo, Sqe, UringOp};
use veloq_driver::uring::ring::{
    eventfd_created, needs_enter, ring_built, wait_ended, wake_written, RingSetup, WaitPlan,
    WakeFlag, WakerArm, EAGAIN, EIO, ETIME,
};

fn config(entries: u32) -> UringConfig {
    UringConfig {
        entries: NonZeroU32::new(entries).unwrap(),
        ..UringConfig::default()
    }
}

fn driver(entries: u32) -> UringDriver<&'static str> {
    UringDriver::new(&config(entries))
}

fn buffer(kind: PoolKind, id: u16) -> BufferView {
    BufferView {
        capacity: 4096,
        len: 1000,
        region: RegionInfo {
            pool_kind: kind,
            id,
        },
    }
}

fn fsync() -> UringOp {
    UringOp::Fsync {
        fd: IoFd::Raw { fd: 3 },
        datasync: true,
    }
}

fn read_chunk(id: u16) -> UringOp {
    UringOp::ReadFixed {
        fd: IoFd::Raw { fd: 3 },
        buf: buffer(PoolKind::SlotBased, id),
        buf_offset: 96,
        offset: 7,
    }
}

fn cqe(user_data: u64, res: i32) -> Cqe {
    Cqe {
        user_data,
        res,
        flags: 0,
        name: Vec::new(),
    }
}

fn events(d: &mut UringDriver<&'static str>) -> Vec<CompletionEvent> {
    let mut out: Vec<CompletionEvent> = Vec::new();
    let n: usize = d.completions.drain_completions(&mut out);
    assert_eq!(n, out.len());
    out
}

fn event(user_data: usize, generation: u32, res: i32) -> CompletionEvent {
    CompletionEvent {
        token: CompletionToken {
            user_data,
            generation,
        },
        res,
        flags: 0,
    }
}

fn push(step: SubmitStep) -> Submission {
    match step {
        SubmitStep::PushSqe(s) => s,
        other => panic!("not an entry to push: {other:?}"),
    }
}

/// Submits `op` into a new slot and lets the entry find room.
fn in_flight(d: &mut UringDriver<&'static str>, op: UringOp) -> (usize, u32) {
    let (slot, generation) = d.reserve_op().unwrap();
    let mut op_in = Some(op);
    let s = push(d.begin_submit(slot, &mut op_in).unwrap());
    d.sqe_pushed(&s, true);
    assert_eq!(
        d.finish_submit(slot, &mut op_in, Ok(true)),
        Ok(SubmitPoll::Ready)
    );
    (slot, generation)
}

#[test]
fn an_operation_runs_from_submission_to_completion() {
    let mut d = driver(2);
    let (slot, generation) = d.reserve_op().unwrap();
    d.slot_set_payload(slot, "payload");
    let mut op_in = Some(fsync());
    let s = push(d.begin_submit(slot, &mut op_in).unwrap());
    assert!(op_in.is_none());
    assert_eq!(s.user_data, slot);
    assert!(matches!(
        s.sqe,
        Sqe::Fsync {
            fd: IoFd::Raw { fd: 3 },
            flags: 1
        }
    ));
    d.sqe_pushed(&s, true);
    assert_eq!(d.ops.state(slot), Some(SlotState::InFlightWaiting));
    assert!(!d.process_completions_internal(&vec![cqe(slot as u64, 11)]));
    assert_eq!(events(&mut d), vec![event(slot, generation, 11)]);
    let record = d
        .completions
        .take_record(CompletionToken {
            user_data: slot,
            generation,
        })
        .unwrap();
    assert_eq!(record.payload, Some("payload"));
    assert_eq!(record.detail, None);
    assert_eq!(record.peer, None);
    assert_eq!(d.ops.state(slot), None);
    let (again, next) = d.reserve_op().unwrap();
    assert_eq!((again, next), (slot, generation + 1));
}

#[test]
fn failed_operations_keep_their_error_number() {
    let mut d = driver(1);
    let (slot, generation) = in_flight(&mut d, fsync());
    d.process_completions_internal(&vec![cqe(slot as u64, -5)]);
    let token = CompletionToken {
        user_data: slot,
        generation,
    };
    assert_eq!(d.completions.take_record(token).unwrap().detail, Some(Err(5)));
}

#[test]
fn slots_run_out() {
    let mut d = driver(1);
    d.reserve_op().unwrap();
    assert!(d.reserve_op().is_err());
}

#[test]
fn payloads_can_be_taken_back() {
    let mut d = driver(1);
    let (slot, _) = d.reserve_op().unwrap();
    d.slot_set_payload(slot, "kept");
    assert_eq!(d.slot_take_payload(slot), Some("kept"));
    assert_eq!(d.slot_take_payload(slot), None);
}

#[test]
fn the_peer_of_an_accepted_connection_is_read() {
    let mut d = driver(1);
    let peer = SocketAddr::V4(SocketAddrV4 {
        ip: [10, 0, 0, 7],
        port: 4711,
    });
    let (name, len) = socket_addr_to_storage(peer);
    let (slot, generation) = in_flight(
        &mut d,
        UringOp::Accept {
            fd: IoFd::Raw { fd: 4 },
        },
    );
    d.process_completions_internal(&vec![Cqe {
        user_data: slot as u64,
        res: 9,
        flags: 0,
        name: name.bytes[..len as usize].to_vec(),
    }]);
    let token = CompletionToken {
        user_data: slot,
        generation,
    };
    assert_eq!(d.completions.take_record(token).unwrap().peer, Some(peer));
}

#[test]
fn submissions_that_are_refused() {
    let mut d = driver(2);
    let mut none: Option<UringOp> = None;
    assert_eq!(
        d.begin_submit(0, &mut none).err(),
        Some(DriverErrorKind::InvalidState)
    );
    let mut close = Some(UringOp::Close {
        fd: IoFd::Fixed { index: 2 },
    });
    assert_eq!(
        d.begin_submit(0, &mut close).err(),
        Some(DriverErrorKind::Unsupported)
    );
    assert!(close.is_some());
    let mut early = Some(fsync());
    assert_eq!(
        d.begin_submit(0, &mut early).err(),
        Some(DriverErrorKind::InvalidState)
    );
    let (slot, _) = d.reserve_op().unwrap();
    let mut too_long = Some(UringOp::SyncRange {
        fd: IoFd::Raw { fd: 1 },
        offset: 0,
        nbytes: 1 << 40,
        flags: 0,
    });
    match d.begin_submit(slot, &mut too_long) {
        Ok(SubmitStep::Failed(e)) => {
            assert_eq!(e, UringError::Submission);
            assert_eq!(
                d.finish_submit(slot, &mut too_long, Err(e)),
                Err(DriverErrorKind::Submission)
            );
        }
        other => panic!("{other:?}"),
    }
    assert!(matches!(too_long, Some(UringOp::SyncRange { .. })));
    assert_eq!(d.ops.state(slot), Some(SlotState::Reserved));
}

#[test]
fn chunks_are_registered_before_use() {
    let mut d = driver(1);
    let (slot, _) = d.reserve_op().unwrap();
    let mut op_in = Some(read_chunk(5));
    let s = match d.begin_submit(slot, &mut op_in) {
        Ok(SubmitStep::ResolveChunk(s)) => s,
        other => panic!("{other:?}"),
    };
    assert_eq!(s.chunks, vec![5]);
    let info = ChunkInfo { id: 5, len: 65536 };
    let s = match d.chunk_resolved(s, Some(info), 0) {
        SubmitStep::RegisterChunk {
            submission,
            index,
            info,
        } => {
            assert_eq!((index, info.len), (5, 65536));
            submission
        }
        other => panic!("{other:?}"),
    };
    // The entry was made while the chunk was unknown, so it reads without it.
    let s = push(d.chunk_registered(s, info, true, 0));
    assert!(matches!(
        s.sqe,
        Sqe::Read {
            start: 96,
            len: 4000,
            offset: 7,
            ..
        }
    ));
    d.sqe_pushed(&s, false);
    assert_eq!(d.ops.state(slot), Some(SlotState::Reserved));
    assert_eq!(
        d.finish_submit(slot, &mut op_in, Ok(false)),
        Ok(SubmitPoll::Pending)
    );
    // The second time round the chunk is known.
    let (next, step) = d.next_backlog().unwrap();
    assert_eq!(next, slot);
    let s = push(step);
    assert!(matches!(
        s.sqe,
        Sqe::ReadFixed {
            start: 96,
            len: 4000,
            buf_index: 5,
            ..
        }
    ));
    d.sqe_pushed(&s, true);
    assert!(d.backlog_flushed(true));
    assert!(d.next_backlog().is_none());
    assert_eq!(d.chunks.stats.chunk_register_attempts, 1);
    assert_eq!(d.chunks.stats.chunk_register_success, 1);
}

#[test]
fn failed_chunk_registrations_cool_down() {
    let mut d = driver(1);
    let (slot, _) = d.reserve_op().unwrap();
    let info = ChunkInfo { id: 5, len: 65536 };
    let mut op_in = Some(read_chunk(5));
    let s = match d.begin_submit(slot, &mut op_in) {
        Ok(SubmitStep::ResolveChunk(s)) => s,
        other => panic!("{other:?}"),
    };
    let s = match d.chunk_resolved(s, Some(info), 1000) {
        SubmitStep::RegisterChunk { submission, .. } => submission,
        other => panic!("{other:?}"),
    };
    match d.chunk_registered(s, info, false, 1000) {
        SubmitStep::Failed(e) => assert_eq!(e, UringError::Registration),
        other => panic!("{other:?}"),
    }
    assert_eq!(d.chunks.stats.chunk_register_failures, 1);
    let s = match d.begin_submission(slot) {
        SubmitStep::ResolveChunk(s) => s,
        other => panic!("{other:?}"),
    };
    match d.chunk_resolved(s, Some(info), 1000 + REGISTER_FAILURE_RETRY_COOLDOWN - 1) {
        SubmitStep::Failed(e) => assert_eq!(e, UringError::Registration),
        other => panic!("{other:?}"),
    }
    assert_eq!(d.chunks.stats.chunk_register_skipped_recent_failure, 1);
    let s = match d.begin_submission(slot) {
        SubmitStep::ResolveChunk(s) => s,
        other => panic!("{other:?}"),
    };
    let step = d.chunk_resolved(s, Some(info), 1000 + REGISTER_FAILURE_RETRY_COOLDOWN);
    assert!(matches!(step, SubmitStep::RegisterChunk { .. }));
}

#[test]
fn chunks_that_nobody_knows() {
    for (mode, error) in [
        (BufferRegistrationMode::Strict, UringError::InvalidState),
        (BufferRegistrationMode::Compatible, UringError::InvalidInput),
    ] {
        let mut d: UringDriver<()> = UringDriver::new(&config(1).registration_mode(mode));
        let (slot, _) = d.reserve_op().unwrap();
        let mut op_in = Some(read_chunk(5));
        let s = match d.begin_submit(slot, &mut op_in) {
            Ok(SubmitStep::ResolveChunk(s)) => s,
            other => panic!("{other:?}"),
        };
        match d.chunk_resolved(s, None, 0) {
            SubmitStep::Failed(e) => assert_eq!(e, error),
            other => panic!("{other:?}"),
        }
        assert_eq!(d.chunks.stats.submission_missing_chunk_info, 1);
    }
    let mut d = driver(1);
    let (slot, _) = d.reserve_op().unwrap();
    let mut op_in = Some(read_chunk(MAX_CHUNKS as u16));
    match d.begin_submit(slot, &mut op_in) {
        Ok(SubmitStep::Failed(e)) => assert_eq!(e, UringError::InvalidState),
        other => panic!("{other:?}"),
    }
}

#[test]
fn the_chunk_registry_by_itself() {
    let mut set = ChunkSet::new();
    assert_eq!(set.get(3), Ok(false));
    set.insert(3);
    assert_eq!(set.get(3), Ok(true));
    assert_eq!(set.get(MAX_CHUNKS), Err(()));
    let mut r = ChunkRegistry::new(BufferRegistrationMode::Strict);
    assert_eq!(r.begin_register(MAX_CHUNKS as u16, 0), Err(UringError::InvalidInput));
    assert_eq!(r.begin_register(9, 0), Ok(9));
    assert_eq!(r.finish_register(9, false, 0), Err(UringError::Registration));
    assert_eq!(r.begin_register(9, 1), Err(UringError::Registration));
    assert_eq!(r.finish_register(9, true, 2), Ok(()));
    assert_eq!(r.begin_register(9, 3), Ok(9));
}

#[test]
fn entries_are_made_from_operations() {
    let mut registered = ChunkSet::new();
    let fd = IoFd::Raw { fd: 6 };
    let heap = buffer(PoolKind::Heap, 0);
    let write = UringOp::WriteFixed {
        fd,
        buf: buffer(PoolKind::SlotBased, 2),
        buf_offset: 100,
        offset: 1,
    };
    assert!(matches!(
        write.make_sqe(&registered),
        Ok(Sqe::Write {
            start: 100,
            len: 900,
            offset: 1,
            ..
        })
    ));
    registered.insert(2);
    assert!(matches!(
        write.make_sqe(&registered),
        Ok(Sqe::WriteFixed {
            start: 100,
            len: 900,
            buf_index: 2,
            ..
        })
    ));
    let recv = UringOp::Recv {
        fd,
        buf: heap,
        buf_offset: 96,
    };
    assert!(matches!(recv.make_sqe(&registered), Ok(Sqe::Recv { start: 96, len: 4000, .. })));
    let send = UringOp::UdpSend {
        fd,
        buf: heap,
        buf_offset: 0,
    };
    assert!(matches!(send.make_sqe(&registered), Ok(Sqe::Send { start: 0, len: 1000, .. })));
    let range = UringOp::SyncRange {
        fd,
        offset: 5,
        nbytes: u64::MAX,
        flags: 2,
    };
    assert!(matches!(
        range.make_sqe(&registered),
        Ok(Sqe::SyncFileRange { len: 0, offset: 5, flags: 2, .. })
    ));
    let stream = UringOp::UdpRecvStream { fd, buf: None };
    assert_eq!(stream.make_sqe(&registered).err(), Some(UringError::InvalidState));
    let stream = UringOp::UdpRecvStream { fd, buf: Some(heap) };
    assert!(matches!(stream.make_sqe(&registered), Ok(Sqe::RecvMsg { len: 4096, .. })));
    assert!(matches!(UringOp::UdpRefill { fd }.make_sqe(&registered), Ok(Sqe::Nop)));
}

#[test]
fn queue_entries_carry_code_and_user_data() {
    let raw = IoFd::Raw { fd: 6 };
    let fixed = IoFd::Fixed { index: 6 };
    let code = |sqe: Sqe| {
        let e = sqe.entry(77).unwrap();
        assert_eq!(e.get_user_data(), 77);
        e.get_opcode()
    };
    for fd in [raw, fixed] {
        assert_eq!(code(Sqe::Close { fd }), io_uring::opcode::Close::CODE as u32);
        assert_eq!(code(Sqe::Fsync { fd, flags: 1 }), io_uring::opcode::Fsync::CODE as u32);
        assert_eq!(
            code(Sqe::SyncFileRange { fd, len: 8, offset: 0, flags: 0 }),
            io_uring::opcode::SyncFileRange::CODE as u32
        );
        assert_eq!(
            code(Sqe::Fallocate { fd, len: 8, offset: 0, mode: 0 }),
            io_uring::opcode::Fallocate::CODE as u32
        );
        assert!(Sqe::Accept { fd }.entry(1).is_none());
    }
    assert_eq!(code(Sqe::Nop), io_uring::opcode::Nop::CODE as u32);
    let cancel = cancel_entry(4);
    assert_eq!(cancel.get_opcode(), io_uring::opcode::AsyncCancel::CODE as u32);
    assert_eq!(cancel.get_user_data(), CANCEL_USER_DATA);
    // The largest index that can be closed.
    let last = IoFd::Fixed { index: u32::MAX - 1 };
    assert_eq!(code(Sqe::Close { fd: last }), io_uring::opcode::Close::CODE as u32);
    // A file of the table is marked as such.
    let plain = format!("{:?}", Sqe::Close { fd: raw }.entry(1));
    assert_eq!(plain, "Some(Entry { op_code: 19, flags: 0, user_data: 1 })");
    let plain = format!("{:?}", Sqe::Fsync { fd: raw, flags: 0 }.entry(1));
    let marked = format!("{:?}", Sqe::Fsync { fd: fixed, flags: 0 }.entry(1));
    assert_ne!(plain, marked);
}

#[test]
fn background_operations_have_their_own_way() {
    let d = driver(1);
    let close = UringOp::Close {
        fd: IoFd::Fixed { index: 1 },
    };
    assert!(matches!(
        d.background_sqe(&close),
        Ok(Sqe::Close {
            fd: IoFd::Fixed { index: 1 }
        })
    ));
    assert_eq!(
        d.background_sqe(&fsync()).err(),
        Some(DriverErrorKind::Unsupported)
    );
}

#[test]
fn cancelling_before_submission_ends_at_once() {
    let mut d = driver(1);
    let (slot, generation) = d.reserve_op().unwrap();
    assert_eq!(d.cancel_op_internal(slot), CancelStep::Nothing);
    assert_eq!(events(&mut d), vec![event(slot, generation, -ECANCELED)]);
    assert_eq!(d.cancel_op_internal(slot), CancelStep::Nothing);
    assert_eq!(events(&mut d), Vec::new());
    assert_eq!(d.cancel_op_internal(99), CancelStep::Nothing);
}

#[test]
fn cancelling_in_flight_waits_for_the_kernel() {
    let mut d = driver(1);
    let (slot, generation) = in_flight(&mut d, fsync());
    assert_eq!(
        d.cancel_op_internal(slot),
        CancelStep::PushCancel { user_data: slot }
    );
    assert_eq!(d.cancel_op_internal(slot), CancelStep::Nothing);
    d.cancel_pushed(slot, false);
    assert_eq!(d.next_cancellation(), Some(slot));
    assert!(!d.cancellation_flushed(false));
    assert_eq!(d.next_cancellation(), Some(slot));
    assert!(d.cancellation_flushed(true));
    assert_eq!(d.next_cancellation(), None);
    d.process_completions_internal(&vec![cqe(CANCEL_USER_DATA, 0), cqe(slot as u64, 30)]);
    assert_eq!(events(&mut d), vec![event(slot, generation, 30)]);
    // A second entry for the same slot is ignored.
    d.process_completions_internal(&vec![cqe(slot as u64, 31)]);
    assert_eq!(events(&mut d), Vec::new());
}

#[test]
fn cancellations_of_ended_operations_are_forgotten() {
    let mut d = driver(1);
    let (slot, _) = in_flight(&mut d, fsync());
    d.cancel_op_internal(slot);
    d.cancel_pushed(slot, false);
    d.process_completions_internal(&vec![cqe(slot as u64, -ECANCELED)]);
    assert_eq!(d.next_cancellation(), None);
}

#[test]
fn timers_end_operations_once() {
    let mut d = driver(2);
    let (slot, generation) = d.reserve_op().unwrap();
    let mut op_in = Some(UringOp::Timeout { secs: 2, nanos: 5 });
    match d.begin_submit(slot, &mut op_in) {
        Ok(SubmitStep::ArmTimer {
            user_data,
            secs,
            nanos,
        }) => assert_eq!((user_data, secs, nanos), (slot, 2, 5)),
        other => panic!("{other:?}"),
    }
    d.timer_armed(slot, 42);
    d.expire_timers(&vec![slot, slot, 7]);
    assert_eq!(events(&mut d), vec![event(slot, generation, 0)]);
    let (slot, generation) = d.reserve_op().unwrap();
    let mut op_in = Some(UringOp::Timeout { secs: 2, nanos: 5 });
    d.begin_submit(slot, &mut op_in).unwrap();
    d.timer_armed(slot, 43);
    assert_eq!(
        d.cancel_op_internal(slot),
        CancelStep::StopTimer { timer_id: 43 }
    );
    assert_eq!(events(&mut d), vec![event(slot, generation, -ECANCELED)]);
}

#[test]
fn entries_of_the_driver_itself_are_skipped() {
    let mut d = driver(1);
    let (slot, _) = in_flight(&mut d, fsync());
    assert!(!d.process_completions_internal(&vec![
        cqe(u64::MAX, 1),
        cqe(CANCEL_USER_DATA, 1),
        cqe(BACKGROUND_USER_DATA, 1),
        cqe(1, 1),
    ]));
    assert_eq!(events(&mut d), Vec::new());
    assert_eq!(d.ops.state(slot), Some(SlotState::InFlightWaiting));
}

#[test]
fn the_backlog_drops_what_is_gone() {
    let mut d = driver(2);
    let (first, _) = d.reserve_op().unwrap();
    d.ops.set_op(first, fsync());
    let (second, _) = d.reserve_op().unwrap();
    d.ops.set_op(second, fsync());
    d.push_backlog(first);
    d.push_backlog(second);
    d.cancel_op_internal(first);
    assert_eq!(d.backlog_action(first), BacklogAction::Drop);
    assert_eq!(d.backlog_action(second), BacklogAction::Submit);
    let (next, step) = d.next_backlog().unwrap();
    assert_eq!(next, second);
    d.sqe_pushed(&push(step), false);
    assert!(!d.backlog_flushed(false));
    assert_eq!(d.pop_backlog(), Some(second));
    assert_eq!(d.pop_backlog(), None);
}

#[test]
fn waking_up() {
    let mut d = driver(1);
    assert!(matches!(d.arm_waker(), WakerArm::RegisterFd));
    d.waker_registered(3);
    let s = match d.arm_waker() {
        WakerArm::Submit(step) => push(step),
        other => panic!("{other:?}"),
    };
    assert!(matches!(
        s.sqe,
        Sqe::WakeupRead {
            fd: IoFd::Fixed { index: 3 }
        }
    ));
    d.sqe_pushed(&s, true);
    assert_eq!(d.waker_submitted(Ok(true)), Ok(()));
    assert!(matches!(d.arm_waker(), WakerArm::Armed));
    let mut flag = WakeFlag::new();
    assert!(flag.begin_wake());
    assert!(!flag.begin_wake());
    assert!(d.process_completions_internal(&vec![cqe(s.user_data as u64, 8)]));
    assert_eq!(events(&mut d), Vec::new());
    // The slot of the read that is over is there for the next one.
    let s = match d.waker_completed(&mut flag) {
        WakerArm::Submit(step) => push(step),
        other => panic!("{other:?}"),
    };
    assert_eq!(
        d.waker,
        WakerState {
            registered_fd: Some(3),
            token: Some(s.user_data),
        }
    );
    assert!(flag.begin_wake());
    d.sqe_pushed(&s, false);
    assert_eq!(d.waker_submitted(Ok(false)), Ok(()));
    assert_eq!(d.pop_backlog(), Some(s.user_data));
    assert_eq!(
        d.waker_submitted(Err(UringError::Submission)),
        Err(UringError::Submission)
    );
    // Without a free slot the read cannot be submitted.
    let mut d = driver(1);
    d.waker_registered(3);
    d.reserve_op().unwrap();
    assert!(matches!(d.arm_waker(), WakerArm::Failed(UringError::InvalidState)));
    assert_eq!(
        d.waker,
        WakerState {
            registered_fd: Some(3),
            token: None,
        }
    );
}

#[test]
fn waiting() {
    let mut d = driver(1);
    assert_eq!(d.wait_plan(true, None), WaitPlan::Idle);
    in_flight(&mut d, fsync());
    assert_eq!(d.wait_plan(true, None), WaitPlan::Process);
    assert_eq!(d.wait_plan(false, None), WaitPlan::WaitForever);
    assert_eq!(
        d.wait_plan(false, Some((1, 2))),
        WaitPlan::WaitFor { secs: 1, nanos: 2 }
    );
    assert_eq!(wait_ended(Ok(())), Ok(()));
    assert_eq!(wait_ended(Err(ETIME)), Ok(()));
    assert_eq!(wait_ended(Err(EIO)), Err(UringError::CompletionWait));
    assert_eq!(wake_written(Ok(())), Ok(()));
    assert_eq!(wake_written(Err(Some(EAGAIN))), Ok(()));
    assert_eq!(wake_written(Err(Some(9))), Err(9));
    assert_eq!(wake_written(Err(None)), Err(EIO));
    assert!(needs_enter(false, false));
    assert!(needs_enter(true, true));
    assert!(!needs_enter(true, false));
}

#[test]
fn the_ring_is_set_up_as_configured() {
    let setup = RingSetup::from_config(&UringConfig::default());
    assert_eq!(
        setup,
        RingSetup {
            entries: 1024,
            coop_taskrun: true,
            single_issuer: true,
            defer_taskrun: true,
            sqpoll_idle: None
        }
    );
    let polling = UringConfig {
        mode: IoMode::Polling(NonZeroU32::new(50).unwrap()),
        setup: SetupPolicy::default().with_disabled(SetupFlag::DeferTaskrun),
        ..config(8)
    };
    let setup = RingSetup::from_config(&polling);
    assert_eq!((setup.entries, setup.sqpoll_idle), (8, Some(50)));
    assert!(setup.coop_taskrun && setup.single_issuer && !setup.defer_taskrun);
    // A kernel that refuses the flags keeps the driver from starting.
    let refused = ring_built::<()>(&config(8), Err(22));
    assert_eq!(refused.err(), Some(UringError::DriverInit));
    let built = ring_built::<()>(&config(8), Ok(()));
    match built {
        Ok(d) => assert_eq!(d.ops.len(), 8),
        Err(e) => panic!("{e:?}"),
    }
    assert_eq!(eventfd_created(-1), Err(UringError::DriverInit));
    assert_eq!(
        eventfd_created(5).map(|h| h.as_raw()),
        Ok(RawHandle::File { fd: 5 })
    );
}

#[test]
fn files_are_registered_in_order() {
    let mut table = FileTable::new();
    assert_eq!(table.missing_capacity(0), Some(1));
    assert_eq!(table.missing_capacity(2), Some(2));
    assert_eq!(table.initialize(2, false), Err(UringError::Registration));
    assert_eq!(table.initialize(2, true), Ok(()));
    assert_eq!(table.missing_capacity(2), None);
    let mut generations = SocketGenerations::new();
    let socket = RawHandle::for_socket(21, &mut generations);
    let mut files: VecDeque<RegisterFd> = VecDeque::new();
    files.push_back(RegisterFd::Borrowed(RawHandle::for_file(20).borrow()));
    files.push_back(RegisterFd::Owned(socket.into_owned()));
    files.push_back(RegisterFd::Borrowed(RawHandle::for_file(22).borrow()));
    let mut work = FileRegistration::new(files);
    assert!(matches!(work.next(&mut table), FileStep::Update { index: 0, fd: 20 }));
    assert_eq!(work.reply(&mut table, true), Ok(()));
    assert!(matches!(work.next(&mut table), FileStep::Update { index: 1, fd: 21 }));
    assert_eq!(work.reply(&mut table, true), Ok(()));
    assert!(matches!(work.next(&mut table), FileStep::Failed(UringError::InvalidState)));
    assert!(matches!(work.next(&mut table), FileStep::Done));
    assert_eq!(
        work.fixed,
        vec![IoFd::Fixed { index: 0 }, IoFd::Fixed { index: 1 }]
    );
    // A place that was cleared can be used again.
    assert!(table.begin_unregister(7).is_none());
    let borrowed = table.begin_unregister(0).unwrap();
    assert_eq!((borrowed.fd(), borrowed.fd_to_close()), (20, None));
    assert_eq!(table.finish_unregister(0, true), Ok(()));
    assert!(table.begin_unregister(0).is_none());
    let mut again: VecDeque<RegisterFd> = VecDeque::new();
    again.push_back(RegisterFd::Borrowed(RawHandle::for_file(30).borrow()));
    let mut work = FileRegistration::new(again);
    assert!(matches!(work.next(&mut table), FileStep::Update { index: 0, fd: 30 }));
    assert_eq!(work.reply(&mut table, false), Err(UringError::Registration));
    assert!(work.to_close.is_empty());
    let owned = table.begin_unregister(1).unwrap();
    assert_eq!((owned.fd(), owned.fd_to_close()), (21, Some(21)));
    assert_eq!(table.finish_unregister(1, false), Err(UringError::Registration));
    assert!(table.free.is_empty());
}

#[test]
fn owned_files_that_are_not_registered_are_closed() {
    let mut table = FileTable::new();
    assert_eq!(table.initialize(1, true), Ok(()));
    let owned = |fd: i32| RegisterFd::Owned(RawHandle::for_file(fd).into_owned());
    let lent = |fd: i32| RegisterFd::Borrowed(RawHandle::for_file(fd).borrow());
    let mut work = FileRegistration::new([owned(40), owned(41), lent(42), owned(43)].into());
    assert!(matches!(work.next(&mut table), FileStep::Update { index: 0, fd: 40 }));
    assert_eq!(work.reply(&mut table, false), Err(UringError::Registration));
    assert_eq!(work.to_close, vec![40]);
    assert!(matches!(work.next(&mut table), FileStep::Failed(UringError::InvalidState)));
    assert_eq!(work.to_close, vec![40, 41]);
    work.abandon();
    assert_eq!(work.to_close, vec![40, 41, 43]);
    assert!(work.pending.is_empty());
}

#[test]
fn the_byte_order_is_that_of_the_machine() {
    let d = driver(1);
    let native = if u16::from_ne_bytes([1, 0]) == 1 {
        ByteOrder::Little
    } else {
        ByteOrder::Big
    };
    assert_eq!(d.order, native);
}
