//! The IOCP driver with a system that is played by the test.
use veloq_driver::completion::CompletionEvent;
use veloq_driver::iocp::buffer::{IocpBuffer, MemoryRange};
use veloq_driver::iocp::cancel::CancelAction;
use veloq_driver::iocp::close::{CloseAction, CloseMode, CloseStep};
use veloq_driver::iocp::completions::{CompletionAnswer, CompletionAsk, CompletionStep, OpOutput, Packet};
use veloq_driver::iocp::config::{
    CloseCall, IocpConfig, IocpHandle, RegisteredHandle, SocketGenerations, ThreadTags,
};
use veloq_driver::iocp::driver::{
    DriverControlCommand, IocpDriver, CONTROL_EVENT_KEY, RIO_EVENT_KEY, WAKEUP_USER_DATA,
};
use veloq_driver::iocp::error::{DriverErrorKind, IocpError};
use veloq_driver::iocp::files::{close_rest, RegisterFd};
use veloq_driver::iocp::net::Socket;
use veloq_driver::iocp::op::{actor_key, IoFd, IocpOp};
use veloq_driver::iocp::rio::control::OneStep;
use veloq_driver::iocp::rio::kernel::{
    ExtensionAnswers, Extensions, RioCq, RioResult, RioTable,
};
use veloq_driver::iocp::rio::pool::Answer;
use veloq_driver::iocp::rio::pool_steps::{PoolAsk, PoolStep};
use veloq_driver::iocp::rio::submit::RioAsk;
use veloq_driver::iocp::submission::{SubmitStatus, SubmitStep};
use veloq_driver::iocp::submit::{BlockingCall, SubmitAsk, SubmitStage};
use veloq_driver::iocp::table::Delivery;
use veloq_driver::iocp::win32::CompletionStatus;
use veloq_driver::sockaddr::{SocketAddr, SocketAddrV4};
use veloq_driver::uring::op::PoolKind;

fn answers() -> ExtensionAnswers {
    ExtensionAnswers {
        connect_ex: true,
        accept_ex: true,
        get_accept_ex_sockaddrs: true,
        rio_table: Some(RioTable::complete()),
    }
}

fn driver() -> IocpDriver<u32> {
    let memory = MemoryRange {
        ptr: 0x10_0000,
        len: 0x1_0000,
    };
    match IocpDriver::new(IocpConfig::default(), 7, 0, answers(), 99, 0, memory) {
        Ok(driver) => driver,
        Err(e) => panic!("driver: {e:?}"),
    }
}

/// Registers handles on a thread that has not made a socket.
fn register_files(
    d: &mut IocpDriver<u32>,
    files: &Vec<RegisterFd>,
) -> Result<Vec<IoFd>, DriverErrorKind> {
    let (mut generations, mut tags) = (SocketGenerations::new(), ThreadTags::new());
    d.register_files(files, &mut generations, &mut tags)
}

fn socket(handle: usize) -> IocpHandle {
    IocpHandle::Socket {
        handle,
        generation: 5,
    }
}

fn heap_buffer(ptr: usize, len: usize) -> IocpBuffer {
    IocpBuffer {
        ptr,
        capacity: len,
        len,
        pool_kind: PoolKind::Heap,
        chunk_id: 0,
        offset: 0,
        cookie: 1,
    }
}

fn ok(value: u64) -> Answer {
    Answer { value, error: 0 }
}

fn refused(error: i32) -> Answer {
    Answer { value: 0, error }
}

/// Plays the system: `reply` answers what is asked.
fn run(
    d: &mut IocpDriver<u32>,
    first: SubmitStep,
    now: u64,
    reply: &mut dyn FnMut(&SubmitAsk) -> Answer,
) -> (SubmitStep, Vec<SubmitAsk>) {
    let mut asked = Vec::new();
    let mut step = first;
    loop {
        step = match step {
            SubmitStep::Next { work } => d.advance_submit(work, now),
            SubmitStep::Ask { ask, work } => {
                asked.push(ask);
                if let SubmitStage::NameRead { .. } = work.stage {
                    d.name_submit(work, None)
                } else {
                    let answer = reply(&ask);
                    d.answer_submit(work, answer, now)
                }
            }
            other => return (other, asked),
        };
    }
}

fn submit(
    d: &mut IocpDriver<u32>,
    op: IocpOp,
    reply: &mut dyn FnMut(&SubmitAsk) -> Answer,
) -> (usize, u32, SubmitStep, Vec<SubmitAsk>) {
    let (user_data, generation) = d.reserve_op().expect("a slot");
    d.slot_set_payload(user_data, 77);
    let first = d.submit(user_data, Some(op), None);
    let (step, asked) = run(d, first, 1_000, reply);
    (user_data, generation, step, asked)
}

fn drained(d: &mut IocpDriver<u32>) -> Vec<CompletionEvent> {
    let mut out = Vec::new();
    d.drain_completions(&mut out);
    out
}

fn context_of(asked: &[SubmitAsk]) -> u64 {
    for ask in asked {
        if let SubmitAsk::Rio { ask } = ask {
            match ask {
                RioAsk::Receive { context, .. } | RioAsk::Send { context, .. } => return *context,
                RioAsk::SendEx { context, .. } => return *context,
                _ => {}
            }
        }
    }
    panic!("no request was made")
}

fn any_peer() -> SocketAddr {
    SocketAddr::V4(SocketAddrV4 {
        ip: [127, 0, 0, 1],
        port: 4242,
    })
}

#[test]
fn test_extensions_load() {
    let ext = Extensions::new(answers());
    assert!(ext.is_ok(), "Extensions should load on Windows");
}

#[test]
fn test_rio_extensions_load() {
    let _ext = Extensions::new(answers()).expect("RIO Extensions should load");
}

#[test]
fn test_driver_creation() {
    let memory = MemoryRange { ptr: 0, len: 0 };
    let driver: Result<IocpDriver<u32>, IocpError> =
        IocpDriver::new(IocpConfig::default(), 7, 0, answers(), 99, 0, memory);
    assert!(driver.is_ok(), "Driver should be created");
}

#[test]
fn creation_fails_without_port_extensions_or_queue() {
    let memory = MemoryRange { ptr: 0, len: 0 };
    let without_port: Result<IocpDriver<u32>, IocpError> =
        IocpDriver::new(IocpConfig::default(), 0, 5, answers(), 99, 0, memory);
    assert_eq!(without_port.err(), Some(IocpError::Win32));
    let mut no_accept = answers();
    no_accept.accept_ex = false;
    let without_accept: Result<IocpDriver<u32>, IocpError> =
        IocpDriver::new(IocpConfig::default(), 7, 0, no_accept, 99, 0, memory);
    assert_eq!(without_accept.err(), Some(IocpError::DriverInit));
    let without_queue: Result<IocpDriver<u32>, IocpError> =
        IocpDriver::new(IocpConfig::default(), 7, 0, answers(), 0, 0, memory);
    assert_eq!(without_queue.err(), Some(IocpError::Rio));
    let without_notify: Result<IocpDriver<u32>, IocpError> =
        IocpDriver::new(IocpConfig::default(), 7, 0, answers(), 99, -1, memory);
    assert_eq!(without_notify.err(), Some(IocpError::Rio));
    let mut table = RioTable::complete();
    table.send_ex = false;
    let mut no_send_ex = answers();
    no_send_ex.rio_table = Some(table);
    let without_send_ex: Result<IocpDriver<u32>, IocpError> =
        IocpDriver::new(IocpConfig::default(), 7, 0, no_send_ex, 99, 0, memory);
    assert_eq!(without_send_ex.err(), Some(IocpError::Rio));
}

#[test]
fn test_register_files() {
    let mut driver = driver();
    let file = RegisterFd {
        handle: IocpHandle::for_file(12),
        owned: false,
        probe_error: Some(10038),
    };
    let fds = register_files(&mut driver, &vec![file]).unwrap();
    assert_eq!(fds.len(), 1);
    let out = driver.unregister_files(&fds);
    assert_eq!(out.closes, vec![CloseCall::Nothing]);
}

#[test]
fn test_register_borrowed_file_keeps_weak_ownership() {
    let mut driver = driver();
    let file = RegisterFd {
        handle: IocpHandle::for_file(12),
        owned: false,
        probe_error: Some(10038),
    };
    let fd = register_files(&mut driver, &vec![file]).unwrap()[0];
    let idx = match fd {
        IoFd::Fixed { index } => index as usize,
        IoFd::Raw { .. } => panic!("a place"),
    };
    assert!(
        matches!(driver.files.entries[idx], Some(RegisteredHandle::Weak(_))),
        "borrowed file registration must not transfer ownership to driver"
    );
}

#[test]
fn owned_handles_are_closed_when_unregistered() {
    let mut driver = driver();
    let file = RegisterFd {
        handle: IocpHandle::for_file(12),
        owned: true,
        probe_error: Some(10038),
    };
    let sock = RegisterFd {
        handle: IocpHandle::for_file(13),
        owned: true,
        probe_error: None,
    };
    let fds = register_files(&mut driver, &vec![file, sock]).unwrap();
    let out = driver.unregister_files(&fds);
    assert_eq!(
        out.closes,
        vec![CloseCall::Handle(12), CloseCall::Socket(13)]
    );
    let unclear = RegisterFd {
        handle: IocpHandle::for_file(14),
        owned: false,
        probe_error: Some(10022),
    };
    assert_eq!(
        register_files(&mut driver, &vec![unclear]).err(),
        Some(DriverErrorKind::InvalidInput)
    );
}

#[test]
fn test_socket_lifecycle_control_cleanup_unreg() {
    let mut driver = driver();
    let (mut generations, mut tags) = (SocketGenerations::new(), ThreadTags::new());
    let made = Socket::created(21).unwrap();
    let raw = made.into_owned_raw(&mut generations, &mut tags);
    let fd = register_files(&mut driver, &vec![RegisterFd {
            handle: raw,
            owned: false,
            probe_error: None,
        }])
        .unwrap()
        .into_iter()
        .next()
        .unwrap();

    let lifecycle = driver.socket_lifecycle_handle();
    assert_eq!(lifecycle.port, driver.driver_id());
    assert!(lifecycle.supports_registration());
    let command = lifecycle.schedule_socket_cleanup(raw, Some(fd));
    let status = CompletionStatus::Completed {
        bytes: 0,
        key: CONTROL_EVENT_KEY,
        overlapped: Some(3),
        success: true,
        error_code: None,
    };
    assert_eq!(driver.poll_completion(status), Packet::Control);
    driver.handle_control_completion(Some(command));

    let idx = match fd {
        IoFd::Fixed { index } => index as usize,
        IoFd::Raw { .. } => panic!("a place"),
    };
    assert!(driver.files.entries[idx].is_none());
    assert!(driver.files.free.contains(&idx));
}

#[test]
fn test_iocp_timeout() {
    let mut driver = driver();
    let millis = 100u64;
    let (user_data, generation) = driver.reserve_op().unwrap();
    let first = driver.submit(
        user_data,
        Some(IocpOp::Timeout {
            nanos: millis * 1_000_000,
        }),
        None,
    );
    let (step, asked) = run(&mut driver, first, 5_000, &mut |_| ok(31));
    assert!(
        matches!(step, SubmitStep::Done { .. }),
        "submit timeout failed"
    );
    assert_eq!(
        asked,
        vec![SubmitAsk::StartTimer {
            user_data,
            nanos: 100_000_000
        }]
    );
    // The timer fires too early, is started again, and then ends the operation.
    let restarts = driver.process_timers(&vec![user_data], 50_005_000);
    assert_eq!(restarts.len(), 1);
    assert_eq!(restarts[0].nanos, 50_000_000);
    driver.timer_restarted(user_data, 32);
    assert!(drained(&mut driver).is_empty());
    let restarts = driver.process_timers(&vec![user_data, user_data], 100_005_000);
    assert!(restarts.is_empty());
    let events = drained(&mut driver);
    assert_eq!(events.len(), 1);
    assert_eq!(events[0].res, 0, "Timeout should succeed");
    assert_eq!(events[0].token.user_data, user_data);
    assert_eq!(events[0].token.generation, generation);
}

#[test]
fn receiving_goes_through_registered_io() {
    let mut d = driver();
    let op = IocpOp::Recv {
        fd: IoFd::Raw { handle: socket(40) },
        buf: heap_buffer(0x5000, 64),
        buf_offset: 4,
    };
    let (user_data, generation, step, asked) = submit(&mut d, op, &mut |ask| match ask {
        SubmitAsk::Rio {
            ask: RioAsk::CreateRq { config },
        } => {
            assert_eq!(config.socket, 40);
            assert_eq!(config.max_outstanding_recvs, 64);
            ok(500)
        }
        SubmitAsk::Rio {
            ask: RioAsk::Register { range },
        } => {
            assert_eq!(range.ptr, 0x5000);
            assert_eq!(range.len, 64);
            ok(600)
        }
        _ => ok(1),
    });
    assert!(matches!(step, SubmitStep::Done { .. }));
    assert_eq!(asked.len(), 3);
    match asked[2] {
        SubmitAsk::Rio {
            ask: RioAsk::Receive { rq, buf, .. },
        } => {
            assert_eq!(rq.id, 500);
            assert_eq!(buf.buffer_id.id, 600);
            assert_eq!((buf.offset, buf.length), (4, 60));
        }
        _ => panic!("a receive request"),
    }
    assert_eq!(d.rio.outstanding_count, 1);
    let context = context_of(&asked);
    let res = RioResult {
        status: 0,
        bytes_transferred: 12,
        request_context: context,
    };
    match d.rio.handle_one(&mut d.table, &res, any_peer()) {
        OneStep::Handled { completed } => assert!(completed),
        _ => panic!("an operation"),
    }
    let events = drained(&mut d);
    assert_eq!(events.len(), 1);
    assert_eq!(events[0].res, 12);
    assert_eq!(events[0].token.generation, generation);
    let record = d.table.completions.take_record(events[0].token).unwrap();
    assert_eq!(record.payload, Some(77));
    assert_eq!(events[0].token.user_data, user_data);
}

#[test]
fn cancelled_requests_are_aborted_and_late_reports_ignored() {
    let mut d = driver();
    let op = IocpOp::Recv {
        fd: IoFd::Raw { handle: socket(40) },
        buf: heap_buffer(0x5000, 64),
        buf_offset: 0,
    };
    let (user_data, _, _, asked) = submit(&mut d, op, &mut |_| ok(9));
    let context = context_of(&asked);
    let action: CancelAction = d.cancel_op_internal(user_data);
    assert!(action.io.is_none() && action.timer.is_none());
    let events = drained(&mut d);
    assert_eq!(events.len(), 1);
    assert_eq!(events[0].res, -995, "cancelled op should return aborted");
    // The slot is used again before the report on the first operation comes.
    let op = IocpOp::Recv {
        fd: IoFd::Raw { handle: socket(40) },
        buf: heap_buffer(0x6000, 64),
        buf_offset: 0,
    };
    let (again, generation, _, _) = submit(&mut d, op, &mut |_| ok(9));
    assert_eq!(again, user_data);
    assert_eq!(generation, 1);
    let res = RioResult {
        status: 0,
        bytes_transferred: 4,
        request_context: context,
    };
    let _ = d.rio.handle_one(&mut d.table, &res, any_peer());
    assert!(drained(&mut d).is_empty());
    assert!(d.table.ops.contains(again));
}

#[test]
fn sockets_without_room_fall_back_to_the_port() {
    let mut d = driver();
    let op = IocpOp::Send {
        fd: IoFd::Raw { handle: socket(40) },
        buf: heap_buffer(0x5000, 64),
        buf_offset: 4,
    };
    let mut reply = |ask: &SubmitAsk| match ask {
        SubmitAsk::Rio {
            ask: RioAsk::CreateRq { .. },
        } => refused(10055),
        SubmitAsk::WsaSend { .. } => refused(997),
        _ => ok(1),
    };
    let (user_data, _, step, asked) = submit(&mut d, op, &mut reply);
    assert!(matches!(step, SubmitStep::Done { .. }));
    assert_eq!(
        asked[1..],
        [
            SubmitAsk::Associate {
                handle: 40,
                port: 7
            },
            SubmitAsk::WsaSend {
                socket: 40,
                ptr: 0x5000,
                start: 4,
                len: 60
            }
        ]
    );
    assert_eq!(d.rio.sockets.get((1, 40, 5)).inflight, 1);
    // The next transfer does not try registered I/O, and the socket is not associated
    // again.
    let (_, _, _, asked) = submit(&mut d, op, &mut reply);
    assert_eq!(asked.len(), 1);
    // While the system works on them the socket waits to be cleaned up.
    d.handle_control_completion(Some(DriverControlCommand::SocketCleanup {
        handle: (1, 40, 5),
        registered_fd: None,
    }));
    assert_eq!(d.deferred_socket_cleanup.len(), 1);
    let step = d.process_completion(user_data, true, None, 60);
    assert!(matches!(step, CompletionStep::Done { .. }));
    assert_eq!(d.deferred_socket_cleanup.len(), 1);
    let step = d.process_completion(1, false, Some(64), 0);
    assert!(matches!(step, CompletionStep::Done { .. }));
    assert_eq!(d.deferred_socket_cleanup.len(), 0);
    assert!(!d.rio.sockets.is_iocp_fallback((1, 40, 5)));
    let events = drained(&mut d);
    assert_eq!((events[0].res, events[1].res), (60, -64));
}

#[test]
fn other_failures_leave_the_slot_reserved() {
    let mut d = driver();
    let op = IocpOp::Send {
        fd: IoFd::Raw { handle: socket(40) },
        buf: heap_buffer(0x5000, 64),
        buf_offset: 0,
    };
    let (user_data, _, step, _) = submit(&mut d, op, &mut |ask| match ask {
        SubmitAsk::Rio {
            ask: RioAsk::Send { .. },
        } => refused(10022),
        _ => ok(1),
    });
    match step {
        SubmitStep::Failed {
            kind, code, status, ..
        } => {
            assert_eq!(kind, DriverErrorKind::Submission);
            assert_eq!(code, Some(10022));
            assert_eq!(status, SubmitStatus::Void);
        }
        _ => panic!("refused"),
    }
    assert!(drained(&mut d).is_empty());
    let first = d.submit(user_data, Some(op), None);
    let (step, asked) = run(&mut d, first, 0, &mut |_| ok(1));
    assert!(matches!(step, SubmitStep::Done { .. }));
    assert_eq!(asked.len(), 1);
}

#[test]
fn sends_to_an_address_take_it_from_the_slots() {
    let mut d = driver();
    let op = IocpOp::SendTo {
        fd: IoFd::Raw { handle: socket(40) },
        buf: heap_buffer(0x5000, 64),
        buf_offset: 0,
        addr: any_peer(),
        addr_ptr: 0x10_0040,
    };
    let (_, _, step, asked) = submit(&mut d, op, &mut |ask| match ask {
        SubmitAsk::Rio {
            ask: RioAsk::Register { range },
        } => ok(range.ptr as u64),
        _ => ok(3),
    });
    assert!(matches!(step, SubmitStep::Done { .. }));
    match asked.last() {
        Some(SubmitAsk::Rio {
            ask: RioAsk::SendEx { data, addr, .. },
        }) => {
            assert_eq!(data.length, 64);
            assert_eq!(addr.buffer_id.id, 0x10_0000);
            assert_eq!((addr.offset, addr.length), (0x40, 28));
        }
        _ => panic!("a send with an address"),
    }
    let outside = IocpOp::SendTo {
        fd: IoFd::Raw { handle: socket(40) },
        buf: heap_buffer(0x5000, 64),
        buf_offset: 0,
        addr: any_peer(),
        addr_ptr: 0x40,
    };
    let (_, _, step, _) = submit(&mut d, outside, &mut |_| ok(3));
    assert!(matches!(step, SubmitStep::Failed { .. }));
}

#[test]
fn datagrams_come_from_the_receive_pool() {
    let mut d = driver();
    let op = IocpOp::UdpRecv {
        fd: IoFd::Raw { handle: socket(50) },
        buf: heap_buffer(0x5000, 100),
        buf_offset: 10,
    };
    let mut next = 100u64;
    let mut reply = |_: &SubmitAsk| {
        next += 1;
        ok(next)
    };
    let (user_data, _, step, asked) = submit(&mut d, op, &mut reply);
    assert!(matches!(step, SubmitStep::Done { .. }));
    assert!(d.rio.outstanding_count > 0 || asked.len() > 4);
    assert!(d.table.ops.slots[user_data].platform.rio_pool_waiting);
    // The operation leaves the line when it is cancelled.
    let action = d.cancel_op_internal(user_data);
    assert_eq!(action.pools.len(), 1);
    let events = drained(&mut d);
    assert_eq!(events[0].res, -995);
}

#[test]
fn datagrams_reach_the_operation_and_chunks_come_back() {
    let mut d = driver();
    let op = IocpOp::UdpRecv {
        fd: IoFd::Raw { handle: socket(50) },
        buf: heap_buffer(0x5000, 100),
        buf_offset: 10,
    };
    let mut next = 100u64;
    let mut reply = |_: &SubmitAsk| {
        next += 1;
        ok(next)
    };
    let (user_data, _, _, asked) = submit(&mut d, op, &mut reply);
    let context = asked
        .iter()
        .find_map(|ask| match ask {
            SubmitAsk::Rio {
                ask:
                    RioAsk::Pool {
                        ask: PoolAsk::Receive { context, .. },
                        ..
                    },
            } => Some(*context),
            _ => None,
        })
        .expect("a request");
    let before = d.rio.outstanding_count;
    let res = RioResult {
        status: 0,
        bytes_transferred: 30,
        request_context: context,
    };
    let (actor, first) = match d.rio.handle_one(&mut d.table, &res, any_peer()) {
        OneStep::Pool { actor, step } => (actor, step),
        other => panic!("{other:?}"),
    };
    let mut step = first;
    let submissions = loop {
        step = match step {
            PoolStep::Next { task } => d.rio.pool_advance(actor, task, &mut d.table),
            PoolStep::Ask { task, .. } => d.rio.pool_answer(actor, task, ok(9_999)),
            PoolStep::Done { task } => break task.submissions,
            PoolStep::Failed { failure, .. } => panic!("{failure:?}"),
        };
    };
    assert!(d.rio.finish_pool_completion(actor, submissions).is_empty());
    assert_eq!(d.rio.outstanding_count, before - 1 + submissions);
    let events = drained(&mut d);
    assert_eq!((events[0].token.user_data, events[0].res), (user_data, 30));
    match d.table.take_deliveries().as_slice() {
        [Delivery::Copy { chunk, start, copied, .. }] => {
            assert_eq!((*start, *copied), (10, 30));
            assert!(d.rio.recycle_chunk(actor, *chunk));
            assert!(!d.rio.recycle_chunk(actor, *chunk));
        }
        other => panic!("{other:?}"),
    }
}

#[test]
fn connecting_binds_first() {
    let mut d = driver();
    let op = IocpOp::Connect {
        fd: IoFd::Raw { handle: socket(60) },
        addr: any_peer(),
    };
    let (user_data, _, step, asked) = submit(&mut d, op, &mut |ask| match ask {
        SubmitAsk::ConnectEx { .. } => refused(997),
        _ => ok(1),
    });
    assert!(matches!(step, SubmitStep::Done { .. }));
    assert_eq!(
        asked,
        vec![
            SubmitAsk::Associate {
                handle: 60,
                port: 7
            },
            SubmitAsk::SocketName { socket: 60 },
            SubmitAsk::Bind {
                socket: 60,
                addr: SocketAddr::V4(SocketAddrV4 {
                    ip: [0, 0, 0, 0],
                    port: 0
                })
            },
            SubmitAsk::ConnectEx {
                socket: 60,
                addr: any_peer()
            }
        ]
    );
    match d.process_completion(user_data, true, None, 0) {
        CompletionStep::Ask { ask, work } => {
            assert_eq!(ask, CompletionAsk::UpdateConnect { socket: 60 });
            let answer = CompletionAnswer {
                error: Some(10057),
                name: None,
            };
            assert!(matches!(
                d.answer_completion(work, answer),
                CompletionStep::Done { .. }
            ));
        }
        _ => panic!("an update of the context"),
    }
    assert_eq!(drained(&mut d)[0].res, -10057);
}

#[test]
fn accepting_gives_the_socket_and_the_peer() {
    let mut d = driver();
    let op = IocpOp::Accept {
        fd: IoFd::Raw { handle: socket(70) },
        accept_socket: 71,
    };
    let (user_data, _, _, asked) = submit(&mut d, op, &mut |_| ok(1));
    assert_eq!(
        asked.last(),
        Some(&SubmitAsk::AcceptEx {
            listen: 70,
            accept: 71,
            section_len: 144
        })
    );
    match d.process_completion(user_data, true, None, 0) {
        CompletionStep::Ask { ask, work } => {
            assert_eq!(
                ask,
                CompletionAsk::UpdateAccept {
                    accept: 71,
                    listen: 70
                }
            );
            let (storage, len) = veloq_driver::iocp::net::socket_addr_to_storage(any_peer());
            let answer = CompletionAnswer {
                error: None,
                name: Some(storage.bytes[..len as usize].to_vec()),
            };
            let _ = d.answer_completion(work, answer);
        }
        _ => panic!("an update of the context"),
    }
    let events = drained(&mut d);
    assert_eq!(events[0].res, 71);
    let record = d.table.completions.take_record(events[0].token).unwrap();
    assert_eq!(
        record.peer,
        Some(any_peer()),
        "Remote addr should be populated"
    );
    // A listening socket that is known by its place only cannot be updated.
    let fds = register_files(&mut d, &vec![RegisterFd {
            handle: socket(70),
            owned: false,
            probe_error: None,
        }])
        .unwrap();
    let op = IocpOp::Accept {
        fd: fds[0],
        accept_socket: 72,
    };
    let (user_data, _, _, _) = submit(&mut d, op, &mut |_| ok(1));
    let _ = d.process_completion(user_data, true, None, 0);
    assert_eq!(drained(&mut d)[0].res, 0);
    // A failed update is an error without a number.
    let op = IocpOp::Accept {
        fd: IoFd::Raw { handle: socket(70) },
        accept_socket: 73,
    };
    let (user_data, _, _, _) = submit(&mut d, op, &mut |_| ok(1));
    if let CompletionStep::Ask { work, .. } = d.process_completion(user_data, true, None, 0) {
        let answer = CompletionAnswer {
            error: Some(5),
            name: None,
        };
        let _ = d.answer_completion(work, answer);
    }
    let events = drained(&mut d);
    assert_eq!(events[0].res, -1);
    let record = d.table.completions.take_record(events[0].token).unwrap();
    assert_eq!(record.detail, Some(Err(1)));
}

#[test]
fn files_are_read_through_the_port() {
    let mut d = driver();
    let op = IocpOp::ReadFixed {
        fd: IoFd::Raw {
            handle: IocpHandle::for_file(80),
        },
        buf: heap_buffer(0x5000, 64),
        buf_offset: 16,
        offset: 4096,
    };
    let (user_data, _, step, asked) = submit(&mut d, op, &mut |ask| match ask {
        SubmitAsk::Associate { .. } => refused(87),
        _ => refused(997),
    });
    assert!(matches!(step, SubmitStep::Done { .. }));
    assert_eq!(
        asked[1],
        SubmitAsk::ReadFile {
            handle: 80,
            ptr: 0x5000,
            start: 16,
            len: 48,
            offset: 4096
        }
    );
    let action = d.cancel_op_internal(user_data);
    assert_eq!(action.io, Some(80));
    assert!(drained(&mut d).is_empty());
    let _ = d.process_completion(user_data, false, Some(995), 0);
    assert_eq!(drained(&mut d)[0].res, -995);
    let missing = IocpOp::WriteFixed {
        fd: IoFd::Fixed { index: 9 },
        buf: heap_buffer(0x5000, 64),
        buf_offset: 0,
        offset: 0,
    };
    let (_, _, step, asked) = submit(&mut d, missing, &mut |_| ok(1));
    assert!(matches!(step, SubmitStep::Failed { .. }));
    assert!(asked.is_empty());
}

#[test]
fn blocking_calls_go_to_the_thread_pool() {
    let mut d = driver();
    let op = IocpOp::Fallocate {
        fd: IoFd::Raw {
            handle: IocpHandle::for_file(80),
        },
        mode: 1,
        offset: 2,
        len: 3,
    };
    let (user_data, generation, step, asked) = submit(&mut d, op, &mut |_| ok(1));
    assert!(matches!(step, SubmitStep::Done { .. }));
    match asked[0] {
        SubmitAsk::Offload { task } => {
            assert_eq!(
                task.call,
                BlockingCall::Fallocate {
                    handle: 80,
                    mode: 1,
                    offset: 2,
                    len: 3
                }
            );
            assert_eq!((task.port, task.user_data), (7, user_data));
        }
        _ => panic!("a task"),
    }
    d.set_blocking_result(user_data, generation, Ok(21));
    let _ = d.process_completion(user_data, true, None, 0);
    assert_eq!(drained(&mut d)[0].res, 21);
    let (_, _, step, _) = submit(&mut d, op, &mut |_| refused(0));
    match step {
        SubmitStep::Failed { status, .. } => assert_eq!(status, SubmitStatus::InFlight),
        _ => panic!("refused"),
    }
    assert_eq!(drained(&mut d)[0].res, -1);
}

#[test]
fn background_operations_end_without_a_word() {
    let mut d = driver();
    let op = IocpOp::Close {
        fd: IoFd::Raw {
            handle: IocpHandle::for_file(80),
        },
    };
    let first = d.submit_background(op, None);
    let (step, _) = run(&mut d, first, 0, &mut |_| ok(1));
    assert!(matches!(step, SubmitStep::Done { .. }));
    let _ = d.process_completion(0, true, None, 0);
    assert!(drained(&mut d).is_empty());
    assert!(!d.table.ops.contains(0));
}

#[test]
fn wakeups_are_posted_and_lost_packets_give_the_operation_back() {
    let mut d = driver();
    let (user_data, _, step, asked) = submit(&mut d, IocpOp::Wakeup, &mut |_| ok(1));
    assert!(matches!(step, SubmitStep::Done { .. }));
    assert_eq!(asked, vec![SubmitAsk::Notify { port: 7, user_data }]);
    let status = CompletionStatus::Completed {
        bytes: 0,
        key: user_data,
        overlapped: None,
        success: true,
        error_code: None,
    };
    match d.get_completion(status) {
        Ok(Packet::Op {
            user_data: found, ..
        }) => assert_eq!(found, user_data),
        _ => panic!("the operation's packet"),
    }
    let (_, _, step, _) = submit(&mut d, IocpOp::Wakeup, &mut |_| refused(6));
    match step {
        SubmitStep::Failed { op, code, .. } => {
            assert!(matches!(op, Some(IocpOp::Wakeup)));
            assert_eq!(code, Some(6));
        }
        _ => panic!("refused"),
    }
}

#[test]
fn packets_are_told_apart() {
    let mut d = driver();
    d.is_notified = true;
    let packet = |key: usize, overlapped: Option<usize>, success: bool, error_code: Option<u32>| {
        CompletionStatus::Completed {
            bytes: 3,
            key,
            overlapped,
            success,
            error_code,
        }
    };
    assert_eq!(
        d.get_completion(CompletionStatus::Timeout),
        Ok(Packet::Nothing)
    );
    assert_eq!(
        d.get_completion(packet(RIO_EVENT_KEY, None, true, None)),
        Ok(Packet::Rio)
    );
    assert!(d.is_notified);
    assert_eq!(
        d.get_completion(packet(WAKEUP_USER_DATA, None, true, None)),
        Ok(Packet::Wakeup)
    );
    assert!(!d.is_notified);
    assert_eq!(
        d.get_completion(packet(0, None, false, Some(6))),
        Err(IocpError::CompletionWait)
    );
    assert!(matches!(
        d.get_completion(packet(0, Some(5_000), true, None)),
        Ok(Packet::Op { user_data, .. }) if user_data == usize::MAX - 2
    ));
}

#[test]
fn closing_cancels_what_is_in_flight() {
    let mut d = driver();
    let op = IocpOp::Recv {
        fd: IoFd::Raw { handle: socket(40) },
        buf: heap_buffer(0x5000, 64),
        buf_offset: 0,
    };
    let (user_data, _, _, _) = submit(&mut d, op, &mut |_| ok(9));
    match d.begin_close(CloseMode::Strict { timeout: 10 }) {
        CloseStep::Drain { shutdown, timeout } => {
            assert_eq!(shutdown.targets, vec![user_data]);
            assert_eq!(timeout, 10);
        }
        _ => panic!("drain first"),
    }
    assert_eq!(drained(&mut d)[0].res, -995);
    match d.submit(user_data, Some(op), None) {
        SubmitStep::Failed { kind, code, .. } => {
            assert_eq!(kind, DriverErrorKind::System);
            assert_eq!(code, Some(995));
        }
        _ => panic!("closed"),
    }
    assert_eq!(
        IocpDriver::<u32>::drain_pending_iocp(0, 1, 11, 11),
        Err(DriverErrorKind::Timeout)
    );
    assert_eq!(
        IocpDriver::<u32>::drain_pending_iocp(1, 1, 11, 11),
        Ok(false)
    );
    assert_eq!(d.close_next(0, 1, 10, 11, 0, 10), Ok(CloseAction::Wait));
    assert_eq!(
        d.close_next(0, 1, 11, 11, 0, 10),
        Err(DriverErrorKind::Timeout)
    );
    assert!(!d.closed);
    // The request of the receive is still outstanding.
    assert_eq!(d.close_next(1, 1, 11, 11, 0, 10), Ok(CloseAction::DrainRio));
    d.rio.drain_batch(&vec![RioResult {
        status: -995,
        bytes_transferred: 0,
        request_context: 0,
    }]);
    assert_eq!(
        d.close_next(1, 1, 11, 11, 0, 10),
        Ok(CloseAction::Closed { cq: Some(RioCq { id: 99 }) })
    );
    assert!(d.closed);
    assert!(matches!(
        d.begin_close(CloseMode::Fast),
        CloseStep::AlreadyClosed
    ));
}

#[test]
fn strict_close_waits_for_registered_io() {
    let mut d = driver();
    d.rio.outstanding_count = 1;
    assert!(matches!(
        d.begin_close(CloseMode::Strict { timeout: 10 }),
        CloseStep::Drain { timeout: 10, .. }
    ));
    assert_eq!(d.close_next(0, 0, 50, 11, 9, 10), Ok(CloseAction::DrainRio));
    assert_eq!(
        d.close_next(0, 0, 50, 11, 10, 10),
        Err(DriverErrorKind::Completion)
    );
    assert!(!d.closed);
    let result = RioResult {
        status: 0,
        bytes_transferred: 0,
        request_context: 0,
    };
    d.rio.drain_batch(&vec![result]);
    assert_eq!(
        d.close_next(0, 0, 50, 11, 10, 10),
        Ok(CloseAction::Closed { cq: Some(RioCq { id: 99 }) })
    );
    assert!(d.closed);
}

#[test]
fn packets_count_toward_the_end_of_a_close() {
    let op = Packet::Op {
        user_data: 3,
        success: true,
        error_code: None,
        bytes: 8,
    };
    assert_eq!(op.drained(5), 1);
    assert_eq!(Packet::Control.drained(5), 1);
    assert_eq!(Packet::Rio.drained(5), 5);
    assert_eq!(Packet::Rio.drained(0), 0);
    assert_eq!(Packet::Nothing.drained(5), 0);
    assert_eq!(Packet::Wakeup.drained(5), 0);
}

#[test]
fn chunks_that_failed_cool_down() {
    let mut d = driver();
    assert_eq!(d.register_chunk(3, 1_000), Ok(true));
    assert_eq!(
        d.chunk_registered(3, 0, 1_000),
        Err(DriverErrorKind::Registration)
    );
    assert_eq!(
        d.register_chunk(3, 1_001),
        Err(DriverErrorKind::Registration)
    );
    assert_eq!(d.register_chunk(3, 1_000_000_000), Ok(true));
    assert_eq!(d.chunk_registered(3, 44, 1_000_000_000), Ok(()));
    assert_eq!(d.debug_chunk_register_attempts(), 2);
}

#[test]
fn connections_that_succeed() {
    let mut d = driver();
    let op = IocpOp::Connect {
        fd: IoFd::Raw { handle: socket(61) },
        addr: any_peer(),
    };
    let (user_data, _, _, _) = submit(&mut d, op, &mut |_| ok(1));
    match d.process_completion(user_data, true, None, 0) {
        CompletionStep::Ask { ask, work } => {
            assert_eq!(ask, CompletionAsk::UpdateConnect { socket: 61 });
            let answer = CompletionAnswer {
                error: None,
                name: None,
            };
            assert!(matches!(
                d.answer_completion(work, answer),
                CompletionStep::Done { .. }
            ));
        }
        _ => panic!("an update of the context"),
    }
    assert_eq!(drained(&mut d)[0].res, 0);
}

fn file(handle: usize, owned: bool) -> RegisterFd {
    RegisterFd {
        handle: IocpHandle::for_file(handle),
        owned,
        probe_error: Some(10038),
    }
}

#[test]
fn places_are_emptied_once_and_used_again() {
    let mut d = driver();
    let fds = register_files(&mut d, &vec![file(12, true), file(13, false), file(14, true)])
        .unwrap();
    let place = |index: u32| IoFd::Fixed { index };
    assert_eq!(fds, vec![place(0), place(1), place(2)]);
    let out = d.unregister_files(&vec![place(1), place(0), place(1)]);
    assert_eq!(out.closes, vec![CloseCall::Nothing, CloseCall::Handle(12)]);
    assert_eq!(d.files.free, vec![1, 0]);
    let out = d.unregister_files(&vec![place(0), place(1), place(77)]);
    assert!(out.closes.is_empty() && out.released.is_empty());
    assert_eq!(d.files.free, vec![1, 0]);
    assert_eq!(
        d.files.entries,
        vec![None, None, Some(RegisteredHandle::Owned(IocpHandle::for_file(14)))]
    );
    // The place that was emptied last is used first; what is registered stays.
    let more = vec![file(15, false), file(16, true), file(17, false)];
    assert_eq!(
        register_files(&mut d, &more).unwrap(),
        vec![place(0), place(1), place(3)]
    );
    assert_eq!(
        d.files.entries,
        vec![
            Some(RegisteredHandle::Weak(IocpHandle::for_file(15))),
            Some(RegisteredHandle::Owned(IocpHandle::for_file(16))),
            Some(RegisteredHandle::Owned(IocpHandle::for_file(14))),
            Some(RegisteredHandle::Weak(IocpHandle::for_file(17))),
        ]
    );
    assert!(d.files.free.is_empty());
}

#[test]
fn sockets_behind_file_handles_get_generations() {
    let mut d = driver();
    let found = |handle: usize| RegisterFd {
        handle: IocpHandle::for_file(handle),
        owned: false,
        probe_error: None,
    };
    let unclear = RegisterFd {
        handle: IocpHandle::for_file(23),
        owned: true,
        probe_error: Some(10022),
    };
    let files = vec![found(21), found(22), unclear, file(24, true), file(25, false)];
    let (mut generations, mut tags) = (SocketGenerations::new(), ThreadTags::new());
    assert_eq!(
        d.register_files(&files, &mut generations, &mut tags),
        Err(DriverErrorKind::InvalidInput)
    );
    // Those after the unclear one stay behind.
    assert_eq!(
        close_rest(&files),
        vec![CloseCall::Handle(24), CloseCall::Nothing]
    );
    assert!(close_rest(&vec![file(24, true)]).is_empty());
    // What came before the unclear one stays registered.
    let made = |handle: usize, counter: u64| IocpHandle::Socket {
        handle,
        generation: (1 << 32) | counter,
    };
    assert_eq!(
        d.files.entries,
        vec![
            Some(RegisteredHandle::Weak(made(21, 1))),
            Some(RegisteredHandle::Weak(made(22, 2))),
        ]
    );
    assert!(d.rio.sockets.get(actor_key(made(22, 2))).registered);
    assert!(!d.rio.sockets.get(actor_key(made(22, 3))).registered);
    assert_eq!((generations.tag, generations.counter), (1, 3));
    assert_eq!(tags.next, 2);
    // Another driver on the same thread goes on counting, and another thread has its own
    // tag.
    let mut other = driver();
    let again = vec![found(21)];
    other.register_files(&again, &mut generations, &mut tags).unwrap();
    let mut there = SocketGenerations::new();
    other.register_files(&again, &mut there, &mut tags).unwrap();
    assert_eq!(
        other.files.entries,
        vec![
            Some(RegisteredHandle::Weak(made(21, 3))),
            Some(RegisteredHandle::Weak(IocpHandle::Socket {
                handle: 21,
                generation: (2 << 32) | 1,
            })),
        ]
    );
    assert_eq!((generations.counter, there.counter, tags.next), (4, 2, 3));
}

#[test]
fn operations_hand_out_the_handles_they_made() {
    let (mut generations, mut tags) = (SocketGenerations::new(), ThreadTags::new());
    let accept = IocpOp::Accept {
        fd: IoFd::Raw { handle: socket(40) },
        accept_socket: 50,
    };
    for counter in [1u64, 2] {
        assert_eq!(
            accept.map_completion(50, &mut generations, &mut tags),
            OpOutput::Handle {
                handle: IocpHandle::Socket {
                    handle: 50,
                    generation: (1 << 32) | counter,
                }
            }
        );
    }
    let open = IocpOp::Open {
        path_ptr: 0x7000,
        flags: 0,
        mode: 0,
    };
    assert_eq!(
        open.map_completion(60, &mut generations, &mut tags),
        OpOutput::Handle {
            handle: IocpHandle::File { handle: 60 }
        }
    );
    let timeout = IocpOp::Timeout { nanos: 5 };
    assert_eq!(
        timeout.map_completion(7, &mut generations, &mut tags),
        OpOutput::Number { value: 7 }
    );
    assert_eq!((generations.tag, generations.counter, tags.next), (1, 3, 2));
}


#[test]
fn sockets_that_lose_their_places_end_registered_io() {
    let mut d = driver();
    let register = |handle: IocpHandle| RegisterFd {
        handle,
        owned: true,
        probe_error: None,
    };
    let fds = register_files(&mut d, &vec![register(socket(40)), register(socket(41))])
        .unwrap();
    for fd in &fds {
        let op = IocpOp::Send {
            fd: *fd,
            buf: heap_buffer(0x5000, 64),
            buf_offset: 0,
        };
        submit(&mut d, op, &mut |_| ok(9));
    }
    assert!(d.rio.find_actor(actor_key(socket(40))).is_some());
    let out = d.unregister_files(&vec![fds[0]]);
    assert_eq!(out.closes, vec![CloseCall::Socket(40)]);
    assert!(d.rio.find_actor(actor_key(socket(40))).is_none());
    assert!(d.rio.find_actor(actor_key(socket(41))).is_some());
    assert!(d.files.entries[1].is_some());
}
