//! The smaller parts of the IOCP driver.
use veloq_driver::iocp::buffer::{IocpBuffer, MemoryRange};
use veloq_driver::iocp::config::{
    BufferRegistrationMode, CloseCall, IocpConfig, IocpHandle, RegisteredHandle,
    SocketGenerations, ThreadTags, INVALID_HANDLE_VALUE,
};
use veloq_driver::iocp::error::{
    sanitize_field, structured_line, IocpError, IocpErrorContext, RioError,
};
use veloq_driver::iocp::net::{
    socket_addr_to_storage, to_socket_addr, SockAddrIn, SockAddrIn6, Socket, SocketOption,
    SocketRequest, AF_INET6, SOCKET_FLAGS,
};
use veloq_driver::iocp::rio::control::{batch_of, Batch};
use veloq_driver::iocp::rio::kernel::{
    RioBufferId, RioCq, RioFunction, RioKernel, RioResult, RioRq, RioTable,
    MAX_RIO_RESULTS,
    RIO_CORRUPT_CQ,
};
use veloq_driver::iocp::rio::lifecycle::{
    DrainAction, DrainBatch, DropAction, RIO_REAPER_DRAIN_TIMEOUT,
};
use veloq_driver::iocp::rio::pool::{Answer, RioFailure};
use veloq_driver::iocp::rio::registry::{
    Lookup, Registrand, RioRegistry, REGISTER_FAILURE_RETRY_COOLDOWN,
};
use veloq_driver::iocp::rio::sockets::{should_demote_socket, Sockets, WSAENOBUFS};
use veloq_driver::iocp::rio::state::RioState;
use veloq_driver::iocp::timers::calculate_wait_ms;
use veloq_driver::iocp::win32::{
    overlapped_result, CompletionStatus, IoCompletionPort, IocpWaker, OwnedHandle,
    ERROR_INVALID_PARAMETER, ERROR_IO_PENDING, SOCKET_ERROR, WAIT_TIMEOUT,
};
use veloq_driver::sockaddr::{ByteOrder, SocketAddr, SocketAddrV4, SocketAddrV6, AF_INET};
use veloq_driver::uring::op::PoolKind;
use windows_sys::Win32::Foundation as foundation;
use windows_sys::Win32::Networking::WinSock as winsock;

fn native() -> ByteOrder {
    if u16::from_ne_bytes([1, 0]) == 1 {
        ByteOrder::Little
    } else {
        ByteOrder::Big
    }
}

fn buffer(kind: PoolKind, chunk_id: u16) -> IocpBuffer {
    IocpBuffer {
        ptr: 0x4000,
        capacity: 512,
        len: 300,
        pool_kind: kind,
        chunk_id,
        offset: 1024,
        cookie: 7,
    }
}

#[test]
fn windows_numbers() {
    assert_eq!(AF_INET, winsock::AF_INET);
    assert_eq!(AF_INET6, winsock::AF_INET6);
    assert_eq!(WAIT_TIMEOUT, foundation::WAIT_TIMEOUT);
    assert_eq!(ERROR_INVALID_PARAMETER, foundation::ERROR_INVALID_PARAMETER);
    assert_eq!(ERROR_IO_PENDING, foundation::ERROR_IO_PENDING);
    assert_eq!(SOCKET_ERROR, winsock::SOCKET_ERROR);
    assert_eq!(WSAENOBUFS, winsock::WSAENOBUFS);
    assert_eq!(RIO_CORRUPT_CQ, winsock::RIO_CORRUPT_CQ);
    assert_eq!(
        SOCKET_FLAGS,
        winsock::WSA_FLAG_OVERLAPPED | winsock::WSA_FLAG_REGISTERED_IO
    );
}

#[test]
fn windows_sockets() {
    let request = |family: u16, ty: i32, protocol: i32| SocketRequest {
        family,
        ty,
        protocol,
        flags: SOCKET_FLAGS,
    };
    assert_eq!(
        Socket::new_tcp_v4(),
        request(winsock::AF_INET, winsock::SOCK_STREAM, winsock::IPPROTO_TCP)
    );
    assert_eq!(
        Socket::new_tcp_v6(),
        request(winsock::AF_INET6, winsock::SOCK_STREAM, winsock::IPPROTO_TCP)
    );
    assert_eq!(
        Socket::new_udp_v4(),
        request(winsock::AF_INET, winsock::SOCK_DGRAM, winsock::IPPROTO_UDP)
    );
    assert_eq!(
        Socket::new_udp_v6(),
        request(winsock::AF_INET6, winsock::SOCK_DGRAM, winsock::IPPROTO_UDP)
    );
    assert!(Socket::created(winsock::INVALID_SOCKET).is_err());
    assert_eq!(Socket::created(9), Ok(Socket { raw: 9 }));
    let option = |level: i32, name: i32, value: i32| SocketOption { level, name, value };
    assert_eq!(
        Socket::set_nodelay(true),
        option(winsock::IPPROTO_TCP, winsock::TCP_NODELAY, 1)
    );
    assert_eq!(
        Socket::set_recv_buffer_size(10),
        option(winsock::SOL_SOCKET, winsock::SO_RCVBUF, 10)
    );
    assert_eq!(
        Socket::set_send_buffer_size(11),
        option(winsock::SOL_SOCKET, winsock::SO_SNDBUF, 11)
    );
    assert_eq!(
        Socket::set_reuse_address(true),
        option(winsock::SOL_SOCKET, winsock::SO_REUSEADDR, 1)
    );
    assert_eq!(
        Socket::set_keepalive(false),
        option(winsock::SOL_SOCKET, winsock::SO_KEEPALIVE, 0)
    );
    assert_eq!(
        Socket::set_ttl(9),
        option(winsock::IPPROTO_IP, winsock::IP_TTL, 9)
    );
    assert_eq!(
        Socket::set_broadcast(true),
        option(winsock::SOL_SOCKET, winsock::SO_BROADCAST, 1)
    );
}

#[test]
fn windows_addresses() {
    let v4 = SocketAddrV4 {
        ip: [1, 2, 3, 4],
        port: 80,
    };
    let raw = SockAddrIn::new(native(), &v4);
    assert_eq!(raw.to_std(), v4);
    let mut ip: [u8; 16] = [0; 16];
    ip[3] = 9;
    let v6 = SocketAddrV6 {
        ip,
        port: 8080,
        flowinfo: 3,
        scope_id: 4,
    };
    let raw = SockAddrIn6::new(native(), &v6);
    assert_eq!(raw.to_std(native()), v6);
    for addr in [SocketAddr::V4(v4), SocketAddr::V6(v6)] {
        let (storage, len) = socket_addr_to_storage(addr);
        assert_eq!(to_socket_addr(&storage.bytes[..len as usize]), Ok(addr));
        assert_eq!(
            Socket::local_addr(false, &storage.bytes[..len as usize]),
            Ok(addr)
        );
        assert!(Socket::local_addr(true, &storage.bytes).is_err());
    }
    assert_eq!(to_socket_addr(&[1]), Err(IocpError::InvalidInput));
}

#[test]
fn addresses_are_read_whatever_family_they_name() {
    let mut bytes: Vec<u8> = vec![0; 16];
    bytes[0] = 77;
    bytes[2] = 0x1f;
    bytes[3] = 0x90;
    bytes[4] = 10;
    bytes[7] = 9;
    assert!(to_socket_addr(&bytes).is_err());
    let v4 = SocketAddrV4 {
        ip: [10, 0, 0, 9],
        port: 8080,
    };
    assert_eq!(SockAddrIn { bytes }.to_std(), v4);

    let mut bytes: Vec<u8> = vec![0; 28];
    bytes[2] = 1;
    bytes[4] = 5;
    bytes[8] = 0xfe;
    bytes[23] = 1;
    bytes[25] = 2;
    let mut ip: [u8; 16] = [0; 16];
    ip[0] = 0xfe;
    ip[15] = 1;
    let v6 = SocketAddrV6 {
        ip,
        port: 256,
        flowinfo: 5,
        scope_id: 512,
    };
    assert_eq!(SockAddrIn6 { bytes }.to_std(ByteOrder::Little), v6);
}

#[test]
fn completion_ports() {
    assert_eq!(IoCompletionPort::new(0, 5), Err(5));
    assert_eq!(IoCompletionPort::new(6, 5).map(|p| p.handle.as_raw()), Ok(6));
    assert_eq!(IoCompletionPort::associate(0, 6), Err(6));
    assert_eq!(IoCompletionPort::associate(0, ERROR_INVALID_PARAMETER), Ok(()));
    assert_eq!(IoCompletionPort::associate(1, 6), Ok(()));
    assert_eq!(IoCompletionPort::post(0, 8), Err(8));
    assert_eq!(IoCompletionPort::post(1, 8), Ok(()));
    assert_eq!(
        IoCompletionPort::get_status(0, WAIT_TIMEOUT, 0, 0, None),
        Ok(CompletionStatus::Timeout)
    );
    assert_eq!(IoCompletionPort::get_status(0, 6, 0, 0, None), Err(6));
    assert_eq!(
        IoCompletionPort::get_status(0, 64, 3, 2, Some(0x100)),
        Ok(CompletionStatus::Completed {
            bytes: 3,
            key: 2,
            overlapped: Some(0x100),
            success: false,
            error_code: Some(64)
        })
    );
    assert_eq!(overlapped_result(true, ERROR_IO_PENDING), Ok(()));
    assert_eq!(overlapped_result(true, 64), Err(64));
    assert_eq!(overlapped_result(false, 64), Ok(()));
    assert!(OwnedHandle::from_raw(4).is_valid());
    assert!(!OwnedHandle::from_raw(0).is_valid());
    assert!(!OwnedHandle::from_raw(INVALID_HANDLE_VALUE).is_valid());
    let mut waker = IocpWaker { is_notified: false };
    assert!(waker.begin_wake());
    assert!(!waker.begin_wake());
}

#[test]
fn sockets_are_given_up_under_fresh_generations() {
    let mut tags = ThreadTags::new();
    let mut here = SocketGenerations::new();
    let first = Socket::created(9).unwrap();
    let second = Socket::created(9).unwrap();
    assert_eq!(
        first.into_owned_raw(&mut here, &mut tags),
        IocpHandle::Socket {
            handle: 9,
            generation: 0x1_0000_0001,
        }
    );
    assert_eq!((here.tag, here.counter, tags.next), (1, 2, 2));
    assert_eq!(
        second.into_owned_raw(&mut here, &mut tags),
        IocpHandle::Socket {
            handle: 9,
            generation: 0x1_0000_0002,
        }
    );
    assert_eq!((here.tag, here.counter, tags.next), (1, 3, 2));
    let mut there = SocketGenerations::new();
    let third = Socket::created(9).unwrap();
    assert_eq!(
        third.into_owned_raw(&mut there, &mut tags),
        IocpHandle::Socket {
            handle: 9,
            generation: 0x2_0000_0001,
        }
    );
    assert_eq!((there.tag, there.counter, tags.next), (2, 2, 3));
    assert_eq!(Socket::created(usize::MAX), Err(IocpError::Socket));
}

#[test]
fn handles_and_generations() {
    let mut tags = ThreadTags::new();
    let mut here = SocketGenerations::new();
    let mut there = SocketGenerations::new();
    let a = IocpHandle::for_socket(5, &mut here, &mut tags);
    let b = IocpHandle::for_socket(5, &mut here, &mut tags);
    let c = IocpHandle::for_socket(5, &mut there, &mut tags);
    assert_ne!(a, b);
    assert_ne!(a, c);
    assert_ne!(b, c);
    assert_eq!(a.as_socket(), 5);
    assert!(a.is_socket() && !a.is_file());
    assert_eq!(a.close(), CloseCall::Socket(5));
    let file = IocpHandle::for_file(8);
    assert_eq!(file.close(), CloseCall::Handle(8));
    assert_eq!(IocpHandle::for_file(INVALID_HANDLE_VALUE).close(), CloseCall::Nothing);
    assert_eq!(RegisteredHandle::Owned(file).on_drop(), CloseCall::Handle(8));
    assert_eq!(RegisteredHandle::Weak(file).on_drop(), CloseCall::Nothing);
    let config = IocpConfig::default();
    assert!(config.registration_mode.is_strict());
    let config = config.registration_mode(BufferRegistrationMode::Compatible);
    assert!(!config.registration_mode.is_strict());
}

#[test]
fn reports_fit_on_one_line() {
    assert_eq!(sanitize_field("a\nb\r\nc"), "a\\nb\\r\\nc");
    assert_eq!(sanitize_field("plain"), "plain");
    assert_eq!(
        structured_line(IocpErrorContext::Rio, "de\ntail", Some("so\rurce"), Some(-12)),
        "context=RIO operation failed; detail=de\\ntail; source=so\\rurce; os_error=-12"
    );
    assert_eq!(
        structured_line(IocpErrorContext::CompletionWait, "", None, None),
        "context=IOCP completion wait failed; detail=; source=none; os_error=none"
    );
    assert_eq!(
        structured_line(IocpErrorContext::Rio, "x", None, Some(i32::MIN)),
        "context=RIO operation failed; detail=x; source=none; os_error=-2147483648"
    );
    assert_eq!(IocpErrorContext::Rio.error(), IocpError::Rio);
}

#[test]
fn iocp_errors_in_words() {
    let iocp = [
        (IocpError::DriverInit, "IOCP driver initialization failed"),
        (IocpError::CompletionWait, "IOCP completion wait failed"),
        (IocpError::Submission, "IOCP operation submission failed"),
        (IocpError::Rio, "RIO operation failed"),
        (IocpError::ResolveFd, "failed to resolve IO handle"),
        (IocpError::Socket, "socket operation failed"),
        (IocpError::Win32, "Win32 API call failed"),
        (IocpError::InvalidInput, "invalid input"),
        (IocpError::InvalidState, "invalid internal state"),
        (IocpError::Internal, "internal error"),
    ];
    for (e, text) in iocp {
        assert_eq!(e.message(), text);
    }
    let rio = [
        (RioError::LibraryLoad, "RIO library or function pointers load failure"),
        (RioError::BufferRegistration, "failed to register memory buffer for RIO"),
        (RioError::CqCreation, "failed to create RIO completion queue"),
        (RioError::RqCreation, "failed to create RIO request queue"),
        (RioError::Datapath, "RIO datapath operation error"),
        (RioError::ResourceExhaustion, "RIO resource limit reached"),
        (RioError::NotSupported, "RIO not supported or initialized"),
        (RioError::Internal, "RIO internal inconsistency"),
    ];
    for (e, text) in rio {
        assert_eq!(e.message(), text);
    }
}

#[test]
fn waiting_ends_with_the_next_timer() {
    assert_eq!(calculate_wait_ms(100, None), 100);
    assert_eq!(calculate_wait_ms(100, Some(7_999_999)), 7);
    assert_eq!(calculate_wait_ms(5, Some(7_000_000)), 5);
    assert_eq!(calculate_wait_ms(u32::MAX, Some(u64::MAX)), u32::MAX);
}

#[test]
fn chunks_are_registered_once() {
    let mut r = RioRegistry::new(64);
    let buf = buffer(PoolKind::SlotBased, 3);
    let range = MemoryRange {
        ptr: 0x8000,
        len: 0x1000,
    };
    assert_eq!(r.resolve_buffer_id(&buf, None, 0), Lookup::Failed(RioError::Internal));
    let what = Registrand::Chunk { id: 3 };
    assert_eq!(
        r.resolve_buffer_id(&buf, Some(range), 0),
        Lookup::Register { what, range }
    );
    assert_eq!(r.finish_register_chunk(3, 0, 0), Err(RioError::BufferRegistration));
    assert_eq!(
        r.resolve_buffer_id(&buf, Some(range), REGISTER_FAILURE_RETRY_COOLDOWN - 1),
        Lookup::Failed(RioError::ResourceExhaustion)
    );
    assert_eq!(
        r.resolve_buffer_id(&buf, Some(range), REGISTER_FAILURE_RETRY_COOLDOWN),
        Lookup::Register { what, range }
    );
    let id = RioBufferId { id: 55 };
    assert_eq!(r.finish_register_chunk(3, 55, 0), Ok(id));
    assert_eq!(r.resolve_buffer_id(&buf, None, 0), Lookup::Known(id));
    let s = r.registration_stats;
    assert_eq!((s.chunk_register_attempts, s.chunk_register_success), (2, 1));
    assert_eq!(s.chunk_register_failures, 1);
    assert_eq!(s.chunk_register_skipped_recent_failure, 1);
    let request = RioRegistry::prepare_submission(id, &buf, 10, 290);
    assert_eq!((request.buffer_id, request.offset, request.length), (id, 1034, 290));
    // Registering the chunk anew gives up the old registration.
    assert_eq!(r.begin_register_chunk(3, 0), Ok(()));
    assert_eq!(r.flush_deregs(), vec![id]);
    assert_eq!(r.flush_deregs(), Vec::new());
    assert_eq!(r.cleanup_deregister(), vec![id]);
}

#[test]
fn heap_buffers_and_pages_are_registered_by_themselves() {
    let mut r = RioRegistry::new(64);
    let buf = buffer(PoolKind::Heap, 0);
    let key = match r.resolve_buffer_id(&buf, None, 5) {
        Lookup::Register {
            what: Registrand::Heap { key },
            range,
        } => {
            assert_eq!((range.ptr, range.len), (0x4000, 512));
            key
        }
        other => panic!("{other:?}"),
    };
    assert_eq!(r.finish_register_heap(key, 0, 5), Err(RioError::BufferRegistration));
    assert_eq!(
        r.resolve_buffer_id(&buf, None, 6),
        Lookup::Failed(RioError::ResourceExhaustion)
    );
    let id = RioBufferId { id: 9 };
    assert_eq!(r.finish_register_heap(key, 9, 7), Ok(id));
    assert_eq!(r.resolve_buffer_id(&buf, None, 8), Lookup::Known(id));
    let range = MemoryRange {
        ptr: 0x9000,
        len: 4096,
    };
    assert_eq!(r.ensure_page_reg(1, None), Lookup::Failed(RioError::Internal));
    assert_eq!(
        r.ensure_page_reg(1, Some(range)),
        Lookup::Register {
            what: Registrand::Page { index: 1 },
            range
        }
    );
    assert_eq!(
        r.finish_register_page(1, range, 0),
        Err(RioError::BufferRegistration)
    );
    let page = RioBufferId { id: 12 };
    assert_eq!(r.finish_register_page(1, range, 12), Ok(page));
    assert_eq!(r.ensure_page_reg(1, None), Lookup::Known(page));
    let mut all = r.cleanup_deregister();
    all.sort_by_key(|id| id.id);
    assert_eq!(all, vec![id, page]);
    let queue = r.create_rq(77, RioCq { id: 3 });
    assert_eq!((queue.socket, queue.max_outstanding_recvs), (77, 64));
    assert_eq!((queue.recv_cq.id, queue.send_cq.id), (3, 3));
}

#[test]
fn sockets_that_ran_out_of_room_fall_back() {
    let failure = |code: Option<i32>| RioFailure {
        error: RioError::Datapath,
        code,
    };
    assert!(should_demote_socket(&failure(Some(WSAENOBUFS))));
    assert!(!should_demote_socket(&failure(Some(10054))));
    assert!(!should_demote_socket(&failure(None)));
    let key = (1usize, 5usize, 1u64);
    let mut s = Sockets::new();
    s.maybe_mark_iocp_fallback(key, &failure(Some(1)));
    assert!(!s.is_iocp_fallback(key));
    s.maybe_mark_iocp_fallback(key, &failure(Some(WSAENOBUFS)));
    assert!(s.is_iocp_fallback(key));
    assert!(s.needs_iocp_fallback_association(key));
    s.mark_iocp_fallback_associated(key);
    assert!(!s.needs_iocp_fallback_association(key));
    s.clear_iocp_fallback(key);
    assert!(!s.is_iocp_fallback(key));
}

#[test]
fn sockets_close_when_nothing_is_under_way() {
    let key = (1usize, 5usize, 1u64);
    let mut s = Sockets::new();
    s.mark_socket_registered(key);
    assert!(s.try_acquire_socket_inflight(key));
    s.mark_socket_closing(key);
    assert!(!s.try_acquire_socket_inflight(key));
    assert!(!s.socket_ready_for_cleanup(key));
    s.release_socket_inflight(key);
    assert!(!s.socket_ready_for_cleanup(key));
    s.release_socket_inflight(key);
    assert!(s.socket_ready_for_cleanup(key));
    s.forget_socket_runtime(key);
    assert!(s.try_acquire_socket_inflight(key));
    s.clear();
    assert_eq!(s.get(key).inflight, 0);
}

#[test]
fn the_function_table_must_be_complete() {
    let mut table = RioTable::complete();
    assert_eq!(table.first_missing(), None);
    table.send_ex = false;
    assert_eq!(table.first_missing(), Some(RioFunction::SendEx));
    table.notify = false;
    assert_eq!(table.first_missing(), Some(RioFunction::Notify));
    assert_eq!(RioKernel::new(0, 0).err(), Some(RioError::CqCreation));
    assert_eq!(RioKernel::new(1, SOCKET_ERROR).err(), Some(RioError::Datapath));
    let mut kernel = RioKernel::new(4, 0).unwrap();
    assert_eq!(kernel.close(), Some(RioCq { id: 4 }));
    assert_eq!(kernel.close(), None);
    assert_eq!(RioKernel::noop().close(), None);
}

#[test]
fn batches_of_completions() {
    assert_eq!(batch_of(0), Ok(Batch::Empty));
    assert_eq!(batch_of(MAX_RIO_RESULTS - 1), Ok(Batch::Last));
    assert_eq!(batch_of(MAX_RIO_RESULTS), Ok(Batch::More));
    assert_eq!(batch_of(RIO_CORRUPT_CQ), Err(RioError::Internal));
    assert_eq!(RioState::drain_dequeued(0), Ok(DrainBatch::Yield));
    assert_eq!(RioState::drain_dequeued(2), Ok(DrainBatch::Process));
    assert_eq!(
        RioState::drain_dequeued(RIO_CORRUPT_CQ),
        Err(RioError::Internal)
    );
}

fn state() -> RioState {
    match RioState::new(128, 40, 0, BufferRegistrationMode::Strict) {
        Ok(s) => s,
        Err(e) => panic!("{e:?}"),
    }
}

#[test]
fn requests_are_drained_before_the_end() {
    let mut s = state();
    let key = (1usize, 5usize, 1u64);
    s.insert_actor(key, Answer { value: 6, error: 0 }).unwrap();
    assert!(s.find_actor(key).is_some());
    s.outstanding_count = 2;
    let mut rest = match s.on_drop() {
        DropAction::Deferred(rest) => rest,
        DropAction::Ended(_) => panic!("requests are under way"),
    };
    assert!(rest.find_actor(key).is_none());
    assert_eq!(
        rest.drain_action(0, RIO_REAPER_DRAIN_TIMEOUT),
        Ok(DrainAction::Dequeue)
    );
    assert_eq!(
        rest.drain_action(RIO_REAPER_DRAIN_TIMEOUT, RIO_REAPER_DRAIN_TIMEOUT),
        Err(RioError::Internal)
    );
    let context = rest.contexts.encode_req_ctx(1, 1);
    let done = |request_context: u64| RioResult {
        status: 0,
        bytes_transferred: 0,
        request_context,
    };
    rest.drain_batch(&vec![done(context), done(0)]);
    assert_eq!(
        rest.drain_action(0, RIO_REAPER_DRAIN_TIMEOUT),
        Ok(DrainAction::Finished)
    );
    assert!(rest.contexts.decode_req_ctx(context).is_none());
    let end = rest.finalize_cleanup();
    assert_eq!(end.cq, Some(RioCq { id: 40 }));
    assert!(end.buffers.is_empty() && end.pool_buffers.is_empty());
    // The state that was left behind has nothing to give up.
    assert!(s.take_deferred().is_none());
    assert_eq!(s.finalize_cleanup().cq, None);
}

#[test]
fn idle_states_end_at_once() {
    let mut s = state();
    s.registry.finish_register_heap((1, 2, 3), 90, 0).unwrap();
    match s.on_drop() {
        DropAction::Ended(end) => {
            assert_eq!(end.buffers, vec![RioBufferId { id: 90 }]);
            assert_eq!(end.cq, Some(RioCq { id: 40 }));
        }
        DropAction::Deferred(_) => panic!("nothing is under way"),
    }
}

#[test]
fn registrations_are_given_up_when_nothing_is_under_way() {
    let mut s = state();
    s.registry.begin_register_chunk(1, 0).unwrap();
    s.registry.finish_register_chunk(1, 17, 0).unwrap();
    s.registry.begin_register_chunk(1, 0).unwrap();
    s.outstanding_count = 1;
    assert_eq!(s.finish_processing(0), Ok(Vec::new()));
    s.outstanding_count = 0;
    assert_eq!(s.finish_processing(SOCKET_ERROR), Err(RioError::Datapath));
    assert_eq!(s.finish_processing(0), Ok(vec![RioBufferId { id: 17 }]));
}

#[test]
fn request_queues_that_cannot_be_made() {
    let mut s = state();
    let key = (1usize, 5usize, 1u64);
    match s.insert_actor(key, Answer { value: 0, error: WSAENOBUFS }) {
        Err(failure) => {
            assert_eq!(failure.error, RioError::RqCreation);
            assert_eq!(failure.code, Some(WSAENOBUFS));
        }
        Ok(_) => panic!("there is no queue"),
    }
    let (actor, _) = s.insert_actor(key, Answer { value: 6, error: 0 }).unwrap();
    assert_eq!(s.request_queue(actor), Some(RioRq { id: 6 }));
    assert!(!s.recycle_chunk(actor, 0));
    s.remove_actor_by_key(actor);
    assert!(s.find_actor(key).is_none());
    assert_eq!(s.request_queue(actor), None);
    assert!(!s.recycle_chunk(actor, 0));
}

#[test]
fn threads_keep_their_own_tags_and_generations() {
    let mut tags = ThreadTags::new();
    let mut here = SocketGenerations::new();
    let mut there = SocketGenerations::new();
    assert_eq!(here.current_thread_tag(&mut tags), 1);
    assert_eq!(there.current_thread_tag(&mut tags), 2);
    assert_eq!(here.current_thread_tag(&mut tags), 1);
    let taken = [
        here.alloc_socket_generation(&mut tags),
        there.alloc_socket_generation(&mut tags),
        here.alloc_socket_generation(&mut tags),
        there.alloc_socket_generation(&mut tags),
    ];
    assert_eq!(
        taken,
        [0x1_0000_0001, 0x2_0000_0001, 0x1_0000_0002, 0x2_0000_0002]
    );
    assert_eq!(tags.next, 3);
    // Tags and counters leave 0 out when they start over.
    let mut last = ThreadTags { next: u32::MAX };
    let mut late = SocketGenerations { tag: 0, counter: u32::MAX };
    assert_eq!(late.alloc_socket_generation(&mut last), u64::MAX);
    assert_eq!((late.counter, last.next), (1, 0));
    assert_eq!(SocketGenerations::new().current_thread_tag(&mut last), 1);
}

#[test]
fn attempts_are_successes_or_failures() {
    let mut r = RioRegistry::new(64);
    let count = |r: &RioRegistry| {
        let s = r.registration_stats;
        (
            s.chunk_register_attempts,
            s.chunk_register_success,
            s.chunk_register_failures,
        )
    };
    assert_eq!(r.begin_register_chunk(2, 0), Ok(()));
    assert_eq!(r.chunk_registry, vec![RioBufferId { id: 0 }; 3]);
    assert_eq!(r.finish_register_chunk(2, 31, 0), Ok(RioBufferId { id: 31 }));
    assert_eq!(count(&r), (1, 1, 0));
    assert_eq!(r.begin_register_chunk(2, 0), Ok(()));
    assert_eq!(r.finish_register_chunk(2, 0, 9), Err(RioError::BufferRegistration));
    assert_eq!(count(&r), (2, 1, 1));
    assert_eq!(r.pending_deregistrations, vec![RioBufferId { id: 31 }]);
    let soon = 9 + REGISTER_FAILURE_RETRY_COOLDOWN - 1;
    assert_eq!(r.begin_register_chunk(2, soon), Err(RioError::ResourceExhaustion));
    assert_eq!(count(&r), (2, 1, 1));
    assert_eq!(r.pending_deregistrations, vec![RioBufferId { id: 31 }]);
    assert_eq!(r.chunk_registry[2], RioBufferId { id: 31 });
    assert_eq!(r.begin_register_chunk(2, soon + 1), Ok(()));
    assert_eq!(r.finish_register_chunk(2, 32, soon + 1), Ok(RioBufferId { id: 32 }));
    assert_eq!(count(&r), (3, 2, 1));
    assert_eq!(r.chunk_registry[2], RioBufferId { id: 32 });
}

#[test]
fn what_is_drained_elsewhere_keeps_its_registrations() {
    let mut s = state();
    s.registry.finish_register_heap((1, 2, 3), 90, 0).unwrap();
    s.outstanding_count = 1;
    match s.on_drop() {
        DropAction::Deferred(mut rest) => {
            let end = rest.finalize_cleanup();
            assert_eq!(end.buffers, vec![RioBufferId { id: 90 }]);
            assert_eq!(rest.registration_mode, BufferRegistrationMode::Strict);
        }
        DropAction::Ended(_) => panic!("requests are under way"),
    }
    assert_eq!(s.registry.rq_depth, 32);
    assert!(s.registry.cleanup_deregister().is_empty());
}
