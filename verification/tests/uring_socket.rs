//! Handles, sockets and configuration of the io_uring driver, held against the
//! numbers of the system.
use veloq_driver::sockaddr::{SocketAddr, SocketAddrV4, SocketAddrV6, AF_INET};
use veloq_driver::uring::config::{
    BufferRegistrationMode, OwnedRawHandle, RawHandle, RawHandleKind, SetupFlag, SetupPolicy,
    SocketGenerations, UringConfig,
};
use veloq_driver::uring::error::UringError;
use veloq_driver::uring::lifecycle::ECANCELED;
use veloq_driver::uring::net::{socket_addr_to_storage, to_socket_addr, AF_INET6};
use veloq_driver::uring::op::FSYNC_DATASYNC;
use veloq_driver::uring::ring::{EAGAIN, EIO, ETIME};
use veloq_driver::uring::socket::{Socket, SocketOption, SOCK_CLOEXEC, SOCK_NONBLOCK};

#[test]
fn numbers_are_those_of_the_system() {
    assert_eq!(AF_INET as i32, libc::AF_INET);
    assert_eq!(AF_INET6 as i32, libc::AF_INET6);
    assert_eq!(SOCK_CLOEXEC, libc::SOCK_CLOEXEC);
    assert_eq!(SOCK_NONBLOCK, libc::SOCK_NONBLOCK);
    assert_eq!(ECANCELED, libc::ECANCELED);
    assert_eq!(EAGAIN, libc::EAGAIN);
    assert_eq!(EIO, libc::EIO);
    assert_eq!(ETIME, libc::ETIME);
    assert_eq!(
        FSYNC_DATASYNC,
        io_uring::types::FsyncFlags::DATASYNC.bits()
    );
}

#[test]
fn socket_requests() {
    let stream = libc::SOCK_STREAM | libc::SOCK_CLOEXEC | libc::SOCK_NONBLOCK;
    let datagram = libc::SOCK_DGRAM | libc::SOCK_CLOEXEC | libc::SOCK_NONBLOCK;
    let r = Socket::new_tcp_v4();
    assert_eq!((r.domain, r.ty), (libc::AF_INET, stream));
    let r = Socket::new_tcp_v6();
    assert_eq!((r.domain, r.ty), (libc::AF_INET6, stream));
    let r = Socket::new_udp_v4();
    assert_eq!((r.domain, r.ty), (libc::AF_INET, datagram));
    let r = Socket::new_udp_v6();
    assert_eq!((r.domain, r.ty), (libc::AF_INET6, datagram));
}

#[test]
fn socket_options() {
    let option = |level: i32, name: i32, value: i32| SocketOption { level, name, value };
    assert_eq!(
        Socket::set_nodelay(true),
        option(libc::IPPROTO_TCP, libc::TCP_NODELAY, 1)
    );
    assert_eq!(
        Socket::set_recv_buffer_size(4096),
        option(libc::SOL_SOCKET, libc::SO_RCVBUF, 4096)
    );
    assert_eq!(
        Socket::set_send_buffer_size(4097),
        option(libc::SOL_SOCKET, libc::SO_SNDBUF, 4097)
    );
    assert_eq!(
        Socket::set_reuse_address(false),
        option(libc::SOL_SOCKET, libc::SO_REUSEADDR, 0)
    );
    assert_eq!(
        Socket::set_keepalive(true),
        option(libc::SOL_SOCKET, libc::SO_KEEPALIVE, 1)
    );
    assert_eq!(Socket::set_ttl(64), option(libc::IPPROTO_IP, libc::IP_TTL, 64));
    assert_eq!(
        Socket::set_broadcast(true),
        option(libc::SOL_SOCKET, libc::SO_BROADCAST, 1)
    );
}

#[test]
fn sockets_get_new_generations() {
    let mut generations = SocketGenerations::new();
    let first = Socket::created(8, &mut generations).unwrap();
    let second = Socket::created(8, &mut generations).unwrap();
    assert_ne!(first, second);
    assert_ne!(first.fd.as_raw().generation(), 0);
    assert_eq!(
        Socket::created(-1, &mut generations),
        Err(UringError::Socket)
    );
    let mut last = SocketGenerations { next: u32::MAX };
    assert_eq!(last.alloc_socket_generation(), u32::MAX);
    assert_eq!(last.alloc_socket_generation(), 1);
    assert_eq!(Socket::checked(0), Ok(()));
    assert_eq!(Socket::checked(-1), Err(UringError::Socket));
    assert_eq!(second.into_owned_raw().as_fd(), 8);
}

#[test]
fn handles_know_what_they_are() {
    let file = RawHandle::for_file(4);
    assert!(file.is_file() && !file.is_socket());
    assert_eq!(file.generation(), 0);
    assert_eq!(file.kind(), RawHandleKind::File);
    let socket = RawHandle::for_socket(5, &mut SocketGenerations::new());
    assert!(socket.is_socket() && !socket.is_file());
    assert_eq!(socket.kind(), RawHandleKind::Socket);
    let owned = OwnedRawHandle::from_raw_owned(socket);
    assert_eq!(owned.borrow().as_raw(), socket);
    assert!(owned.borrow().is_socket());
    assert_eq!(owned.borrow().as_fd(), 5);
    assert_eq!(owned.kind(), RawHandleKind::Socket);
    assert_eq!(owned.fd_to_close(), Some(5));
    assert_eq!(owned.into_raw(), socket);
    assert_eq!(RawHandle::for_file(-1).into_owned().fd_to_close(), None);
    assert_eq!(Socket::from_raw(file).fd.as_fd(), 4);
}

#[test]
fn configuration_defaults() {
    let c = UringConfig::default();
    assert_eq!(c.entries.get(), 1024);
    assert!(c.registration_mode.is_strict());
    assert!(!BufferRegistrationMode::Compatible.is_strict());
    let p = SetupPolicy::default().with_disabled(SetupFlag::CoopTaskrun);
    assert!(!p.coop_taskrun && p.single_issuer && p.defer_taskrun);
    let p = p.with_disabled(SetupFlag::SingleIssuer);
    assert!(!p.coop_taskrun && !p.single_issuer && p.defer_taskrun);
}

#[test]
fn addresses_survive_the_kernel_format() {
    let v4 = SocketAddr::V4(SocketAddrV4 {
        ip: [192, 168, 1, 2],
        port: 0x1234,
    });
    let (storage, len) = socket_addr_to_storage(v4);
    assert_eq!(len, 16);
    assert_eq!(storage.bytes.len(), 128);
    assert_eq!(&storage.bytes[0..2], &libc::AF_INET.to_ne_bytes()[0..2]);
    assert_eq!(&storage.bytes[2..8], &[0x12, 0x34, 192, 168, 1, 2]);
    assert_eq!(to_socket_addr(&storage.bytes[..16]), Ok(v4));
    let mut ip: [u8; 16] = [0; 16];
    ip[0] = 0xfe;
    ip[15] = 1;
    let v6 = SocketAddr::V6(SocketAddrV6 {
        ip,
        port: 443,
        flowinfo: 9,
        scope_id: 0x0102_0304,
    });
    let (storage, len) = socket_addr_to_storage(v6);
    assert_eq!(len, 28);
    assert_eq!(&storage.bytes[2..4], &[1, 187]);
    assert_eq!(&storage.bytes[24..28], &0x0102_0304u32.to_ne_bytes());
    assert_eq!(to_socket_addr(&storage.bytes), Ok(v6));
    assert_eq!(Socket::local_addr(0, &storage.bytes), Ok(v6));
    assert_eq!(
        Socket::local_addr(-1, &storage.bytes),
        Err(UringError::Socket)
    );
    assert_eq!(to_socket_addr(&[]), Err(UringError::InvalidInput));
}

#[test]
fn errors_in_words() {
    let all = [
        (UringError::DriverInit, "io_uring driver initialization failed"),
        (UringError::CompletionWait, "io_uring completion wait failed"),
        (UringError::Submission, "io_uring operation submission failed"),
        (UringError::Registration, "io_uring registration failed"),
        (UringError::ResolveFd, "failed to resolve io_uring file descriptor"),
        (UringError::Socket, "socket operation failed"),
        (UringError::InvalidInput, "invalid input"),
        (UringError::InvalidState, "invalid internal state"),
        (UringError::Unsupported, "unsupported operation"),
        (UringError::Internal, "internal error"),
    ];
    for (e, text) in all {
        assert_eq!(e.message(), text);
    }
}
