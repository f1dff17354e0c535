//! Sockets: how they are created and configured.
use vstd::prelude::*;
use crate::sockaddr::{is_native, ByteOrder, SocketAddr, AF_INET};
use super::config::{OwnedRawHandle, RawHandle, SocketGenerations};
use super::error::UringError;
use super::net::{reads_as, to_socket_addr, AF_INET6};

verus! {

pub const SOCK_STREAM: i32 = 1;

pub const SOCK_DGRAM: i32 = 2;

pub const SOCK_NONBLOCK: i32 = 0x800;

pub const SOCK_CLOEXEC: i32 = 0x80000;

pub const IPPROTO_IP: i32 = 0;

pub const IPPROTO_TCP: i32 = 6;

pub const SOL_SOCKET: i32 = 1;

pub const TCP_NODELAY: i32 = 1;

pub const IP_TTL: i32 = 2;

pub const SO_REUSEADDR: i32 = 2;

pub const SO_BROADCAST: i32 = 6;

pub const SO_SNDBUF: i32 = 7;

pub const SO_RCVBUF: i32 = 8;

pub const SO_KEEPALIVE: i32 = 9;

/// The arguments of `socket(2)`. The protocol is the default one.
#[derive(Debug, Clone, Copy, PartialEq, Eq, Structural)]
pub struct SocketRequest {
    pub domain: i32,
    pub ty: i32,
}

/// The arguments of `setsockopt(2)` for an option that is one integer.
#[derive(Debug, Clone, Copy, PartialEq, Eq, Structural)]
pub struct SocketOption {
    pub level: i32,
    pub name: i32,
    pub value: i32,
}

/// The socket type of every socket here: of the given kind, closed on `exec`, and
/// never blocking.
pub open spec fn socket_type(kind: i32) -> int {
    kind + SOCK_CLOEXEC + SOCK_NONBLOCK
}

/// A socket.
#[derive(Debug, PartialEq, Eq, Structural)]
pub struct Socket {
    pub fd: OwnedRawHandle,
}

/// 1 for true, 0 for false.
pub open spec fn flag_value(b: bool) -> i32 {
    if b {
        1
    } else {
        0
    }
}

fn flag(b: bool) -> (v: i32)
    ensures
        v == flag_value(b),
{
    if b {
        1
    } else {
        0
    }
}

impl Socket {
    /// A TCP socket over IPv4.
    pub fn new_tcp_v4() -> (r: SocketRequest)
        ensures
            r.domain == AF_INET,
            r.ty == socket_type(SOCK_STREAM),
    {
        SocketRequest { domain: AF_INET as i32, ty: SOCK_STREAM + SOCK_CLOEXEC + SOCK_NONBLOCK }
    }

    /// A TCP socket over IPv6.
    pub fn new_tcp_v6() -> (r: SocketRequest)
        ensures
            r.domain == AF_INET6,
            r.ty == socket_type(SOCK_STREAM),
    {
        SocketRequest { domain: AF_INET6 as i32, ty: SOCK_STREAM + SOCK_CLOEXEC + SOCK_NONBLOCK }
    }

    /// A UDP socket over IPv4.
    pub fn new_udp_v4() -> (r: SocketRequest)
        ensures
            r.domain == AF_INET,
            r.ty == socket_type(SOCK_DGRAM),
    {
        SocketRequest { domain: AF_INET as i32, ty: SOCK_DGRAM + SOCK_CLOEXEC + SOCK_NONBLOCK }
    }

    /// A UDP socket over IPv6.
    pub fn new_udp_v6() -> (r: SocketRequest)
        ensures
            r.domain == AF_INET6,
            r.ty == socket_type(SOCK_DGRAM),
    {
        SocketRequest { domain: AF_INET6 as i32, ty: SOCK_DGRAM + SOCK_CLOEXEC + SOCK_NONBLOCK }
    }

    /// Takes over the descriptor that the kernel made, if it made one.
    pub fn created(fd: i32, generations: &mut SocketGenerations) -> (r: Result<Self, UringError>)
        ensures
            fd < 0 ==> r == Err::<Socket, UringError>(UringError::Socket) && *final(generations)
                == *old(generations),
            fd >= 0 ==> (r matches Ok(s) && (s.fd.raw matches RawHandle::Socket {
                fd: f,
                generation: g,
            } && f == fd && g == (if old(generations).next == 0 {
                1
            } else {
                old(generations).next
            }))),
            fd >= 0 ==> final(generations).next == (if old(generations).next == 0 {
                1
            } else if old(generations).next == u32::MAX {
                0
            } else {
                old(generations).next + 1
            }),
    {
        if fd < 0 {
            return Err(UringError::Socket);
        }
        let raw = RawHandle::for_socket(fd, generations);
        Ok(Socket { fd: OwnedRawHandle::from_raw_owned(raw) })
    }

    /// Takes over a handle.
    pub fn from_raw(handle: RawHandle) -> (s: Self)
        ensures
            s.fd.raw == handle,
    {
        Socket { fd: OwnedRawHandle::from_raw_owned(handle) }
    }

    /// Gives the handle up.
    pub fn into_owned_raw(self) -> (o: OwnedRawHandle)
        ensures
            o == self.fd,
    {
        self.fd
    }

    /// The outcome of a call that reports failure by a negative number.
    pub fn checked(ret: i32) -> (r: Result<(), UringError>)
        ensures
            ret < 0 ==> r == Err::<(), UringError>(UringError::Socket),
            ret >= 0 ==> r is Ok,
    {
        if ret < 0 {
            Err(UringError::Socket)
        } else {
            Ok(())
        }
    }

    /// The local address, from the answer of `getsockname(2)`: its return value and
    /// the address bytes it wrote.
    pub fn local_addr(ret: i32, name: &[u8]) -> (r: Result<SocketAddr, UringError>)
        ensures
            ret < 0 ==> r == Err::<SocketAddr, UringError>(UringError::Socket),
            ret >= 0 ==> exists|order: ByteOrder| #[trigger]
                is_native(order) && reads_as(order, name@, r),
    {
        if ret < 0 {
            return Err(UringError::Socket);
        }
        to_socket_addr(name)
    }

    /// Whether small segments are sent at once.
    pub fn set_nodelay(nodelay: bool) -> (o: SocketOption)
        ensures
            o == (SocketOption {
                level: IPPROTO_TCP,
                name: TCP_NODELAY,
                value: flag_value(nodelay),
            }),
    {
        SocketOption { level: IPPROTO_TCP, name: TCP_NODELAY, value: flag(nodelay) }
    }

    /// The size of the receive buffer.
    pub fn set_recv_buffer_size(size: usize) -> (o: SocketOption)
        ensures
            o == (SocketOption { level: SOL_SOCKET, name: SO_RCVBUF, value: size as i32 }),
    {
        SocketOption {
            level: SOL_SOCKET,
            name: SO_RCVBUF,
            value: #[verifier::truncate]
            (size as i32),
        }
    }

    /// The size of the send buffer.
    pub fn set_send_buffer_size(size: usize) -> (o: SocketOption)
        ensures
            o == (SocketOption { level: SOL_SOCKET, name: SO_SNDBUF, value: size as i32 }),
    {
        SocketOption {
            level: SOL_SOCKET,
            name: SO_SNDBUF,
            value: #[verifier::truncate]
            (size as i32),
        }
    }

    /// Whether the local address can be used while old connections linger.
    pub fn set_reuse_address(reuse: bool) -> (o: SocketOption)
        ensures
            o == (SocketOption { level: SOL_SOCKET, name: SO_REUSEADDR, value: flag_value(reuse) }),
    {
        SocketOption { level: SOL_SOCKET, name: SO_REUSEADDR, value: flag(reuse) }
    }

    /// Whether idle connections are probed.
    pub fn set_keepalive(keepalive: bool) -> (o: SocketOption)
        ensures
            o == (SocketOption {
                level: SOL_SOCKET,
                name: SO_KEEPALIVE,
                value: flag_value(keepalive),
            }),
    {
        SocketOption { level: SOL_SOCKET, name: SO_KEEPALIVE, value: flag(keepalive) }
    }

    /// The time to live of outgoing packets.
    pub fn set_ttl(ttl: u32) -> (o: SocketOption)
        ensures
            o == (SocketOption { level: IPPROTO_IP, name: IP_TTL, value: ttl as i32 }),
    {
        SocketOption {
            level: IPPROTO_IP,
            name: IP_TTL,
            value: #[verifier::truncate]
            (ttl as i32),
        }
    }

    /// Whether broadcast addresses can be sent to.
    pub fn set_broadcast(broadcast: bool) -> (o: SocketOption)
        ensures
            o == (SocketOption {
                level: SOL_SOCKET,
                name: SO_BROADCAST,
                value: flag_value(broadcast),
            }),
    {
        SocketOption { level: SOL_SOCKET, name: SO_BROADCAST, value: flag(broadcast) }
    }
}

/// The sockets made are what they are named after: of the family 2 over IPv4 and 10 over IPv6,
/// of the kind 1 for TCP and 2 for UDP, and all of them closed on `exec` and never blocking.
pub proof fn sockets_are_made_as_named(
    tcp4: SocketRequest,
    tcp6: SocketRequest,
    udp4: SocketRequest,
    udp6: SocketRequest,
)
    requires
        call_ensures(Socket::new_tcp_v4, (), tcp4),
        call_ensures(Socket::new_tcp_v6, (), tcp6),
        call_ensures(Socket::new_udp_v4, (), udp4),
        call_ensures(Socket::new_udp_v6, (), udp6),
    ensures
        tcp4.domain == 2 && udp4.domain == 2,
        tcp6.domain == 10 && udp6.domain == 10,
        tcp4.ty == tcp6.ty && udp4.ty == udp6.ty,
        tcp4.ty == 1 + 0x80000 + 0x800,
        udp4.ty == 2 + 0x80000 + 0x800,
{
}

/// Switches are set to 1 to turn them on and to 0 to turn them off, at the level they belong
/// to.
pub proof fn switches_are_turned_as_asked(
    on: bool,
    nodelay: SocketOption,
    reuse: SocketOption,
    keepalive: SocketOption,
    broadcast: SocketOption,
)
    requires
        call_ensures(Socket::set_nodelay, (on,), nodelay),
        call_ensures(Socket::set_reuse_address, (on,), reuse),
        call_ensures(Socket::set_keepalive, (on,), keepalive),
        call_ensures(Socket::set_broadcast, (on,), broadcast),
    ensures
        nodelay.value == (if on {
            1int
        } else {
            0int
        }),
        reuse.value == nodelay.value && keepalive.value == nodelay.value && broadcast.value
            == nodelay.value,
        nodelay.level == 6 && nodelay.name == 1,
        reuse.level == 1 && reuse.name == 2,
        keepalive.level == 1 && keepalive.name == 9,
        broadcast.level == 1 && broadcast.name == 6,
{
}

/// Sizes and times to live are passed on as they are, where they fit.
pub proof fn sizes_are_passed_on(
    size: usize,
    ttl: u32,
    receive: SocketOption,
    send: SocketOption,
    live: SocketOption,
)
    requires
        call_ensures(Socket::set_recv_buffer_size, (size,), receive),
        call_ensures(Socket::set_send_buffer_size, (size,), send),
        call_ensures(Socket::set_ttl, (ttl,), live),
        size <= 0x7fff_ffff,
        ttl <= 0x7fff_ffff,
    ensures
        receive.value == size && send.value == size && live.value == ttl,
        receive.level == 1 && receive.name == 8,
        send.level == 1 && send.name == 7,
        live.level == 0 && live.name == 2,
{
}

} // verus!
