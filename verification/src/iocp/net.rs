//! Sockets and socket addresses as Windows lays them out.
use vstd::prelude::*;
use crate::sockaddr::{
    addr_bytes, decode_addr, decodes_to, encode_addr, is_native, native_order, read_v4, read_v6,
    spells_v4, spells_v6, v4_bytes, v6_bytes, zeros, AddrError, ByteOrder, SockAddrStorage, SocketAddr,
    SocketAddrV4, SocketAddrV6, AF_INET, SOCKADDR_STORAGE_LEN,
};
use super::config::{IocpHandle, SocketGenerations, ThreadTags, INVALID_HANDLE_VALUE};
use super::error::IocpError;

verus! {

/// `AF_INET6` on Windows.
pub const AF_INET6: u16 = 23;

/// The kernel layout of an IPv4 address.
#[derive(Debug, PartialEq, Eq)]
pub struct SockAddrIn {
    pub bytes: Vec<u8>,
}

impl SockAddrIn {
    /// The size of a `SOCKADDR_IN`, and its family.
    pub open spec fn wf(&self, order: ByteOrder) -> bool {
        self.bytes@.len() == 16 && crate::sockaddr::family_of(order, self.bytes@) == AF_INET
    }

    /// Lays an address out.
    pub fn new(order: ByteOrder, addr: &SocketAddrV4) -> (s: Self)
        ensures
            s.wf(order),
            s.bytes@ == v4_bytes(order, *addr),
    {
        let (storage, _len) = encode_addr(order, AF_INET6, SocketAddr::V4(*addr));
        let mut bytes: Vec<u8> = storage.bytes;
        bytes.truncate(16);
        proof {
            assert(bytes@ =~= v4_bytes(order, *addr));
            crate::sockaddr::u16_bytes_round_trip(order, AF_INET);
            assert(bytes@.subrange(0, 2) =~= crate::sockaddr::u16_bytes(order, AF_INET));
        }
        SockAddrIn { bytes }
    }

    /// Reads the address back. The family is not looked at.
    pub fn to_std(&self) -> (a: SocketAddrV4)
        requires
            self.bytes@.len() == 16,
        ensures
            spells_v4(self.bytes@, a),
    {
        read_v4(self.bytes.as_slice())
    }
}

/// The kernel layout of an IPv6 address.
#[derive(Debug, PartialEq, Eq)]
pub struct SockAddrIn6 {
    pub bytes: Vec<u8>,
}

impl SockAddrIn6 {
    /// The size of a `SOCKADDR_IN6`, and its family.
    pub open spec fn wf(&self, order: ByteOrder) -> bool {
        self.bytes@.len() == 28 && crate::sockaddr::family_of(order, self.bytes@) == AF_INET6
    }

    /// Lays an address out.
    pub fn new(order: ByteOrder, addr: &SocketAddrV6) -> (s: Self)
        ensures
            s.wf(order),
            s.bytes@ == v6_bytes(order, AF_INET6, *addr),
    {
        let (storage, _len) = encode_addr(order, AF_INET6, SocketAddr::V6(*addr));
        let mut bytes: Vec<u8> = storage.bytes;
        bytes.truncate(28);
        proof {
            assert(bytes@ =~= v6_bytes(order, AF_INET6, *addr));
            crate::sockaddr::u16_bytes_round_trip(order, AF_INET6);
            assert(bytes@.subrange(0, 2) =~= crate::sockaddr::u16_bytes(order, AF_INET6));
        }
        SockAddrIn6 { bytes }
    }

    /// Reads the address back. The family is not looked at.
    pub fn to_std(&self, order: ByteOrder) -> (a: SocketAddrV6)
        requires
            self.bytes@.len() == 28,
        ensures
            spells_v6(order, self.bytes@, a),
    {
        read_v6(order, self.bytes.as_slice())
    }
}

/// Reads an address out of the bytes the system wrote, on a machine of the given byte
/// order.
pub fn to_socket_addr_in(order: ByteOrder, buf: &[u8]) -> (r: Result<SocketAddr, AddrError>)
    ensures
        decodes_to(order, AF_INET6, buf@, r),
{
    decode_addr(order, AF_INET6, buf)
}

/// `r` is what reading an address out of `buf` gives: every reason for a failure
/// counts as bad input.
pub open spec fn reads_as(
    order: ByteOrder,
    buf: Seq<u8>,
    r: Result<SocketAddr, IocpError>,
) -> bool {
    match r {
        Ok(addr) => decodes_to(order, AF_INET6, buf, Ok(addr)),
        Err(e) => e == IocpError::InvalidInput && exists|a: AddrError|
            decodes_to(order, AF_INET6, buf, Err(a)),
    }
}

/// Reads an address out of the bytes the system wrote. The family and the
/// scope are in the byte order of the machine.
pub fn to_socket_addr(buf: &[u8]) -> (r: Result<SocketAddr, IocpError>)
    ensures
        exists|order: ByteOrder| #[trigger] is_native(order) && reads_as(order, buf@, r),
{
    let order = native_order();
    match to_socket_addr_in(order, buf) {
        Ok(addr) => Ok(addr),
        Err(_) => Err(IocpError::InvalidInput),
    }
}

/// `storage` holds `addr` in its first `len` bytes and zeros after that.
pub open spec fn stored_as(
    order: ByteOrder,
    addr: SocketAddr,
    storage: SockAddrStorage,
    len: i32,
) -> bool {
    &&& len == addr_bytes(order, AF_INET6, addr).len()
    &&& storage.bytes@ == addr_bytes(order, AF_INET6, addr) + zeros(
        (SOCKADDR_STORAGE_LEN - len) as nat,
    )
}

/// Lays an address out for the system, and gives its length. The family
/// and the scope are in the byte order of the machine.
pub fn socket_addr_to_storage(addr: SocketAddr) -> (r: (SockAddrStorage, i32))
    ensures
        r.0.wf(),
        r.1 == (if addr is V4 { 16int } else { 28int }),
        exists|order: ByteOrder| #[trigger] is_native(order) && stored_as(order, addr, r.0, r.1),
{
    let order = native_order();
    let (storage, len) = encode_addr(order, AF_INET6, addr);
    (storage, len as i32)
}

// ---------------------------------------------------------------------------
// Sockets
// ---------------------------------------------------------------------------

pub const SOCK_STREAM: i32 = 1;

pub const SOCK_DGRAM: i32 = 2;

pub const IPPROTO_IP: i32 = 0;

pub const IPPROTO_TCP: i32 = 6;

pub const IPPROTO_UDP: i32 = 17;

pub const SOL_SOCKET: i32 = 0xffff;

pub const TCP_NODELAY: i32 = 1;

pub const IP_TTL: i32 = 4;

pub const SO_REUSEADDR: i32 = 4;

pub const SO_KEEPALIVE: i32 = 8;

pub const SO_BROADCAST: i32 = 0x20;

pub const SO_SNDBUF: i32 = 0x1001;

pub const SO_RCVBUF: i32 = 0x1002;

/// `WSA_FLAG_OVERLAPPED` and `WSA_FLAG_REGISTERED_IO`.
pub const SOCKET_FLAGS: u32 = 0x101;

/// The arguments of `WSASocketW`.
#[derive(Debug, Clone, Copy, PartialEq, Eq, Structural)]
pub struct SocketRequest {
    pub family: u16,
    pub ty: i32,
    pub protocol: i32,
    pub flags: u32,
}

/// The arguments of `setsockopt` for an option that is one integer.
#[derive(Debug, Clone, Copy, PartialEq, Eq, Structural)]
pub struct SocketOption {
    pub level: i32,
    pub name: i32,
    pub value: i32,
}

/// A socket.
#[derive(Debug, PartialEq, Eq, Structural)]
pub struct Socket {
    pub raw: usize,
}

/// 1 for true, 0 for false.
pub open spec fn flag_value(b: bool) -> i32 {
    if b {
        1
    } else {
        0
    }
}

fn flag(b: bool) -> (v: i32)
    ensures
        v == flag_value(b),
{
    if b {
        1
    } else {
        0
    }
}

impl Socket {
    /// A TCP socket over IPv4.
    pub fn new_tcp_v4() -> (r: SocketRequest)
        ensures
            r == (SocketRequest {
                family: AF_INET,
                ty: SOCK_STREAM,
                protocol: IPPROTO_TCP,
                flags: SOCKET_FLAGS,
            }),
    {
        SocketRequest {
            family: AF_INET,
            ty: SOCK_STREAM,
            protocol: IPPROTO_TCP,
            flags: SOCKET_FLAGS,
        }
    }

    /// A TCP socket over IPv6.
    pub fn new_tcp_v6() -> (r: SocketRequest)
        ensures
            r == (SocketRequest {
                family: AF_INET6,
                ty: SOCK_STREAM,
                protocol: IPPROTO_TCP,
                flags: SOCKET_FLAGS,
            }),
    {
        SocketRequest {
            family: AF_INET6,
            ty: SOCK_STREAM,
            protocol: IPPROTO_TCP,
            flags: SOCKET_FLAGS,
        }
    }

    /// A UDP socket over IPv4.
    pub fn new_udp_v4() -> (r: SocketRequest)
        ensures
            r == (SocketRequest {
                family: AF_INET,
                ty: SOCK_DGRAM,
                protocol: IPPROTO_UDP,
                flags: SOCKET_FLAGS,
            }),
    {
        SocketRequest {
            family: AF_INET,
            ty: SOCK_DGRAM,
            protocol: IPPROTO_UDP,
            flags: SOCKET_FLAGS,
        }
    }

    /// A UDP socket over IPv6.
    pub fn new_udp_v6() -> (r: SocketRequest)
        ensures
            r == (SocketRequest {
                family: AF_INET6,
                ty: SOCK_DGRAM,
                protocol: IPPROTO_UDP,
                flags: SOCKET_FLAGS,
            }),
    {
        SocketRequest {
            family: AF_INET6,
            ty: SOCK_DGRAM,
            protocol: IPPROTO_UDP,
            flags: SOCKET_FLAGS,
        }
    }

    /// Takes over the socket that `WSASocketW` made, if it made one.
    pub fn created(raw: usize) -> (r: Result<Self, IocpError>)
        ensures
            raw == INVALID_HANDLE_VALUE ==> r == Err::<Socket, IocpError>(IocpError::Socket),
            raw != INVALID_HANDLE_VALUE ==> (r matches Ok(s) && s.raw == raw),
    {
        if raw == INVALID_HANDLE_VALUE {
            return Err(IocpError::Socket);
        }
        Ok(Socket { raw })
    }

    /// Takes over a handle.
    pub fn from_raw(handle: IocpHandle) -> (s: Self)
        ensures
            s.raw == handle.handle_spec(),
    {
        Socket { raw: handle.as_socket() }
    }

    /// Gives the handle up, under a fresh generation of this thread.
    pub fn into_owned_raw(self, generations: &mut SocketGenerations, tags: &mut ThreadTags) -> (h:
        IocpHandle)
        ensures
            h == (IocpHandle::Socket {
                handle: self.raw,
                generation: old(generations).next_generation(*old(tags)),
            }),
            *final(generations) == old(generations).after_generation(*old(tags)),
            *final(tags) == old(generations).tags_left(*old(tags)),
    {
        IocpHandle::for_socket(self.raw, generations, tags)
    }

    /// The local address, from the answer of `getsockname`: whether it failed, and
    /// the address bytes it wrote.
    pub fn local_addr(failed: bool, name: &[u8]) -> (r: Result<SocketAddr, IocpError>)
        ensures
            failed ==> r == Err::<SocketAddr, IocpError>(IocpError::Socket),
            !failed ==> exists|order: ByteOrder| #[trigger]
                is_native(order) && reads_as(order, name@, r),
    {
        if failed {
            return Err(IocpError::Socket);
        }
        to_socket_addr(name)
    }

    /// Whether small segments are sent at once.
    pub fn set_nodelay(nodelay: bool) -> (o: SocketOption)
        ensures
            o == (SocketOption {
                level: IPPROTO_TCP,
                name: TCP_NODELAY,
                value: flag_value(nodelay),
            }),
    {
        SocketOption { level: IPPROTO_TCP, name: TCP_NODELAY, value: flag(nodelay) }
    }

    /// The size of the receive buffer.
    pub fn set_recv_buffer_size(size: usize) -> (o: SocketOption)
        ensures
            o == (SocketOption { level: SOL_SOCKET, name: SO_RCVBUF, value: size as i32 }),
    {
        SocketOption {
            level: SOL_SOCKET,
            name: SO_RCVBUF,
            value: #[verifier::truncate]
            (size as i32),
        }
    }

    /// The size of the send buffer.
    pub fn set_send_buffer_size(size: usize) -> (o: SocketOption)
        ensures
            o == (SocketOption { level: SOL_SOCKET, name: SO_SNDBUF, value: size as i32 }),
    {
        SocketOption {
            level: SOL_SOCKET,
            name: SO_SNDBUF,
            value: #[verifier::truncate]
            (size as i32),
        }
    }

    /// Whether the local address can be used while old connections linger.
    pub fn set_reuse_address(reuse: bool) -> (o: SocketOption)
        ensures
            o == (SocketOption { level: SOL_SOCKET, name: SO_REUSEADDR, value: flag_value(reuse) }),
    {
        SocketOption { level: SOL_SOCKET, name: SO_REUSEADDR, value: flag(reuse) }
    }

    /// Whether idle connections are probed.
    pub fn set_keepalive(keepalive: bool) -> (o: SocketOption)
        ensures
            o == (SocketOption {
                level: SOL_SOCKET,
                name: SO_KEEPALIVE,
                value: flag_value(keepalive),
            }),
    {
        SocketOption { level: SOL_SOCKET, name: SO_KEEPALIVE, value: flag(keepalive) }
    }

    /// The time to live of outgoing packets.
    pub fn set_ttl(ttl: u32) -> (o: SocketOption)
        ensures
            o == (SocketOption { level: IPPROTO_IP, name: IP_TTL, value: ttl as i32 }),
    {
        SocketOption {
            level: IPPROTO_IP,
            name: IP_TTL,
            value: #[verifier::truncate]
            (ttl as i32),
        }
    }

    /// Whether broadcast addresses can be sent to.
    pub fn set_broadcast(broadcast: bool) -> (o: SocketOption)
        ensures
            o == (SocketOption {
                level: SOL_SOCKET,
                name: SO_BROADCAST,
                value: flag_value(broadcast),
            }),
    {
        SocketOption { level: SOL_SOCKET, name: SO_BROADCAST, value: flag(broadcast) }
    }
}

/// The sockets made are what they are named after: of the family 2 over IPv4 and 23 over IPv6,
/// of the kind 1 with protocol 6 for TCP and of the kind 2 with protocol 17 for UDP, and all of
/// them overlapped and able to take part in registered I/O.
pub proof fn sockets_are_made_as_named(
    tcp4: SocketRequest,
    tcp6: SocketRequest,
    udp4: SocketRequest,
    udp6: SocketRequest,
)
    requires
        call_ensures(Socket::new_tcp_v4, (), tcp4),
        call_ensures(Socket::new_tcp_v6, (), tcp6),
        call_ensures(Socket::new_udp_v4, (), udp4),
        call_ensures(Socket::new_udp_v6, (), udp6),
    ensures
        tcp4.family == 2 && udp4.family == 2,
        tcp6.family == 23 && udp6.family == 23,
        tcp4.ty == 1 && tcp6.ty == 1 && udp4.ty == 2 && udp6.ty == 2,
        tcp4.protocol == 6 && tcp6.protocol == 6 && udp4.protocol == 17 && udp6.protocol == 17,
        tcp4.flags == 0x101 && tcp6.flags == 0x101 && udp4.flags == 0x101 && udp6.flags == 0x101,
{
}

/// Switches are set to 1 to turn them on and to 0 to turn them off, at the level they belong
/// to.
pub proof fn switches_are_turned_as_asked(
    on: bool,
    nodelay: SocketOption,
    reuse: SocketOption,
    keepalive: SocketOption,
    broadcast: SocketOption,
)
    requires
        call_ensures(Socket::set_nodelay, (on,), nodelay),
        call_ensures(Socket::set_reuse_address, (on,), reuse),
        call_ensures(Socket::set_keepalive, (on,), keepalive),
        call_ensures(Socket::set_broadcast, (on,), broadcast),
    ensures
        nodelay.value == (if on {
            1int
        } else {
            0int
        }),
        reuse.value == nodelay.value && keepalive.value == nodelay.value && broadcast.value
            == nodelay.value,
        nodelay.level == 6 && nodelay.name == 1,
        reuse.level == 0xffff && reuse.name == 4,
        keepalive.level == 0xffff && keepalive.name == 8,
        broadcast.level == 0xffff && broadcast.name == 0x20,
{
}

/// Sizes and times to live are passed on as they are, where they fit.
pub proof fn sizes_are_passed_on(
    size: usize,
    ttl: u32,
    receive: SocketOption,
    send: SocketOption,
    live: SocketOption,
)
    requires
        call_ensures(Socket::set_recv_buffer_size, (size,), receive),
        call_ensures(Socket::set_send_buffer_size, (size,), send),
        call_ensures(Socket::set_ttl, (ttl,), live),
        size <= 0x7fff_ffff,
        ttl <= 0x7fff_ffff,
    ensures
        receive.value == size && send.value == size && live.value == ttl,
        receive.level == 0xffff && receive.name == 0x1002,
        send.level == 0xffff && send.name == 0x1001,
        live.level == 0 && live.name == 4,
{
}

} // verus!
