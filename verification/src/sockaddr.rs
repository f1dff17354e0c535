//! Socket addresses and their kernel (`sockaddr`) byte layout.
use vstd::prelude::*;

verus! {

/// `AF_INET`, the same number on every supported platform.
pub const AF_INET: u16 = 2;

/// Bytes in a `sockaddr_in`.
pub const SOCKADDR_IN_LEN: usize = 16;

/// Bytes in a `sockaddr_in6`.
pub const SOCKADDR_IN6_LEN: usize = 28;

/// Bytes in a `sockaddr_storage`.
pub const SOCKADDR_STORAGE_LEN: usize = 128;

/// Offset of the IPv4 address inside a `sockaddr_in`.
pub const SOCKADDR_IN_S_ADDR_OFFSET: usize = 4;

/// Offset of the flow information inside a `sockaddr_in6`.
pub const SOCKADDR_IN6_FLOWINFO_OFFSET: usize = 4;

/// Offset of the IPv6 address inside a `sockaddr_in6`.
pub const SOCKADDR_IN6_ADDR_BYTES_OFFSET: usize = 8;

/// Offset of the scope identifier inside a `sockaddr_in6`.
pub const SOCKADDR_IN6_SCOPE_ID_OFFSET: usize = 24;

/// The order in which a machine stores the bytes of an integer.
#[derive(Debug, Clone, Copy, PartialEq, Eq, Structural)]
pub enum ByteOrder {
    Little,
    Big,
}

/// An IPv4 address with a port.
#[derive(Debug, Clone, Copy, PartialEq, Eq)]
pub struct SocketAddrV4 {
    pub ip: [u8; 4],
    pub port: u16,
}

/// An IPv6 address with a port, flow information and a scope.
#[derive(Debug, Clone, Copy, PartialEq, Eq)]
pub struct SocketAddrV6 {
    pub ip: [u8; 16],
    pub port: u16,
    pub flowinfo: u32,
    pub scope_id: u32,
}

/// An internet socket address.
#[derive(Debug, Clone, Copy, PartialEq, Eq)]
pub enum SocketAddr {
    V4(SocketAddrV4),
    V6(SocketAddrV6),
}

/// Why a byte buffer is no socket address.
#[derive(Debug, Clone, Copy, PartialEq, Eq, Structural)]
pub enum AddrError {
    /// Too short to hold an address family.
    InvalidLength,
    /// `AF_INET`, but shorter than a `sockaddr_in`.
    InvalidIpv4Length,
    /// `AF_INET6`, but shorter than a `sockaddr_in6`.
    InvalidIpv6Length,
    /// Neither `AF_INET` nor `AF_INET6`.
    UnsupportedFamily,
}

// ---------------------------------------------------------------------------
// Integers as bytes
// ---------------------------------------------------------------------------

/// Byte number `k` of `v`, counted from the least significant one.
pub open spec fn byte_of(v: int, k: int) -> u8 {
    if k == 0 {
        (v % 256) as u8
    } else if k == 1 {
        (v / 256 % 256) as u8
    } else if k == 2 {
        (v / 65536 % 256) as u8
    } else {
        (v / 16777216 % 256) as u8
    }
}

/// The two bytes of `v` in memory.
pub open spec fn u16_bytes(order: ByteOrder, v: u16) -> Seq<u8> {
    match order {
        ByteOrder::Little => seq![byte_of(v as int, 0), byte_of(v as int, 1)],
        ByteOrder::Big => seq![byte_of(v as int, 1), byte_of(v as int, 0)],
    }
}

/// The four bytes of `v` in memory.
pub open spec fn u32_bytes(order: ByteOrder, v: u32) -> Seq<u8> {
    let v = v as int;
    match order {
        ByteOrder::Little => seq![byte_of(v, 0), byte_of(v, 1), byte_of(v, 2), byte_of(v, 3)],
        ByteOrder::Big => seq![byte_of(v, 3), byte_of(v, 2), byte_of(v, 1), byte_of(v, 0)],
    }
}

/// The 16-bit integer that two bytes in memory stand for.
pub open spec fn u16_from(order: ByteOrder, s: Seq<u8>) -> int {
    match order {
        ByteOrder::Little => s[0] + 256 * s[1],
        ByteOrder::Big => s[1] + 256 * s[0],
    }
}

/// The 32-bit integer that four bytes in memory stand for.
pub open spec fn u32_from(order: ByteOrder, s: Seq<u8>) -> int {
    match order {
        ByteOrder::Little => s[0] + 256 * s[1] + 65536 * s[2] + 16777216 * s[3],
        ByteOrder::Big => s[3] + 256 * s[2] + 65536 * s[1] + 16777216 * s[0],
    }
}

/// Reading back the bytes of a 16-bit integer gives that integer.
pub proof fn u16_bytes_round_trip(order: ByteOrder, v: u16)
    ensures
        u16_bytes(order, v).len() == 2,
        u16_from(order, u16_bytes(order, v)) == v,
{
}

/// Reading back the bytes of a 32-bit integer gives that integer.
pub proof fn u32_bytes_round_trip(order: ByteOrder, v: u32)
    ensures
        u32_bytes(order, v).len() == 4,
        u32_from(order, u32_bytes(order, v)) == v,
{
}

/// Calls `u16::to_ne_bytes` on 1. The result is the memory representation of 1
/// on this machine: the byte holding 1 comes first or last.
#[verifier::external_body]
pub(crate) fn native_bytes_of_one() -> (b: [u8; 2])
    ensures
        b@ == u16_bytes(ByteOrder::Little, 1) || b@ == u16_bytes(ByteOrder::Big, 1),
{
    1u16.to_ne_bytes()
}

/// The byte order in which 1 is written as `bytes`.
pub fn order_of_one(bytes: [u8; 2]) -> (order: ByteOrder)
    requires
        bytes@ == u16_bytes(ByteOrder::Little, 1) || bytes@ == u16_bytes(ByteOrder::Big, 1),
    ensures
        bytes@ == u16_bytes(order, 1),
{
    if bytes[0] == 1 {
        ByteOrder::Little
    } else {
        ByteOrder::Big
    }
}

/// `order` is that of this machine: the one in which it writes 1.
pub closed spec fn is_native(order: ByteOrder) -> bool {
    exists|b: [u8; 2]| #[trigger]
        call_ensures(native_bytes_of_one, (), b) && b@ == u16_bytes(order, 1)
}

/// The byte order of this machine.
pub(crate) fn native_order() -> (order: ByteOrder)
    ensures
        is_native(order),
{
    let b = native_bytes_of_one();
    order_of_one(b)
}

/// Reads the 16-bit integer stored at `offset`.
pub fn read_u16_ne(order: ByteOrder, bytes: &[u8], offset: usize) -> (v: u16)
    requires
        offset + 2 <= bytes.len(),
    ensures
        v == u16_from(order, bytes@.subrange(offset as int, offset + 2)),
{
    let a: u16 = bytes[offset] as u16;
    let b: u16 = bytes[offset + 1] as u16;
    match order {
        ByteOrder::Little => a + 256 * b,
        ByteOrder::Big => b + 256 * a,
    }
}

/// Reads the 32-bit integer stored at `offset`.
pub fn read_u32_ne(order: ByteOrder, bytes: &[u8], offset: usize) -> (v: u32)
    requires
        offset + 4 <= bytes.len(),
    ensures
        v == u32_from(order, bytes@.subrange(offset as int, offset + 4)),
{
    let a: u32 = bytes[offset] as u32;
    let b: u32 = bytes[offset + 1] as u32;
    let c: u32 = bytes[offset + 2] as u32;
    let d: u32 = bytes[offset + 3] as u32;
    match order {
        ByteOrder::Little => a + 256 * b + 65536 * c + 16777216 * d,
        ByteOrder::Big => d + 256 * c + 65536 * b + 16777216 * a,
    }
}

/// `s` with the bytes from `offset` on replaced by `part`.
pub open spec fn overwrite(s: Seq<u8>, offset: int, part: Seq<u8>) -> Seq<u8> {
    s.take(offset) + part + s.skip(offset + part.len())
}

/// Stores a 16-bit integer at `offset`.
pub fn write_u16_ne(order: ByteOrder, bytes: &mut Vec<u8>, offset: usize, value: u16)
    requires
        offset + 2 <= old(bytes).len(),
    ensures
        final(bytes)@ == overwrite(old(bytes)@, offset as int, u16_bytes(order, value)),
{
    let lo: u8 = (value % 256) as u8;
    let hi: u8 = (value / 256) as u8;
    match order {
        ByteOrder::Little => {
            bytes.set(offset, lo);
            bytes.set(offset + 1, hi);
        },
        ByteOrder::Big => {
            bytes.set(offset, hi);
            bytes.set(offset + 1, lo);
        },
    }
    assert(bytes@ =~= overwrite(old(bytes)@, offset as int, u16_bytes(order, value)));
}

/// Stores a 32-bit integer at `offset`.
pub fn write_u32_ne(order: ByteOrder, bytes: &mut Vec<u8>, offset: usize, value: u32)
    requires
        offset + 4 <= old(bytes).len(),
    ensures
        final(bytes)@ == overwrite(old(bytes)@, offset as int, u32_bytes(order, value)),
{
    let a: u8 = (value % 256) as u8;
    let b: u8 = (value / 256 % 256) as u8;
    let c: u8 = (value / 65536 % 256) as u8;
    let d: u8 = (value / 16777216 % 256) as u8;
    match order {
        ByteOrder::Little => {
            bytes.set(offset, a);
            bytes.set(offset + 1, b);
            bytes.set(offset + 2, c);
            bytes.set(offset + 3, d);
        },
        ByteOrder::Big => {
            bytes.set(offset, d);
            bytes.set(offset + 1, c);
            bytes.set(offset + 2, b);
            bytes.set(offset + 3, a);
        },
    }
    assert(bytes@ =~= overwrite(old(bytes)@, offset as int, u32_bytes(order, value)));
}

/// Reads the sixteen bytes of an IPv6 address stored at `offset`.
pub fn read_ipv6_bytes(bytes: &[u8], offset: usize) -> (raw: [u8; 16])
    requires
        offset + 16 <= bytes.len(),
    ensures
        raw@ == bytes@.subrange(offset as int, offset + 16),
{
    let mut raw: [u8; 16] = [0; 16];
    let mut i: usize = 0;
    while i < 16
        invariant
            i <= 16,
            offset + 16 <= bytes.len(),
            forall|k: int| 0 <= k < i ==> raw@[k] == bytes@[offset + k],
        decreases 16 - i,
    {
        raw[i] = bytes[offset + i];
        i = i + 1;
    }
    assert(raw@ =~= bytes@.subrange(offset as int, offset + 16));
    raw
}

/// Stores the sixteen bytes of an IPv6 address at `offset`.
pub fn write_ipv6_bytes(bytes: &mut Vec<u8>, offset: usize, value: [u8; 16])
    requires
        offset + 16 <= old(bytes).len(),
    ensures
        final(bytes)@ == overwrite(old(bytes)@, offset as int, value@),
{
    let mut i: usize = 0;
    while i < 16
        invariant
            i <= 16,
            offset + 16 <= old(bytes).len(),
            bytes@.len() == old(bytes)@.len(),
            forall|k: int|
                0 <= k < bytes@.len() ==> bytes@[k] == if offset <= k < offset + i {
                    value@[k - offset]
                } else {
                    old(bytes)@[k]
                },
        decreases 16 - i,
    {
        bytes.set(offset + i, value[i]);
        i = i + 1;
    }
    assert(bytes@ =~= overwrite(old(bytes)@, offset as int, value@));
}

// ---------------------------------------------------------------------------
// The kernel layout of an address
// ---------------------------------------------------------------------------

/// `n` zero bytes.
pub open spec fn zeros(n: nat) -> Seq<u8> {
    Seq::new(n, |i: int| 0u8)
}

/// The `sockaddr_in` of an IPv4 address: family, port in network order, address,
/// padding.
pub open spec fn v4_bytes(order: ByteOrder, a: SocketAddrV4) -> Seq<u8> {
    u16_bytes(order, AF_INET) + u16_bytes(ByteOrder::Big, a.port) + a.ip@ + zeros(8)
}

/// The `sockaddr_in6` of an IPv6 address: family, port in network order, flow
/// information, address, scope.
pub open spec fn v6_bytes(order: ByteOrder, af_inet6: u16, a: SocketAddrV6) -> Seq<u8> {
    u16_bytes(order, af_inet6) + u16_bytes(ByteOrder::Big, a.port) + u32_bytes(order, a.flowinfo)
        + a.ip@ + u32_bytes(order, a.scope_id)
}

/// The kernel layout of an address.
pub open spec fn addr_bytes(order: ByteOrder, af_inet6: u16, addr: SocketAddr) -> Seq<u8> {
    match addr {
        SocketAddr::V4(a) => v4_bytes(order, a),
        SocketAddr::V6(a) => v6_bytes(order, af_inet6, a),
    }
}

/// The address family that a buffer starts with.
pub open spec fn family_of(order: ByteOrder, buf: Seq<u8>) -> int {
    u16_from(order, buf.subrange(0, 2))
}

/// `a` is what the fields of a `sockaddr_in` at the start of `buf` spell out, whatever
/// family it names.
pub open spec fn spells_v4(buf: Seq<u8>, a: SocketAddrV4) -> bool {
    &&& a.port == u16_from(ByteOrder::Big, buf.subrange(2, 4))
    &&& a.ip@ == buf.subrange(4, 8)
}

/// `a` is what the fields of a `sockaddr_in6` at the start of `buf` spell out, whatever
/// family it names.
pub open spec fn spells_v6(order: ByteOrder, buf: Seq<u8>, a: SocketAddrV6) -> bool {
    &&& a.port == u16_from(ByteOrder::Big, buf.subrange(2, 4))
    &&& a.flowinfo == u32_from(order, buf.subrange(4, 8))
    &&& a.ip@ == buf.subrange(8, 24)
    &&& a.scope_id == u32_from(order, buf.subrange(24, 28))
}

/// Reads the fields of a `sockaddr_in`.
pub fn read_v4(buf: &[u8]) -> (a: SocketAddrV4)
    requires
        buf.len() >= SOCKADDR_IN_LEN,
    ensures
        spells_v4(buf@, a),
{
    let port: u16 = read_u16_ne(ByteOrder::Big, buf, 2);
    let at: usize = SOCKADDR_IN_S_ADDR_OFFSET;
    let ip: [u8; 4] = [buf[at], buf[at + 1], buf[at + 2], buf[at + 3]];
    assert(ip@ =~= buf@.subrange(4, 8));
    SocketAddrV4 { ip, port }
}

/// Reads the fields of a `sockaddr_in6`.
pub fn read_v6(order: ByteOrder, buf: &[u8]) -> (a: SocketAddrV6)
    requires
        buf.len() >= SOCKADDR_IN6_LEN,
    ensures
        spells_v6(order, buf@, a),
{
    let port: u16 = read_u16_ne(ByteOrder::Big, buf, 2);
    let flowinfo: u32 = read_u32_ne(order, buf, SOCKADDR_IN6_FLOWINFO_OFFSET);
    let ip = read_ipv6_bytes(buf, SOCKADDR_IN6_ADDR_BYTES_OFFSET);
    let scope_id: u32 = read_u32_ne(order, buf, SOCKADDR_IN6_SCOPE_ID_OFFSET);
    SocketAddrV6 { ip, port, flowinfo, scope_id }
}

/// `r` is the outcome of decoding `buf`: the address its fields spell out, or the
/// reason why there is none.
pub open spec fn decodes_to(
    order: ByteOrder,
    af_inet6: u16,
    buf: Seq<u8>,
    r: Result<SocketAddr, AddrError>,
) -> bool {
    match r {
        Ok(SocketAddr::V4(a)) => {
            &&& buf.len() >= 16
            &&& family_of(order, buf) == AF_INET
            &&& spells_v4(buf, a)
        },
        Ok(SocketAddr::V6(a)) => {
            &&& buf.len() >= 28
            &&& family_of(order, buf) == af_inet6
            &&& spells_v6(order, buf, a)
        },
        Err(AddrError::InvalidLength) => buf.len() < 2,
        Err(AddrError::InvalidIpv4Length) => {
            &&& 2 <= buf.len() < 16
            &&& family_of(order, buf) == AF_INET
        },
        Err(AddrError::InvalidIpv6Length) => {
            &&& 2 <= buf.len() < 28
            &&& family_of(order, buf) == af_inet6
        },
        Err(AddrError::UnsupportedFamily) => {
            &&& 2 <= buf.len()
            &&& family_of(order, buf) != AF_INET
            &&& family_of(order, buf) != af_inet6
        },
    }
}

/// Decodes the kernel layout of an address.
pub fn decode_addr(order: ByteOrder, af_inet6: u16, buf: &[u8]) -> (r: Result<
    SocketAddr,
    AddrError,
>)
    requires
        af_inet6 != AF_INET,
    ensures
        decodes_to(order, af_inet6, buf@, r),
{
    if buf.len() < 2 {
        return Err(AddrError::InvalidLength);
    }
    let family: u16 = read_u16_ne(order, buf, 0);
    if family == AF_INET {
        if buf.len() < SOCKADDR_IN_LEN {
            return Err(AddrError::InvalidIpv4Length);
        }
        Ok(SocketAddr::V4(read_v4(buf)))
    } else if family == af_inet6 {
        if buf.len() < SOCKADDR_IN6_LEN {
            return Err(AddrError::InvalidIpv6Length);
        }
        Ok(SocketAddr::V6(read_v6(order, buf)))
    } else {
        Err(AddrError::UnsupportedFamily)
    }
}

/// A zero-initialised buffer large enough for any socket address.
#[derive(Debug, PartialEq, Eq)]
pub struct SockAddrStorage {
    pub bytes: Vec<u8>,
}

impl SockAddrStorage {
    /// The buffer has the size of a `sockaddr_storage`.
    pub open spec fn wf(&self) -> bool {
        self.bytes@.len() == SOCKADDR_STORAGE_LEN
    }

    /// The address family of the stored address.
    pub fn family(&self, order: ByteOrder) -> (family: u16)
        requires
            self.wf(),
        ensures
            family == family_of(order, self.bytes@),
    {
        read_u16_ne(order, self.bytes.as_slice(), 0)
    }
}

impl Default for SockAddrStorage {
    fn default() -> (s: Self)
        ensures
            s.wf(),
            s.bytes@ == zeros(SOCKADDR_STORAGE_LEN as nat),
    {
        let bytes: Vec<u8> = vec![0u8; 128];
        assert(bytes@ =~= zeros(SOCKADDR_STORAGE_LEN as nat));
        SockAddrStorage { bytes }
    }
}

/// Encodes an address into a fresh storage and gives the length of the encoding.
pub fn encode_addr(order: ByteOrder, af_inet6: u16, addr: SocketAddr) -> (r: (
    SockAddrStorage,
    usize,
))
    ensures
        r.0.wf(),
        r.1 == addr_bytes(order, af_inet6, addr).len(),
        r.1 == (if addr is V4 { 16int } else { 28int }),
        r.0.bytes@ == addr_bytes(order, af_inet6, addr) + zeros((SOCKADDR_STORAGE_LEN - r.1) as nat),
{
    let mut storage = SockAddrStorage::default();
    match addr {
        SocketAddr::V4(a) => {
            write_u16_ne(order, &mut storage.bytes, 0, AF_INET);
            write_u16_ne(ByteOrder::Big, &mut storage.bytes, 2, a.port);
            storage.bytes.set(4, a.ip[0]);
            storage.bytes.set(5, a.ip[1]);
            storage.bytes.set(6, a.ip[2]);
            storage.bytes.set(7, a.ip[3]);
            assert(storage.bytes@ =~= v4_bytes(order, a) + zeros(112));
            (storage, SOCKADDR_IN_LEN)
        },
        SocketAddr::V6(a) => {
            write_u16_ne(order, &mut storage.bytes, 0, af_inet6);
            write_u16_ne(ByteOrder::Big, &mut storage.bytes, 2, a.port);
            write_u32_ne(order, &mut storage.bytes, SOCKADDR_IN6_FLOWINFO_OFFSET, a.flowinfo);
            write_ipv6_bytes(&mut storage.bytes, SOCKADDR_IN6_ADDR_BYTES_OFFSET, a.ip);
            write_u32_ne(order, &mut storage.bytes, SOCKADDR_IN6_SCOPE_ID_OFFSET, a.scope_id);
            assert(storage.bytes@ =~= v6_bytes(order, af_inet6, a) + zeros(100));
            (storage, SOCKADDR_IN6_LEN)
        },
    }
}

// ---------------------------------------------------------------------------
// Laws
// ---------------------------------------------------------------------------

/// The outcome of decoding is determined by the buffer.
pub proof fn decoding_is_deterministic(
    order: ByteOrder,
    af_inet6: u16,
    buf: Seq<u8>,
    r1: Result<SocketAddr, AddrError>,
    r2: Result<SocketAddr, AddrError>,
)
    requires
        af_inet6 != AF_INET,
        decodes_to(order, af_inet6, buf, r1),
        decodes_to(order, af_inet6, buf, r2),
    ensures
        r1 == r2,
{
    match (r1, r2) {
        (Ok(SocketAddr::V4(a)), Ok(SocketAddr::V4(b))) => {
            assert(a.ip =~= b.ip);
        },
        (Ok(SocketAddr::V6(a)), Ok(SocketAddr::V6(b))) => {
            assert(a.ip =~= b.ip);
        },
        _ => {},
    }
}

/// The outcome of decoding a buffer.
pub open spec fn decoded(order: ByteOrder, af_inet6: u16, buf: Seq<u8>) -> Result<
    SocketAddr,
    AddrError,
> {
    choose|r: Result<SocketAddr, AddrError>| decodes_to(order, af_inet6, buf, r)
}

/// Whatever a buffer decodes to is the outcome of decoding it.
pub proof fn decoded_is_unique(
    order: ByteOrder,
    af_inet6: u16,
    buf: Seq<u8>,
    r: Result<SocketAddr, AddrError>,
)
    requires
        af_inet6 != AF_INET,
        decodes_to(order, af_inet6, buf, r),
    ensures
        decoded(order, af_inet6, buf) == r,
{
    decoding_is_deterministic(order, af_inet6, buf, decoded(order, af_inet6, buf), r);
}

/// The fields of the layout of an IPv4 address spell that address out, and no other.
pub proof fn v4_layout_spells_its_address(order: ByteOrder, a: SocketAddrV4, b: SocketAddrV4)
    ensures
        spells_v4(v4_bytes(order, a), b) <==> b == a,
{
    let buf = v4_bytes(order, a);
    assert(buf.subrange(2, 4) =~= u16_bytes(ByteOrder::Big, a.port));
    assert(buf.subrange(4, 8) =~= a.ip@);
    u16_bytes_round_trip(ByteOrder::Big, a.port);
    if spells_v4(buf, b) {
        assert(b.ip =~= a.ip);
    }
}

/// The fields of the layout of an IPv6 address spell that address out, and no other.
pub proof fn v6_layout_spells_its_address(
    order: ByteOrder,
    af_inet6: u16,
    a: SocketAddrV6,
    b: SocketAddrV6,
)
    ensures
        spells_v6(order, v6_bytes(order, af_inet6, a), b) <==> b == a,
{
    let buf = v6_bytes(order, af_inet6, a);
    assert(buf.subrange(2, 4) =~= u16_bytes(ByteOrder::Big, a.port));
    assert(buf.subrange(4, 8) =~= u32_bytes(order, a.flowinfo));
    assert(buf.subrange(8, 24) =~= a.ip@);
    assert(buf.subrange(24, 28) =~= u32_bytes(order, a.scope_id));
    u16_bytes_round_trip(ByteOrder::Big, a.port);
    u32_bytes_round_trip(order, a.flowinfo);
    u32_bytes_round_trip(order, a.scope_id);
    if spells_v6(order, buf, b) {
        assert(b.ip =~= a.ip);
    }
}

/// Decoding an encoded address gives the address back, whatever bytes follow the
/// encoding.
pub proof fn decoding_inverts_encoding(
    order: ByteOrder,
    af_inet6: u16,
    addr: SocketAddr,
    rest: Seq<u8>,
    r: Result<SocketAddr, AddrError>,
)
    requires
        af_inet6 != AF_INET,
        decodes_to(order, af_inet6, addr_bytes(order, af_inet6, addr) + rest, r),
    ensures
        r == Ok::<SocketAddr, AddrError>(addr),
{
    let buf = addr_bytes(order, af_inet6, addr) + rest;
    let ok = Ok::<SocketAddr, AddrError>(addr);
    match addr {
        SocketAddr::V4(a) => {
            assert(buf.subrange(0, 2) =~= u16_bytes(order, AF_INET));
            assert(buf.subrange(2, 4) =~= u16_bytes(ByteOrder::Big, a.port));
            assert(buf.subrange(4, 8) =~= a.ip@);
            u16_bytes_round_trip(order, AF_INET);
            u16_bytes_round_trip(ByteOrder::Big, a.port);
        },
        SocketAddr::V6(a) => {
            assert(buf.subrange(0, 2) =~= u16_bytes(order, af_inet6));
            assert(buf.subrange(2, 4) =~= u16_bytes(ByteOrder::Big, a.port));
            assert(buf.subrange(4, 8) =~= u32_bytes(order, a.flowinfo));
            assert(buf.subrange(8, 24) =~= a.ip@);
            assert(buf.subrange(24, 28) =~= u32_bytes(order, a.scope_id));
            u16_bytes_round_trip(order, af_inet6);
            u16_bytes_round_trip(ByteOrder::Big, a.port);
            u32_bytes_round_trip(order, a.flowinfo);
            u32_bytes_round_trip(order, a.scope_id);
        },
    }
    decoding_is_deterministic(order, af_inet6, buf, r, ok);
}

/// A laid-out IPv4 address is 16 bytes long: the family, which is 2, in the order of the
/// machine, the port with its high byte first, the four bytes of the address as they are
/// written, and zeros.
pub proof fn v4_addresses_are_laid_out(order: ByteOrder, af_inet6: u16, a: SocketAddrV4, k: int)
    ensures
        ({
            let b = addr_bytes(order, af_inet6, SocketAddr::V4(a));
            &&& b.len() == 16
            &&& order is Little ==> b[0] == 2 && b[1] == 0
            &&& order is Big ==> b[0] == 0 && b[1] == 2
            &&& b[2] * 256 + b[3] == a.port
            &&& 0 <= k < 4 ==> b[4 + k] == a.ip[k]
            &&& 8 <= k < 16 ==> b[k] == 0
        }),
{
    let b = addr_bytes(order, af_inet6, SocketAddr::V4(a));
    let family = u16_bytes(order, AF_INET);
    let port = u16_bytes(ByteOrder::Big, a.port);
    u16_bytes_round_trip(ByteOrder::Big, a.port);
    assert(b[0] == family[0] && b[1] == family[1]);
    assert(b[2] == port[0] && b[3] == port[1]);
}

/// A laid-out IPv6 address is 28 bytes long: the family in the order of the machine, the port
/// with its high byte first, the flow information in the order of the machine, the sixteen
/// bytes of the address as they are written, and the scope in the order of the machine.
#[verifier::rlimit(30)]
pub proof fn v6_addresses_are_laid_out(order: ByteOrder, af_inet6: u16, a: SocketAddrV6, k: int)
    ensures
        ({
            let b = addr_bytes(order, af_inet6, SocketAddr::V6(a));
            &&& b.len() == 28
            &&& order is Little ==> b[0] + b[1] * 256 == af_inet6
            &&& order is Big ==> b[0] * 256 + b[1] == af_inet6
            &&& b[2] * 256 + b[3] == a.port
            &&& order is Little ==> b[4] + b[5] * 256 + b[6] * 65536 + b[7] * 16777216 == a.flowinfo
            &&& order is Big ==> b[4] * 16777216 + b[5] * 65536 + b[6] * 256 + b[7] == a.flowinfo
            &&& 0 <= k < 16 ==> b[8 + k] == a.ip[k]
            &&& order is Little ==> b[24] + b[25] * 256 + b[26] * 65536 + b[27] * 16777216
                == a.scope_id
            &&& order is Big ==> b[24] * 16777216 + b[25] * 65536 + b[26] * 256 + b[27]
                == a.scope_id
        }),
{
    let b = addr_bytes(order, af_inet6, SocketAddr::V6(a));
    let family = u16_bytes(order, af_inet6);
    let port = u16_bytes(ByteOrder::Big, a.port);
    let flow = u32_bytes(order, a.flowinfo);
    let scope = u32_bytes(order, a.scope_id);
    u16_bytes_round_trip(order, af_inet6);
    u16_bytes_round_trip(ByteOrder::Big, a.port);
    u32_bytes_round_trip(order, a.flowinfo);
    u32_bytes_round_trip(order, a.scope_id);
    assert(b == family + port + flow + a.ip@ + scope);
    assert(b[0] == family[0] && b[1] == family[1]);
    assert(b[2] == port[0] && b[3] == port[1]);
    assert(b[4] == flow[0] && b[5] == flow[1] && b[6] == flow[2] && b[7] == flow[3]);
    assert(b[24] == scope[0] && b[25] == scope[1] && b[26] == scope[2] && b[27] == scope[3]);
}

/// The address that bytes decode to is where the layout puts it, and bytes decode to an
/// address exactly if their family is known and they are long enough for it.
pub proof fn addresses_are_read_where_they_lie(
    order: ByteOrder,
    af_inet6: u16,
    b: Seq<u8>,
    r: Result<SocketAddr, AddrError>,
    k: int,
)
    requires
        af_inet6 != 2,
        decodes_to(order, af_inet6, b, r),
    ensures
        b.len() < 2 ==> r == Err::<SocketAddr, AddrError>(AddrError::InvalidLength),
        b.len() >= 2 ==> {
            let family = if order is Little {
                b[0] + b[1] * 256
            } else {
                b[0] * 256 + b[1]
            };
            &&& r is Ok <==> (family == 2 && b.len() >= 16) || (family == af_inet6 && b.len() >= 28)
            &&& family == 2 && b.len() < 16 ==> r == Err::<SocketAddr, AddrError>(
                AddrError::InvalidIpv4Length,
            )
            &&& family == af_inet6 && b.len() < 28 ==> r == Err::<SocketAddr, AddrError>(
                AddrError::InvalidIpv6Length,
            )
            &&& family != 2 && family != af_inet6 ==> r == Err::<SocketAddr, AddrError>(
                AddrError::UnsupportedFamily,
            )
            &&& r is Ok ==> (r->Ok_0 is V4 <==> family == 2)
        },
        r matches Ok(SocketAddr::V4(a)) ==> a.port == b[2] * 256 + b[3] && (0 <= k < 4 ==> a.ip[k]
            == b[4 + k]),
        r matches Ok(SocketAddr::V6(a)) ==> {
            &&& a.port == b[2] * 256 + b[3]
            &&& 0 <= k < 16 ==> a.ip[k] == b[8 + k]
            &&& order is Little ==> a.flowinfo == b[4] + b[5] * 256 + b[6] * 65536 + b[7] * 16777216
                && a.scope_id == b[24] + b[25] * 256 + b[26] * 65536 + b[27] * 16777216
            &&& order is Big ==> a.flowinfo == b[4] * 16777216 + b[5] * 65536 + b[6] * 256 + b[7]
                && a.scope_id == b[24] * 16777216 + b[25] * 65536 + b[26] * 256 + b[27]
        },
{
    if b.len() >= 2 {
        assert(b.subrange(0, 2)[0] == b[0] && b.subrange(0, 2)[1] == b[1]);
    }
    match r {
        Ok(SocketAddr::V4(a)) => {
            assert(b.subrange(2, 4)[0] == b[2] && b.subrange(2, 4)[1] == b[3]);
            if 0 <= k < 4 {
                assert(a.ip@[k] == b.subrange(4, 8)[k]);
            }
        },
        Ok(SocketAddr::V6(a)) => {
            assert(b.subrange(2, 4)[0] == b[2] && b.subrange(2, 4)[1] == b[3]);
            if 0 <= k < 16 {
                assert(a.ip@[k] == b.subrange(8, 24)[k]);
            }
            let flow = b.subrange(4, 8);
            assert(flow[0] == b[4] && flow[1] == b[5] && flow[2] == b[6] && flow[3] == b[7]);
            let scope = b.subrange(24, 28);
            assert(scope[0] == b[24] && scope[1] == b[25] && scope[2] == b[26] && scope[3]
                == b[27]);
        },
        _ => {},
    }
}

} // verus!
