//! Socket addresses as the Linux kernel lays them out.
use vstd::prelude::*;
use crate::sockaddr::{
    addr_bytes, decode_addr, decodes_to, encode_addr, is_native, native_order, zeros, AddrError,
    ByteOrder, SockAddrStorage, SocketAddr, SOCKADDR_STORAGE_LEN,
};
use super::error::UringError;

verus! {

/// `AF_INET6` on Linux.
pub const AF_INET6: u16 = 10;

/// Reads an address out of the bytes the kernel wrote, on a machine of the given
/// byte order.
pub fn to_socket_addr_in(order: ByteOrder, buf: &[u8]) -> (r: Result<SocketAddr, AddrError>)
    ensures
        decodes_to(order, AF_INET6, buf@, r),
{
    decode_addr(order, AF_INET6, buf)
}

/// `r` is what reading an address out of `buf` gives: every reason for a failure
/// counts as bad input.
pub open spec fn reads_as(
    order: ByteOrder,
    buf: Seq<u8>,
    r: Result<SocketAddr, UringError>,
) -> bool {
    match r {
        Ok(addr) => decodes_to(order, AF_INET6, buf, Ok(addr)),
        Err(e) => e == UringError::InvalidInput && exists|a: AddrError|
            decodes_to(order, AF_INET6, buf, Err(a)),
    }
}

/// Reads an address out of the bytes the kernel wrote. The family and the
/// scope are in the byte order of the machine.
pub fn to_socket_addr(buf: &[u8]) -> (r: Result<SocketAddr, UringError>)
    ensures
        exists|order: ByteOrder| #[trigger] is_native(order) && reads_as(order, buf@, r),
{
    let order = native_order();
    match to_socket_addr_in(order, buf) {
        Ok(addr) => Ok(addr),
        Err(_) => Err(UringError::InvalidInput),
    }
}

/// `storage` holds `addr` in its first `len` bytes and zeros after that.
pub open spec fn stored_as(
    order: ByteOrder,
    addr: SocketAddr,
    storage: SockAddrStorage,
    len: u32,
) -> bool {
    &&& len == addr_bytes(order, AF_INET6, addr).len()
    &&& storage.bytes@ == addr_bytes(order, AF_INET6, addr) + zeros(
        (SOCKADDR_STORAGE_LEN - len) as nat,
    )
}

/// Lays an address out for the kernel, and gives its length. The family
/// and the scope are in the byte order of the machine.
pub fn socket_addr_to_storage(addr: SocketAddr) -> (r: (SockAddrStorage, u32))
    ensures
        r.0.wf(),
        r.1 == (if addr is V4 { 16int } else { 28int }),
        exists|order: ByteOrder| #[trigger] is_native(order) && stored_as(order, addr, r.0, r.1),
{
    let order = native_order();
    let (storage, len) = encode_addr(order, AF_INET6, addr);
    (storage, len as u32)
}

} // verus!
