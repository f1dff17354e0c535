//! Buffers as the driver sees them.
use vstd::prelude::*;
use crate::uring::op::PoolKind;

verus! {

/// A buffer: where it starts, its size, how much of it is filled, and which part of
/// which region it is.
#[derive(Debug, Clone, Copy, PartialEq, Eq, Structural)]
pub struct IocpBuffer {
    pub ptr: usize,
    pub capacity: usize,
    pub len: usize,
    pub pool_kind: PoolKind,
    /// The chunk it lies in.
    pub chunk_id: u16,
    /// Where in its region it starts.
    pub offset: usize,
    /// Tells apart heap buffers that share an address over time.
    pub cookie: u64,
}

/// A stretch of memory.
#[derive(Debug, Clone, Copy, PartialEq, Eq, Structural)]
pub struct MemoryRange {
    pub ptr: usize,
    pub len: usize,
}

impl IocpBuffer {
    /// The key under which a heap buffer is registered.
    pub open spec fn heap_key(self) -> (usize, usize, u64) {
        (self.ptr, self.capacity, self.cookie)
    }

    /// Whether a transfer may start `buf_offset` bytes into the buffer: its place in
    /// the region is a 32-bit number.
    pub open spec fn reaches(self, buf_offset: usize) -> bool {
        (self.offset as u32) + (buf_offset as u32) <= u32::MAX
    }

    /// How many bytes lie between `buf_offset` and the end of what is filled.
    pub open spec fn filled_after(self, buf_offset: usize) -> u32 {
        (if self.len >= buf_offset {
            self.len - buf_offset
        } else {
            0
        }) as u32
    }

    /// How many bytes lie between `buf_offset` and the end of the buffer.
    pub open spec fn room_after(self, buf_offset: usize) -> u32 {
        (if self.capacity >= buf_offset {
            self.capacity - buf_offset
        } else {
            0
        }) as u32
    }

    /// How many bytes lie between `buf_offset` and the end of what is filled, as the
    /// system takes it.
    pub fn remaining_len(&self, buf_offset: usize) -> (n: u32)
        ensures
            n == self.filled_after(buf_offset),
    {
        #[verifier::truncate]
        (self.len.saturating_sub(buf_offset) as u32)
    }

    /// How many bytes lie between `buf_offset` and the end of the buffer, as the
    /// system takes it.
    pub fn remaining_capacity(&self, buf_offset: usize) -> (n: u32)
        ensures
            n == self.room_after(buf_offset),
    {
        #[verifier::truncate]
        (self.capacity.saturating_sub(buf_offset) as u32)
    }
}

} // verus!
