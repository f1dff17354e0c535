//! Registration of memory chunks with the kernel.
use std::collections::HashMap;
use vstd::prelude::*;
use vstd::std_specs::hash::*;
use super::config::BufferRegistrationMode;
use super::error::UringError;

verus! {

broadcast use vstd::std_specs::hash::group_hash_axioms;

/// The number of chunks the kernel is told of.
pub const MAX_CHUNKS: usize = 1024;

/// A set of chunk numbers below `MAX_CHUNKS`.
#[derive(Debug)]
pub struct ChunkSet {
    bits: Vec<bool>,
}

impl View for ChunkSet {
    type V = Set<int>;

    closed spec fn view(&self) -> Set<int> {
        Set::new(|i: int| 0 <= i < self.bits@.len() && self.bits@[i])
    }
}

impl ChunkSet {
    /// There is one place per chunk.
    pub closed spec fn wf(&self) -> bool {
        self.bits@.len() == MAX_CHUNKS
    }

    /// The empty set.
    pub fn new() -> (s: Self)
        ensures
            s.wf(),
            s@ == Set::<int>::empty(),
    {
        let s = ChunkSet { bits: vec![false; 1024] };
        assert(s@ =~= Set::<int>::empty());
        s
    }

    /// Whether `index` is in the set; an error if no chunk has that number.
    pub fn get(&self, index: usize) -> (r: Result<bool, ()>)
        requires
            self.wf(),
        ensures
            index < MAX_CHUNKS ==> r == Ok::<bool, ()>(self@.contains(index as int)),
            index >= MAX_CHUNKS ==> r is Err && !self@.contains(index as int),
    {
        if index < self.bits.len() {
            Ok(self.bits[index])
        } else {
            Err(())
        }
    }

    /// Puts `index` into the set.
    pub fn insert(&mut self, index: usize)
        requires
            old(self).wf(),
            index < MAX_CHUNKS,
        ensures
            final(self).wf(),
            final(self)@ == old(self)@.insert(index as int),
    {
        self.bits.set(index, true);
        assert(self@ =~= old(self)@.insert(index as int));
    }
}

/// How long a chunk whose registration failed is left alone, in nanoseconds.
pub const REGISTER_FAILURE_RETRY_COOLDOWN: u64 = 250_000_000;

/// Counters of the registration machinery. They stop at the largest value.
#[derive(Debug, Clone, Copy, PartialEq, Eq, Structural)]
pub struct UringRegistrationStats {
    pub chunk_register_attempts: u64,
    pub chunk_register_success: u64,
    pub chunk_register_failures: u64,
    pub chunk_register_skipped_recent_failure: u64,
    pub submission_missing_chunk_info: u64,
}

impl UringRegistrationStats {
    /// Nothing counted yet.
    pub open spec fn zero() -> Self {
        UringRegistrationStats {
            chunk_register_attempts: 0,
            chunk_register_success: 0,
            chunk_register_failures: 0,
            chunk_register_skipped_recent_failure: 0,
            submission_missing_chunk_info: 0,
        }
    }
}

impl Default for UringRegistrationStats {
    fn default() -> (s: Self)
        ensures
            s == UringRegistrationStats::zero(),
    {
        UringRegistrationStats {
            chunk_register_attempts: 0,
            chunk_register_success: 0,
            chunk_register_failures: 0,
            chunk_register_skipped_recent_failure: 0,
            submission_missing_chunk_info: 0,
        }
    }
}

/// One more, up to the largest value.
pub open spec fn bump(n: u64) -> u64 {
    if n == u64::MAX {
        n
    } else {
        (n + 1) as u64
    }
}

/// Which chunks are registered, and how past attempts went.
#[derive(Debug)]
pub struct ChunkRegistry {
    pub registered: ChunkSet,
    pub stats: UringRegistrationStats,
    pub mode: BufferRegistrationMode,
    pub failures_recent: HashMap<u16, u64>,
}

impl ChunkRegistry {
    pub open spec fn wf(&self) -> bool {
        self.registered.wf()
    }

    /// When the last attempt to register each chunk failed. A success clears the
    /// entry of its chunk.
    pub open spec fn failures(&self) -> Map<u16, u64> {
        self.failures_recent@
    }

    /// Whether chunk `id` failed less than the cool-down ago.
    pub open spec fn cooling(&self, id: u16, now: u64) -> bool {
        self.failures().contains_key(id) && now - self.failures()[id]
            < REGISTER_FAILURE_RETRY_COOLDOWN
    }

    /// Nothing registered, nothing tried.
    pub fn new(mode: BufferRegistrationMode) -> (r: Self)
        ensures
            r.wf(),
            r.registered@ == Set::<int>::empty(),
            r.failures() == Map::<u16, u64>::empty(),
            r.mode == mode,
            r.stats == UringRegistrationStats::zero(),
    {
        ChunkRegistry {
            registered: ChunkSet::new(),
            stats: UringRegistrationStats::default(),
            mode,
            failures_recent: HashMap::new(),
        }
    }

    /// What beginning to register chunk `id` does: the attempt is counted, or that there
    /// was none because the chunk failed a moment ago.
    pub open spec fn begun(&self, after: &Self, id: u16, now: u64) -> bool {
        &&& after.registered@ == self.registered@
        &&& after.failures() == self.failures()
        &&& after.mode == self.mode
        &&& after.stats == (if self.cooling(id, now) {
            UringRegistrationStats {
                chunk_register_skipped_recent_failure: bump(
                    self.stats.chunk_register_skipped_recent_failure,
                ),
                ..self.stats
            }
        } else if id >= MAX_CHUNKS {
            self.stats
        } else {
            UringRegistrationStats {
                chunk_register_attempts: bump(self.stats.chunk_register_attempts),
                ..self.stats
            }
        })
    }

    /// What the kernel's answer to the registration of chunk `id` does.
    pub open spec fn finished(&self, after: &Self, id: u16, accepted: bool, now: u64) -> bool {
        &&& after.mode == self.mode
        &&& if accepted {
            &&& after.registered@ == self.registered@.insert(id as int)
            &&& after.failures() == self.failures().remove(id)
            &&& after.stats == (UringRegistrationStats {
                chunk_register_success: bump(self.stats.chunk_register_success),
                ..self.stats
            })
        } else {
            &&& after.registered@ == self.registered@
            &&& after.failures() == self.failures().insert(id, now)
            &&& after.stats == (UringRegistrationStats {
                chunk_register_failures: bump(self.stats.chunk_register_failures),
                ..self.stats
            })
        }
    }

    /// Every attempt to register a chunk has succeeded or failed.
    pub open spec fn accounted(&self) -> bool {
        self.stats.chunk_register_attempts == self.stats.chunk_register_success
            + self.stats.chunk_register_failures
    }

    /// Decides whether the kernel is asked to register chunk `id` now, and under
    /// which index. A chunk that failed a moment ago is refused, and so is one
    /// beyond the kernel's table.
    pub fn begin_register(&mut self, id: u16, now: u64) -> (r: Result<u32, UringError>)
        requires
            old(self).wf(),
        ensures
            final(self).wf(),
            r == (if old(self).cooling(id, now) {
                Err::<u32, UringError>(UringError::Registration)
            } else if id >= MAX_CHUNKS {
                Err(UringError::InvalidInput)
            } else {
                Ok(id as u32)
            }),
            old(self).begun(final(self), id, now),
    {
        let recent: bool = match self.failures_recent.get(&id) {
            Some(last) => now.saturating_sub(*last) < REGISTER_FAILURE_RETRY_COOLDOWN,
            None => false,
        };
        if recent {
            self.stats.chunk_register_skipped_recent_failure =
            self.stats.chunk_register_skipped_recent_failure.saturating_add(1);
            return Err(UringError::Registration);
        }
        if id as usize >= MAX_CHUNKS {
            return Err(UringError::InvalidInput);
        }
        self.stats.chunk_register_attempts = self.stats.chunk_register_attempts.saturating_add(1);
        Ok(id as u32)
    }

    /// Takes note of the kernel's answer to the registration of chunk `id`.
    pub fn finish_register(&mut self, id: u16, accepted: bool, now: u64) -> (r: Result<
        (),
        UringError,
    >)
        requires
            old(self).wf(),
            id < MAX_CHUNKS,
        ensures
            final(self).wf(),
            old(self).finished(final(self), id, accepted, now),
            r == (if accepted {
                Ok::<(), UringError>(())
            } else {
                Err(UringError::Registration)
            }),
    {
        if !accepted {
            self.stats.chunk_register_failures =
            self.stats.chunk_register_failures.saturating_add(1);
            self.failures_recent.insert(id, now);
            return Err(UringError::Registration);
        }
        self.registered.insert(id as usize);
        self.failures_recent.remove(&id);
        self.stats.chunk_register_success = self.stats.chunk_register_success.saturating_add(1);
        Ok(())
    }

    /// Counts a submission that refers to a chunk nobody can describe, and gives
    /// the error it ends with: an inner inconsistency in strict mode, bad input
    /// otherwise.
    pub fn missing_chunk_info(&mut self) -> (e: UringError)
        requires
            old(self).wf(),
        ensures
            final(self).wf(),
            final(self).registered@ == old(self).registered@,
            final(self).failures() == old(self).failures(),
            final(self).mode == old(self).mode,
            final(self).stats == (UringRegistrationStats {
                submission_missing_chunk_info: bump(old(self).stats.submission_missing_chunk_info),
                ..old(self).stats
            }),
            e == (if old(self).mode is Strict {
                UringError::InvalidState
            } else {
                UringError::InvalidInput
            }),
    {
        self.stats.submission_missing_chunk_info =
        self.stats.submission_missing_chunk_info.saturating_add(1);
        if self.mode.is_strict() {
            UringError::InvalidState
        } else {
            UringError::InvalidInput
        }
    }
}

/// A failed registration keeps its chunk from being tried again until the
/// cool-down is over, and no longer.
pub proof fn failures_cool_down(before: ChunkRegistry, after: ChunkRegistry, id: u16, at: u64, now: u64)
    requires
        after.failures() == before.failures().insert(id, at),
    ensures
        after.cooling(id, now) <==> now < at + REGISTER_FAILURE_RETRY_COOLDOWN,
{
}

/// A chunk that was registered is not held back by failures before that.
pub proof fn success_ends_cool_down(before: ChunkRegistry, after: ChunkRegistry, id: u16, now: u64)
    requires
        after.failures() == before.failures().remove(id),
    ensures
        !after.cooling(id, now),
{
}

/// Between registrations every attempt is counted again as a success or as a failure, as
/// long as the counters do not stop at the largest value. A chunk that fails is not
/// registered, and one that is refused is not even tried.
pub proof fn attempts_are_accounted_for(
    before: ChunkRegistry,
    begun: ChunkRegistry,
    after: ChunkRegistry,
    id: u16,
    now: u64,
    accepted: bool,
    later: u64,
)
    requires
        before.accounted(),
        before.stats.chunk_register_attempts < u64::MAX,
        before.begun(&begun, id, now),
        if before.cooling(id, now) || id >= MAX_CHUNKS {
            after == begun
        } else {
            begun.finished(&after, id, accepted, later)
        },
    ensures
        after.accounted(),
        after.registered@ == (if accepted && !before.cooling(id, now) && id < MAX_CHUNKS {
            before.registered@.insert(id as int)
        } else {
            before.registered@
        }),
{
}

/// A chunk that the kernel refused is not registered, and is held back for a quarter of a
/// second from then on; one that it accepted is registered and is not held back at all. No
/// other chunk is affected.
pub proof fn refused_chunks_are_held_back(
    before: ChunkRegistry,
    after: ChunkRegistry,
    id: u16,
    accepted: bool,
    at: u64,
    now: u64,
    other: u16,
)
    requires
        before.finished(&after, id, accepted, at),
    ensures
        accepted ==> after.registered@.contains(id as int) && !after.cooling(id, now),
        !accepted ==> (after.registered@.contains(id as int) <==> before.registered@.contains(
            id as int,
        )) && (after.cooling(id, now) <==> now < at + 250_000_000),
        other != id ==> (after.registered@.contains(other as int) <==> before.registered@.contains(
            other as int,
        )) && (after.cooling(other, now) <==> before.cooling(other, now)),
        after.stats.chunk_register_attempts == before.stats.chunk_register_attempts,
        after.stats.chunk_register_skipped_recent_failure
            == before.stats.chunk_register_skipped_recent_failure,
{
}

/// An attempt is counted where one is made: for a chunk that exists and is not held back. One
/// that is held back is counted as skipped. Nothing else changes.
pub proof fn attempts_are_counted_where_made(
    before: ChunkRegistry,
    after: ChunkRegistry,
    id: u16,
    now: u64,
)
    requires
        before.begun(&after, id, now),
        before.stats.chunk_register_attempts < u64::MAX,
        before.stats.chunk_register_skipped_recent_failure < u64::MAX,
    ensures
        after.stats.chunk_register_attempts == before.stats.chunk_register_attempts + (if id < 1024
            && !before.cooling(id, now) {
            1int
        } else {
            0int
        }),
        after.stats.chunk_register_skipped_recent_failure
            == before.stats.chunk_register_skipped_recent_failure + (if before.cooling(id, now) {
            1int
        } else {
            0int
        }),
        after.stats.chunk_register_success == before.stats.chunk_register_success,
        after.stats.chunk_register_failures == before.stats.chunk_register_failures,
        after.registered@ == before.registered@ && after.failures() == before.failures(),
{
}

} // verus!
