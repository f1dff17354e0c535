//! Buffer registrations: chunks of the buffer pools, single heap buffers, and the
//! pages that hold addresses.
use rustc_hash::FxHashMap;
use std::collections::HashSet;
use vstd::prelude::*;
use crate::fxmap::{fx_clear, fx_get, fx_insert, fx_keys, fx_len, fx_new, fx_remove, no_entries};
use crate::iocp::buffer::{IocpBuffer, MemoryRange};
use crate::iocp::error::RioError;
use crate::uring::chunks::bump;
use crate::uring::op::PoolKind;
use super::kernel::{RioBuf, RioBufferId, RioCq};
use super::pool::Answer;

verus! {

broadcast use vstd::std_specs::hash::group_hash_axioms;

/// How long memory whose registration failed is left alone, in nanoseconds.
pub const REGISTER_FAILURE_RETRY_COOLDOWN: u64 = 250_000_000;

/// When that many heap buffers are registered, all of them are given up.
pub const MAX_HEAP_BUFFERS: usize = 1024;

/// Counters of the registration machinery. They stop at the largest value.
#[derive(Debug, Clone, Copy, PartialEq, Eq, Structural)]
pub struct RioRegistrationStats {
    pub chunk_register_attempts: u64,
    pub chunk_register_success: u64,
    pub chunk_register_failures: u64,
    pub chunk_register_skipped_recent_failure: u64,
    pub heap_register_attempts: u64,
    pub heap_register_success: u64,
    pub heap_register_failures: u64,
    pub heap_register_skipped_recent_failure: u64,
}

impl RioRegistrationStats {
    /// Nothing counted yet.
    pub open spec fn zero() -> Self {
        RioRegistrationStats {
            chunk_register_attempts: 0,
            chunk_register_success: 0,
            chunk_register_failures: 0,
            chunk_register_skipped_recent_failure: 0,
            heap_register_attempts: 0,
            heap_register_success: 0,
            heap_register_failures: 0,
            heap_register_skipped_recent_failure: 0,
        }
    }
}

impl Default for RioRegistrationStats {
    fn default() -> (s: Self)
        ensures
            s == RioRegistrationStats::zero(),
    {
        RioRegistrationStats {
            chunk_register_attempts: 0,
            chunk_register_success: 0,
            chunk_register_failures: 0,
            chunk_register_skipped_recent_failure: 0,
            heap_register_attempts: 0,
            heap_register_success: 0,
            heap_register_failures: 0,
            heap_register_skipped_recent_failure: 0,
        }
    }
}

/// A registered page.
#[derive(Debug, Clone, Copy, PartialEq, Eq, Structural)]
pub struct SlabPage {
    pub id: RioBufferId,
    pub range: MemoryRange,
}

/// The arguments of `RIOCreateRequestQueue`.
#[derive(Debug, Clone, Copy, PartialEq, Eq, Structural)]
pub struct RioRqConfig {
    pub socket: usize,
    pub max_outstanding_recvs: u32,
    pub max_receive_data_buffers: u32,
    pub max_outstanding_sends: u32,
    pub max_send_data_buffers: u32,
    pub recv_cq: RioCq,
    pub send_cq: RioCq,
}

/// Memory that a registration is made for.
#[derive(Debug, Clone, Copy, PartialEq, Eq)]
pub enum Registrand {
    Chunk { id: u16 },
    Heap { key: (usize, usize, u64) },
    Page { index: usize },
}

/// What is known of the registration of some memory.
#[derive(Debug, Clone, Copy, PartialEq, Eq)]
pub enum Lookup {
    /// It is registered.
    Known(RioBufferId),
    /// It has to be registered: the caller hands `range` to `RIORegisterBuffer`.
    Register { what: Registrand, range: MemoryRange },
    /// It cannot be used.
    Failed(RioError),
}

/// The registrations.
pub struct RioRegistry {
    /// By chunk number. 0 means none.
    pub chunk_registry: Vec<RioBufferId>,
    pub slab_rio_pages: Vec<Option<SlabPage>>,
    pub heap_rio_bufs: FxHashMap<(usize, usize, u64), RioBufferId>,
    /// Given up, but perhaps still in use by a request.
    pub pending_deregistrations: Vec<RioBufferId>,
    pub rq_depth: u32,
    pub registration_stats: RioRegistrationStats,
    /// When the last attempt for a chunk failed.
    pub chunk_register_failures_recent: FxHashMap<u16, u64>,
    /// When the last attempt for a heap buffer failed.
    pub heap_register_failures_recent: FxHashMap<(usize, usize, u64), u64>,
}

/// Whether a failure at `failed` is still too recent at `now`.
pub open spec fn too_recent(failed: u64, now: u64) -> bool {
    now - failed < REGISTER_FAILURE_RETRY_COOLDOWN
}

/// The chunks, with room for chunk `id`.
pub open spec fn with_room(chunks: Seq<RioBufferId>, id: u16) -> Seq<RioBufferId> {
    if chunks.len() > id {
        chunks
    } else {
        chunks + Seq::new((id + 1 - chunks.len()) as nat, |k: int| RioBufferId { id: 0 })
    }
}

impl RioRegistry {
    /// Every identifier that is kept belongs to a buffer.
    pub open spec fn wf(&self) -> bool {
        &&& forall|k: int|
            0 <= k < self.pending_deregistrations@.len()
                ==> (#[trigger] self.pending_deregistrations@[k]).id != 0
        &&& forall|k: int|
            0 <= k < self.slab_rio_pages@.len() ==> ((
            #[trigger] self.slab_rio_pages@[k]) matches Some(p) ==> p.id.id != 0)
        &&& forall|key: (usize, usize, u64)| #[trigger]
            self.heap_rio_bufs@.contains_key(key) ==> self.heap_rio_bufs@[key].id != 0
    }

    /// The registration of chunk `id`, if it has one.
    pub open spec fn chunk(&self, id: u16) -> Option<RioBufferId> {
        if id < self.chunk_registry@.len() && self.chunk_registry@[id as int].id != 0 {
            Some(self.chunk_registry@[id as int])
        } else {
            None
        }
    }

    /// The registration of page `index`, if it has one.
    pub open spec fn page(&self, index: int) -> Option<SlabPage> {
        if 0 <= index < self.slab_rio_pages@.len() {
            self.slab_rio_pages@[index]
        } else {
            None
        }
    }

    /// Chunk `id` failed too recently to be tried again.
    pub open spec fn chunk_cooling(&self, id: u16, now: u64) -> bool {
        self.chunk_register_failures_recent@.contains_key(id) && too_recent(
            self.chunk_register_failures_recent@[id],
            now,
        )
    }

    /// The heap buffer `key` failed too recently to be tried again.
    pub open spec fn heap_cooling(&self, key: (usize, usize, u64), now: u64) -> bool {
        self.heap_register_failures_recent@.contains_key(key) && too_recent(
            self.heap_register_failures_recent@[key],
            now,
        )
    }

    /// Nothing but chunks, what waits for deregistration, and the counters differs.
    pub open spec fn same_but_chunks(&self, before: &Self) -> bool {
        &&& self.slab_rio_pages@ == before.slab_rio_pages@
        &&& self.heap_rio_bufs@ == before.heap_rio_bufs@
        &&& self.rq_depth == before.rq_depth
        &&& self.heap_register_failures_recent@ == before.heap_register_failures_recent@
    }

    /// Nothing but heap buffers, what waits for deregistration, and the counters
    /// differs.
    pub open spec fn same_but_heap(&self, before: &Self) -> bool {
        &&& self.slab_rio_pages@ == before.slab_rio_pages@
        &&& self.chunk_registry@ == before.chunk_registry@
        &&& self.rq_depth == before.rq_depth
        &&& self.chunk_register_failures_recent@ == before.chunk_register_failures_recent@
    }

    /// Nothing but pages differs.
    pub open spec fn same_but_pages(&self, before: &Self) -> bool {
        &&& self.chunk_registry@ == before.chunk_registry@
        &&& self.heap_rio_bufs@ == before.heap_rio_bufs@
        &&& self.pending_deregistrations@ == before.pending_deregistrations@
        &&& self.rq_depth == before.rq_depth
        &&& self.registration_stats == before.registration_stats
        &&& self.chunk_register_failures_recent@ == before.chunk_register_failures_recent@
        &&& self.heap_register_failures_recent@ == before.heap_register_failures_recent@
    }

    /// Everything is the same.
    pub open spec fn unchanged(&self, before: &Self) -> bool {
        &&& self.same_but_pages(before)
        &&& self.slab_rio_pages@ == before.slab_rio_pages@
    }

    /// Nothing is registered, and nothing failed a moment ago.
    pub open spec fn bare(&self) -> bool {
        &&& self.chunk_registry@.len() == 0
        &&& self.pending_deregistrations@.len() == 0
        &&& self.slab_rio_pages@.len() == 0
        &&& no_entries(self.heap_rio_bufs@)
        &&& no_entries(self.chunk_register_failures_recent@)
        &&& no_entries(self.heap_register_failures_recent@)
    }

    /// Nothing is registered, and nothing was tried.
    pub open spec fn fresh(&self, rq_depth: u32) -> bool {
        &&& self.bare()
        &&& self.rq_depth == rq_depth
        &&& self.registration_stats == RioRegistrationStats::zero()
    }

    /// `after` is what is left when every registration is given up.
    pub open spec fn emptied(&self, after: &Self) -> bool {
        &&& after.bare()
        &&& after.rq_depth == self.rq_depth
        &&& after.registration_stats == self.registration_stats
    }

    /// Nothing registered, nothing tried.
    pub fn new(rq_depth: u32) -> (r: Self)
        ensures
            r.wf(),
            r.fresh(rq_depth),
    {
        RioRegistry {
            chunk_registry: Vec::new(),
            slab_rio_pages: Vec::new(),
            heap_rio_bufs: fx_new(),
            pending_deregistrations: Vec::new(),
            rq_depth,
            registration_stats: RioRegistrationStats::default(),
            chunk_register_failures_recent: fx_new(),
            heap_register_failures_recent: fx_new(),
        }
    }

    /// What beginning to register chunk `id` does. One that failed a moment ago is left
    /// alone, which is counted. Otherwise the attempt is counted, there is room for the
    /// chunk, and an earlier registration of it waits for deregistration.
    pub open spec fn chunk_begun(&self, after: &Self, id: u16, now: u64) -> bool {
        let stats = self.registration_stats;
        &&& after.same_but_chunks(self)
        &&& after.chunk_register_failures_recent@ == self.chunk_register_failures_recent@
        &&& forall|other: u16| after.chunk(other) == self.chunk(other)
        &&& if self.chunk_cooling(id, now) {
            &&& after.chunk_registry@ == self.chunk_registry@
            &&& after.pending_deregistrations@ == self.pending_deregistrations@
            &&& after.registration_stats == (RioRegistrationStats {
                chunk_register_skipped_recent_failure: bump(
                    stats.chunk_register_skipped_recent_failure,
                ),
                ..stats
            })
        } else {
            &&& after.chunk_registry@ == with_room(self.chunk_registry@, id)
            &&& after.chunk_registry@.len() > id
            &&& after.pending_deregistrations@ == (match self.chunk(id) {
                Some(existing) => self.pending_deregistrations@.push(existing),
                None => self.pending_deregistrations@,
            })
            &&& after.registration_stats == (RioRegistrationStats {
                chunk_register_attempts: bump(stats.chunk_register_attempts),
                ..stats
            })
        }
    }

    /// What the answer to the registration of chunk `id` does: the registration, or 0.
    pub open spec fn chunk_finished(&self, after: &Self, id: u16, answer: u64, now: u64) -> bool {
        let stats = self.registration_stats;
        &&& after.same_but_chunks(self)
        &&& after.pending_deregistrations@ == self.pending_deregistrations@
        &&& if answer != 0 {
            &&& after.chunk_registry@ == self.chunk_registry@.update(
                id as int,
                RioBufferId { id: answer },
            )
            &&& after.chunk_register_failures_recent@
                == self.chunk_register_failures_recent@.remove(id)
            &&& after.registration_stats == (RioRegistrationStats {
                chunk_register_success: bump(stats.chunk_register_success),
                ..stats
            })
        } else {
            &&& after.chunk_registry@ == self.chunk_registry@
            &&& after.chunk_register_failures_recent@
                == self.chunk_register_failures_recent@.insert(id, now)
            &&& after.registration_stats == (RioRegistrationStats {
                chunk_register_failures: bump(stats.chunk_register_failures),
                ..stats
            })
        }
    }

    /// Decides whether chunk `id` is registered now. One that failed a moment ago is
    /// refused. Otherwise the attempt is counted, and an earlier registration of the
    /// chunk waits for deregistration from now on.
    pub fn begin_register_chunk(&mut self, id: u16, now: u64) -> (r: Result<(), RioError>)
        requires
            old(self).wf(),
        ensures
            final(self).wf(),
            old(self).chunk_begun(final(self), id, now),
            r == (if old(self).chunk_cooling(id, now) {
                Err::<(), RioError>(RioError::ResourceExhaustion)
            } else {
                Ok(())
            }),
    {
        if let Some(last) = fx_get(&self.chunk_register_failures_recent, id) {
            if now < last || now - last < REGISTER_FAILURE_RETRY_COOLDOWN {
                self.registration_stats.chunk_register_skipped_recent_failure =
                self.registration_stats.chunk_register_skipped_recent_failure.saturating_add(1);
                return Err(RioError::ResourceExhaustion);
            }
        }
        let idx: usize = id as usize;
        while self.chunk_registry.len() <= idx
            invariant
                old(self).wf(),
                self.same_but_chunks(old(self)),
                self.chunk_register_failures_recent@ == old(self).chunk_register_failures_recent@,
                self.pending_deregistrations@ == old(self).pending_deregistrations@,
                idx == id,
                self.chunk_registry@.len() <= idx ==> with_room(self.chunk_registry@, id)
                    == with_room(old(self).chunk_registry@, id),
                self.chunk_registry@.len() > idx ==> self.chunk_registry@ == with_room(
                    old(self).chunk_registry@,
                    id,
                ),
                self.registration_stats == old(self).registration_stats,
                forall|other: u16| self.chunk(other) == old(self).chunk(other),
                idx < usize::MAX,
            decreases idx + 1 - self.chunk_registry@.len(),
        {
            let ghost was = self.chunk_registry@;
            self.chunk_registry.push(RioBufferId::invalid());
            assert(with_room(self.chunk_registry@, id) =~= with_room(was, id));
        }
        let existing = self.chunk_registry[idx];
        if !existing.is_invalid() {
            self.pending_deregistrations.push(existing);
        }
        self.registration_stats.chunk_register_attempts =
        self.registration_stats.chunk_register_attempts.saturating_add(1);
        Ok(())
    }

    /// Takes note of the answer to the registration of chunk `id`.
    pub fn finish_register_chunk(&mut self, id: u16, answer: u64, now: u64) -> (r: Result<
        RioBufferId,
        RioError,
    >)
        requires
            old(self).wf(),
            old(self).chunk_registry@.len() > id,
        ensures
            final(self).wf(),
            old(self).chunk_finished(final(self), id, answer, now),
            r == (if answer != 0 {
                Ok::<RioBufferId, RioError>(RioBufferId { id: answer })
            } else {
                Err(RioError::BufferRegistration)
            }),
    {
        match RioBufferId::registered(answer) {
            Ok(buf_id) => {
                self.chunk_registry.set(id as usize, buf_id);
                let _ = fx_remove(&mut self.chunk_register_failures_recent, id);
                self.registration_stats.chunk_register_success =
                self.registration_stats.chunk_register_success.saturating_add(1);
                Ok(buf_id)
            },
            Err(e) => {
                self.registration_stats.chunk_register_failures =
                self.registration_stats.chunk_register_failures.saturating_add(1);
                fx_insert(&mut self.chunk_register_failures_recent, id, now);
                Err(e)
            },
        }
    }

    /// Gives up every heap buffer: their registrations wait for deregistration, in
    /// some order.
    fn give_up_heap(&mut self)
        requires
            old(self).wf(),
        ensures
            final(self).wf(),
            final(self).same_but_heap(old(self)),
            final(self).heap_register_failures_recent@ == old(self).heap_register_failures_recent@,
            final(self).registration_stats == old(self).registration_stats,
            no_entries(final(self).heap_rio_bufs@),
            heap_given_up(
                old(self).heap_rio_bufs@,
                old(self).pending_deregistrations@,
                final(self).pending_deregistrations@,
            ),
    {
        let keys = fx_keys(&self.heap_rio_bufs);
        let ghost start = self.pending_deregistrations@;
        let ghost bufs = self.heap_rio_bufs@;
        let mut i: usize = 0;
        while i < keys.len()
            invariant
                i <= keys@.len(),
                self.wf(),
                self.same_but_heap(old(self)),
                self.heap_register_failures_recent@ == old(self).heap_register_failures_recent@,
                self.registration_stats == old(self).registration_stats,
                self.heap_rio_bufs@ == bufs,
                bufs == old(self).heap_rio_bufs@,
                start == old(self).pending_deregistrations@,
                keys@.no_duplicates(),
                forall|k: (usize, usize, u64)| #[trigger] keys@.contains(k) <==> bufs.contains_key(k),
                self.pending_deregistrations@ == start + Seq::new(
                    i as nat,
                    |j: int| bufs[keys@[j]],
                ),
            decreases keys@.len() - i,
        {
            let key = keys[i];
            assert(keys@.contains(key));
            if let Some(id) = fx_get(&self.heap_rio_bufs, key) {
                self.pending_deregistrations.push(id);
            }
            i = i + 1;
            assert(self.pending_deregistrations@ =~= start + Seq::new(
                i as nat,
                |j: int| bufs[keys@[j]],
            ));
        }
        fx_clear(&mut self.heap_rio_bufs);
        proof {
            assert(keys@.to_set() =~= bufs.dom()) by {
                assert forall|k: (usize, usize, u64)| #[trigger]
                    keys@.to_set().contains(k) == bufs.dom().contains(k) by {
                    assert(keys@.contains(k) <==> bufs.contains_key(k));
                }
            }
            assert(Seq::new(i as nat, |j: int| bufs[keys@[j]]) =~= keys@.map_values(
                |k: (usize, usize, u64)| bufs[k],
            ));
            assert(heap_listing(bufs, keys@));
        }
    }

    /// Looks a heap buffer up. One that failed a moment ago is refused. When too many
    /// are registered already, all of them are given up first.
    fn lookup_heap(&mut self, buf: &IocpBuffer, now: u64) -> (r: Lookup)
        requires
            old(self).wf(),
        ensures
            final(self).wf(),
            old(self).heap_looked_up(final(self), *buf, now, r),
    {
        let key = (buf.ptr, buf.capacity, buf.cookie);
        if let Some(id) = fx_get(&self.heap_rio_bufs, key) {
            return Lookup::Known(id);
        }
        if let Some(last) = fx_get(&self.heap_register_failures_recent, key) {
            if now < last || now - last < REGISTER_FAILURE_RETRY_COOLDOWN {
                self.registration_stats.heap_register_skipped_recent_failure =
                self.registration_stats.heap_register_skipped_recent_failure.saturating_add(1);
                return Lookup::Failed(RioError::ResourceExhaustion);
            }
        }
        if fx_len(&self.heap_rio_bufs) >= MAX_HEAP_BUFFERS {
            self.give_up_heap();
        }
        self.registration_stats.heap_register_attempts =
        self.registration_stats.heap_register_attempts.saturating_add(1);
        Lookup::Register {
            what: Registrand::Heap { key },
            range: MemoryRange { ptr: buf.ptr, len: buf.capacity },
        }
    }

    /// What looking a heap buffer up leads to.
    pub open spec fn heap_looked_up(
        &self,
        after: &Self,
        buf: IocpBuffer,
        now: u64,
        r: Lookup,
    ) -> bool {
        let key = buf.heap_key();
        if self.heap_rio_bufs@.contains_key(key) {
            &&& r == Lookup::Known(self.heap_rio_bufs@[key])
            &&& after.unchanged(self)
        } else if self.heap_cooling(key, now) {
            &&& r == Lookup::Failed(RioError::ResourceExhaustion)
            &&& after.same_but_heap(self)
            &&& after.heap_rio_bufs@ == self.heap_rio_bufs@
            &&& after.heap_register_failures_recent@ == self.heap_register_failures_recent@
            &&& after.pending_deregistrations@ == self.pending_deregistrations@
            &&& after.registration_stats == (RioRegistrationStats {
                heap_register_skipped_recent_failure: bump(
                    self.registration_stats.heap_register_skipped_recent_failure,
                ),
                ..self.registration_stats
            })
        } else {
            &&& r == (Lookup::Register {
                what: Registrand::Heap { key },
                range: MemoryRange { ptr: buf.ptr, len: buf.capacity },
            })
            &&& after.same_but_heap(self)
            &&& after.heap_register_failures_recent@ == self.heap_register_failures_recent@
            &&& after.registration_stats == (RioRegistrationStats {
                heap_register_attempts: bump(self.registration_stats.heap_register_attempts),
                ..self.registration_stats
            })
            &&& if self.heap_rio_bufs@.len() >= MAX_HEAP_BUFFERS {
                &&& no_entries(after.heap_rio_bufs@)
                &&& heap_given_up(
                    self.heap_rio_bufs@,
                    self.pending_deregistrations@,
                    after.pending_deregistrations@,
                )
            } else {
                &&& after.heap_rio_bufs@ == self.heap_rio_bufs@
                &&& after.pending_deregistrations@ == self.pending_deregistrations@
            }
        }
    }

    /// Takes note of the answer to the registration of the heap buffer `key`.
    pub fn finish_register_heap(&mut self, key: (usize, usize, u64), answer: u64, now: u64) -> (r:
        Result<RioBufferId, RioError>)
        requires
            old(self).wf(),
        ensures
            final(self).wf(),
            final(self).same_but_heap(old(self)),
            final(self).pending_deregistrations@ == old(self).pending_deregistrations@,
            answer != 0 ==> {
                &&& r == Ok::<RioBufferId, RioError>(RioBufferId { id: answer })
                &&& final(self).heap_rio_bufs@ == old(self).heap_rio_bufs@.insert(
                    key,
                    RioBufferId { id: answer },
                )
                &&& final(self).heap_register_failures_recent@ == old(
                    self,
                ).heap_register_failures_recent@.remove(key)
                &&& final(self).registration_stats == (RioRegistrationStats {
                    heap_register_success: bump(old(self).registration_stats.heap_register_success),
                    ..old(self).registration_stats
                })
            },
            answer == 0 ==> {
                &&& r == Err::<RioBufferId, RioError>(RioError::BufferRegistration)
                &&& final(self).heap_rio_bufs@ == old(self).heap_rio_bufs@
                &&& final(self).heap_register_failures_recent@ == old(
                    self,
                ).heap_register_failures_recent@.insert(key, now)
                &&& final(self).registration_stats == (RioRegistrationStats {
                    heap_register_failures: bump(
                        old(self).registration_stats.heap_register_failures,
                    ),
                    ..old(self).registration_stats
                })
            },
    {
        match RioBufferId::registered(answer) {
            Ok(id) => {
                fx_insert(&mut self.heap_rio_bufs, key, id);
                let _ = fx_remove(&mut self.heap_register_failures_recent, key);
                self.registration_stats.heap_register_success =
                self.registration_stats.heap_register_success.saturating_add(1);
                Ok(id)
            },
            Err(e) => {
                self.registration_stats.heap_register_failures =
                self.registration_stats.heap_register_failures.saturating_add(1);
                fx_insert(&mut self.heap_register_failures_recent, key, now);
                Err(e)
            },
        }
    }

    /// What the answer to the registration of a buffer's memory leads to.
    pub open spec fn registration_noted(
        &self,
        after: &Self,
        what: Registrand,
        answer: Answer,
        now: u64,
    ) -> bool {
        let id = RioBufferId { id: answer.value };
        &&& after.pending_deregistrations@ == self.pending_deregistrations@
        &&& match what {
            Registrand::Chunk { id: chunk } => self.chunk_finished(after, chunk, answer.value, now),
            Registrand::Heap { key } => {
                &&& after.same_but_heap(self)
                &&& if answer.value != 0 {
                    &&& after.heap_rio_bufs@ == self.heap_rio_bufs@.insert(key, id)
                    &&& after.heap_register_failures_recent@
                        == self.heap_register_failures_recent@.remove(key)
                    &&& after.registration_stats == (RioRegistrationStats {
                        heap_register_success: bump(self.registration_stats.heap_register_success),
                        ..self.registration_stats
                    })
                } else {
                    &&& after.heap_rio_bufs@ == self.heap_rio_bufs@
                    &&& after.heap_register_failures_recent@
                        == self.heap_register_failures_recent@.insert(key, now)
                    &&& after.registration_stats == (RioRegistrationStats {
                        heap_register_failures: bump(
                            self.registration_stats.heap_register_failures,
                        ),
                        ..self.registration_stats
                    })
                }
            },
            Registrand::Page { .. } => false,
        }
    }

    /// Finds the registration of the memory a buffer lies in. `chunk` is the memory of
    /// the buffer's chunk, if anybody can tell.
    pub fn resolve_buffer_id(&mut self, buf: &IocpBuffer, chunk: Option<MemoryRange>, now: u64) -> (r:
        Lookup)
        requires
            old(self).wf(),
        ensures
            final(self).wf(),
            old(self).resolved(final(self), *buf, chunk, now, r),
    {
        if matches!(buf.pool_kind, PoolKind::Heap) {
            return self.lookup_heap(buf, now);
        }
        let id: u16 = buf.chunk_id;
        if (id as usize) < self.chunk_registry.len() {
            let known = self.chunk_registry[id as usize];
            if !known.is_invalid() {
                return Lookup::Known(known);
            }
        }
        match chunk {
            None => Lookup::Failed(RioError::Internal),
            Some(range) => match self.begin_register_chunk(id, now) {
                Ok(()) => Lookup::Register { what: Registrand::Chunk { id }, range },
                Err(e) => Lookup::Failed(e),
            },
        }
    }

    /// What looking up the memory of a buffer leads to. A heap buffer is registered by
    /// itself; any other buffer with its whole chunk, which must be known to somebody.
    pub open spec fn resolved(
        &self,
        after: &Self,
        buf: IocpBuffer,
        chunk: Option<MemoryRange>,
        now: u64,
        r: Lookup,
    ) -> bool {
        let id = buf.chunk_id;
        if buf.pool_kind is Heap {
            self.heap_looked_up(after, buf, now, r)
        } else if self.chunk(id) is Some {
            &&& r == Lookup::Known(self.chunk(id)->Some_0)
            &&& after.unchanged(self)
        } else if chunk is None {
            &&& r == Lookup::Failed(RioError::Internal)
            &&& after.unchanged(self)
        } else {
            &&& self.chunk_begun(after, id, now)
            &&& r == (if self.chunk_cooling(id, now) {
                Lookup::Failed(RioError::ResourceExhaustion)
            } else {
                Lookup::Register { what: Registrand::Chunk { id }, range: chunk->Some_0 }
            })
        }
    }

    /// The range of a registered buffer that a transfer uses.
    pub fn prepare_submission(id: RioBufferId, buf: &IocpBuffer, buf_offset: usize, len: u32) -> (r:
        RioBuf)
        requires
            buf.reaches(buf_offset),
        ensures
            r == (RioBuf {
                buffer_id: id,
                offset: ((buf.offset as u32) + (buf_offset as u32)) as u32,
                length: len,
            }),
    {
        let start: u32 = #[verifier::truncate]
        (buf.offset as u32);
        let more: u32 = #[verifier::truncate]
        (buf_offset as u32);
        RioBuf { buffer_id: id, offset: start + more, length: len }
    }

    /// Finds the registration of page `index`. `page` is the page's memory, if there
    /// is such a page.
    pub fn ensure_page_reg(&mut self, index: usize, page: Option<MemoryRange>) -> (r: Lookup)
        requires
            old(self).wf(),
            index < usize::MAX,
        ensures
            final(self).wf(),
            final(self).same_but_pages(old(self)),
            forall|k: int| final(self).page(k) == old(self).page(k),
            final(self).slab_rio_pages@.len() > index,
            r == (match (old(self).page(index as int), page) {
                (Some(p), _) => Lookup::Known(p.id),
                (None, Some(range)) => Lookup::Register {
                    what: Registrand::Page { index },
                    range,
                },
                (None, None) => Lookup::Failed(RioError::Internal),
            }),
    {
        while self.slab_rio_pages.len() <= index
            invariant
                self.wf(),
                self.same_but_pages(old(self)),
                forall|k: int| self.page(k) == old(self).page(k),
                index < usize::MAX,
            decreases index + 1 - self.slab_rio_pages@.len(),
        {
            self.slab_rio_pages.push(None);
        }
        assert(self.page(index as int) == self.slab_rio_pages@[index as int]);
        match self.slab_rio_pages[index] {
            Some(p) => Lookup::Known(p.id),
            None => match page {
                Some(range) => Lookup::Register { what: Registrand::Page { index }, range },
                None => Lookup::Failed(RioError::Internal),
            },
        }
    }

    /// Takes note of the answer to the registration of page `index`.
    pub fn finish_register_page(&mut self, index: usize, range: MemoryRange, answer: u64) -> (r:
        Result<RioBufferId, RioError>)
        requires
            old(self).wf(),
            old(self).slab_rio_pages@.len() > index,
        ensures
            final(self).wf(),
            final(self).same_but_pages(old(self)),
            answer != 0 ==> {
                &&& r == Ok::<RioBufferId, RioError>(RioBufferId { id: answer })
                &&& final(self).slab_rio_pages@ == old(self).slab_rio_pages@.update(
                    index as int,
                    Some(SlabPage { id: RioBufferId { id: answer }, range }),
                )
            },
            answer == 0 ==> {
                &&& r == Err::<RioBufferId, RioError>(RioError::BufferRegistration)
                &&& final(self).slab_rio_pages@ == old(self).slab_rio_pages@
            },
    {
        match RioBufferId::registered(answer) {
            Ok(id) => {
                self.slab_rio_pages.set(index, Some(SlabPage { id, range }));
                Ok(id)
            },
            Err(e) => Err(e),
        }
    }

    /// The request queue to create for a socket: one buffer per request, and as many
    /// requests each way as the queue depth says.
    pub fn create_rq(&self, socket: usize, cq: RioCq) -> (c: RioRqConfig)
        ensures
            c == (RioRqConfig {
                socket,
                max_outstanding_recvs: self.rq_depth,
                max_receive_data_buffers: 1,
                max_outstanding_sends: self.rq_depth,
                max_send_data_buffers: 1,
                recv_cq: cq,
                send_cq: cq,
            }),
    {
        RioRqConfig {
            socket,
            max_outstanding_recvs: self.rq_depth,
            max_receive_data_buffers: 1,
            max_outstanding_sends: self.rq_depth,
            max_send_data_buffers: 1,
            recv_cq: cq,
            send_cq: cq,
        }
    }

    /// Nothing waits for deregistration any more; else everything is the same.
    pub open spec fn flushed(&self, after: &Self) -> bool {
        &&& after.pending_deregistrations@.len() == 0
        &&& after.same_but_chunks(self)
        &&& after.same_but_heap(self)
        &&& after.heap_rio_bufs@ == self.heap_rio_bufs@
        &&& after.registration_stats == self.registration_stats
    }

    /// The registrations that waited for deregistration; the caller deregisters them.
    pub fn flush_deregs(&mut self) -> (ids: Vec<RioBufferId>)
        requires
            old(self).wf(),
        ensures
            final(self).wf(),
            ids@ == old(self).pending_deregistrations@,
            old(self).flushed(final(self)),
    {
        let mut ids: Vec<RioBufferId> = Vec::new();
        std::mem::swap(&mut ids, &mut self.pending_deregistrations);
        ids
    }

    /// Whether `id` is a registration that the registry keeps in some place.
    pub open spec fn keeps(&self, id: RioBufferId) -> bool {
        ||| self.chunk_registry@.contains(id)
        ||| self.pending_deregistrations@.contains(id)
        ||| exists|k: int|
            0 <= k < self.slab_rio_pages@.len() && ((
            #[trigger] self.slab_rio_pages@[k]) matches Some(p) && p.id == id)
        ||| exists|key: (usize, usize, u64)| #[trigger]
            self.heap_rio_bufs@.contains_key(key) && self.heap_rio_bufs@[key] == id
    }

    /// Empties the registry and gives every registration that it kept, each once; the
    /// caller deregisters them.
    pub fn cleanup_deregister(&mut self) -> (ids: Vec<RioBufferId>)
        requires
            old(self).wf(),
        ensures
            final(self).wf(),
            ids@.no_duplicates(),
            forall|id: RioBufferId|
                #[trigger] ids@.contains(id) <==> id.id != 0 && old(self).keeps(id),
            old(self).emptied(final(self)),
    {
        let mut ids = IdList::new();
        let mut i: usize = 0;
        while i < self.chunk_registry.len()
            invariant
                i <= self.chunk_registry@.len(),
                ids.wf(),
                forall|id: RioBufferId|
                    #[trigger] ids.ids@.contains(id) <==> id.id != 0
                        && self.chunk_registry@.take(i as int).contains(id),
            decreases self.chunk_registry@.len() - i,
        {
            ids.push_new(self.chunk_registry[i]);
            proof {
                taking_one_more(self.chunk_registry@, i as int);
            }
            i = i + 1;
        }
        assert(self.chunk_registry@.take(i as int) =~= self.chunk_registry@);
        let mut i: usize = 0;
        while i < self.pending_deregistrations.len()
            invariant
                i <= self.pending_deregistrations@.len(),
                ids.wf(),
                forall|id: RioBufferId|
                    #[trigger] ids.ids@.contains(id) <==> id.id != 0 && (
                    self.chunk_registry@.contains(id) || self.pending_deregistrations@.take(
                        i as int,
                    ).contains(id)),
            decreases self.pending_deregistrations@.len() - i,
        {
            ids.push_new(self.pending_deregistrations[i]);
            proof {
                taking_one_more(self.pending_deregistrations@, i as int);
            }
            i = i + 1;
        }
        assert(self.pending_deregistrations@.take(i as int) =~= self.pending_deregistrations@);
        let mut i: usize = 0;
        while i < self.slab_rio_pages.len()
            invariant
                i <= self.slab_rio_pages@.len(),
                ids.wf(),
                forall|id: RioBufferId|
                    #[trigger] ids.ids@.contains(id) <==> id.id != 0 && (
                    self.chunk_registry@.contains(id) || self.pending_deregistrations@.contains(id)
                        || exists|k: int|
                        0 <= k < i && ((#[trigger] self.slab_rio_pages@[k]) matches Some(p)
                            && p.id == id)),
            decreases self.slab_rio_pages@.len() - i,
        {
            if let Some(p) = self.slab_rio_pages[i] {
                ids.push_new(p.id);
            }
            i = i + 1;
        }
        let keys = fx_keys(&self.heap_rio_bufs);
        let mut i: usize = 0;
        while i < keys.len()
            invariant
                i <= keys@.len(),
                ids.wf(),
                forall|k: (usize, usize, u64)|
                    #[trigger] keys@.contains(k) <==> self.heap_rio_bufs@.contains_key(k),
                forall|id: RioBufferId|
                    #[trigger] ids.ids@.contains(id) <==> id.id != 0 && (
                    self.chunk_registry@.contains(id) || self.pending_deregistrations@.contains(id)
                        || (exists|k: int|
                        0 <= k < self.slab_rio_pages@.len() && ((
                        #[trigger] self.slab_rio_pages@[k]) matches Some(p) && p.id == id)) || (
                    exists|j: int| 0 <= j < i && self.heap_rio_bufs@[#[trigger] keys@[j]] == id)),
            decreases keys@.len() - i,
        {
            assert(keys@.contains(keys@[i as int]));
            if let Some(id) = fx_get(&self.heap_rio_bufs, keys[i]) {
                ids.push_new(id);
            }
            i = i + 1;
        }
        proof {
            assert forall|id: RioBufferId| #[trigger]
                ids.ids@.contains(id) <==> id.id != 0 && old(self).keeps(id) by {
                if exists|j: int|
                    0 <= j < keys@.len() && self.heap_rio_bufs@[#[trigger] keys@[j]] == id {
                    let j = choose|j: int|
                        0 <= j < keys@.len() && self.heap_rio_bufs@[#[trigger] keys@[j]] == id;
                    assert(keys@.contains(keys@[j]));
                }
                if exists|key: (usize, usize, u64)| #[trigger]
                    self.heap_rio_bufs@.contains_key(key) && self.heap_rio_bufs@[key] == id {
                    let key = choose|key: (usize, usize, u64)| #[trigger]
                        self.heap_rio_bufs@.contains_key(key) && self.heap_rio_bufs@[key] == id;
                    assert(keys@.contains(key));
                    let j = keys@.index_of(key);
                    assert(keys@[j] == key);
                }
            }
        }
        self.chunk_registry.clear();
        self.pending_deregistrations.clear();
        self.slab_rio_pages.clear();
        fx_clear(&mut self.heap_rio_bufs);
        fx_clear(&mut self.chunk_register_failures_recent);
        fx_clear(&mut self.heap_register_failures_recent);
        ids.ids
    }
}

/// `keys` lists the keys of `bufs`, each once.
pub open spec fn heap_listing(
    bufs: Map<(usize, usize, u64), RioBufferId>,
    keys: Seq<(usize, usize, u64)>,
) -> bool {
    keys.no_duplicates() && keys.to_set() == bufs.dom()
}

/// `after` is `before` followed by the values of `bufs`, in some order.
pub open spec fn heap_given_up(
    bufs: Map<(usize, usize, u64), RioBufferId>,
    before: Seq<RioBufferId>,
    after: Seq<RioBufferId>,
) -> bool {
    exists|keys: Seq<(usize, usize, u64)>|
        #[trigger] heap_listing(bufs, keys) && after == before + keys.map_values(
            |k: (usize, usize, u64)| bufs[k],
        )
}

proof fn taking_one_more(s: Seq<RioBufferId>, i: int)
    requires
        0 <= i < s.len(),
    ensures
        forall|id: RioBufferId|
            #[trigger] s.take(i + 1).contains(id) <==> s.take(i).contains(id) || id == s[i],
{
    assert forall|id: RioBufferId| #[trigger]
        s.take(i + 1).contains(id) <==> s.take(i).contains(id) || id == s[i] by {
        if s.take(i + 1).contains(id) {
            let j = s.take(i + 1).index_of(id);
            if j < i {
                assert(s.take(i)[j] == id);
            }
        }
        if s.take(i).contains(id) {
            let j = s.take(i).index_of(id);
            assert(s.take(i + 1)[j] == id);
        }
        assert(s.take(i + 1)[i] == s[i]);
    }
}

/// A list of identifiers without repetition, with a set to tell what is in it.
struct IdList {
    ids: Vec<RioBufferId>,
    seen: HashSet<u64>,
}

impl IdList {
    spec fn wf(&self) -> bool {
        &&& self.ids@.no_duplicates()
        &&& forall|id: RioBufferId|
            #[trigger] self.ids@.contains(id) <==> self.seen@.contains(id.id)
        &&& !self.seen@.contains(0)
    }

    fn new() -> (l: Self)
        ensures
            l.wf(),
            l.ids@.len() == 0,
    {
        IdList { ids: Vec::new(), seen: HashSet::new() }
    }

    /// Appends an identifier that is valid and not in the list yet.
    fn push_new(&mut self, id: RioBufferId)
        requires
            old(self).wf(),
        ensures
            final(self).wf(),
            forall|other: RioBufferId|
                #[trigger] final(self).ids@.contains(other) <==> old(self).ids@.contains(other) || (
                other == id && id.id != 0),
    {
        if !id.is_invalid() && self.seen.insert(id.id) {
            let ghost before = self.ids@;
            self.ids.push(id);
            proof {
                assert(!before.contains(id));
                assert forall|other: RioBufferId| #[trigger]
                    self.ids@.contains(other) <==> before.contains(other) || other == id by {
                    if self.ids@.contains(other) {
                        let j = self.ids@.index_of(other);
                        if j < before.len() {
                            assert(before[j] == other);
                        }
                    }
                    if before.contains(other) {
                        assert(self.ids@[before.index_of(other)] == other);
                    }
                    assert(self.ids@[before.len() as int] == id);
                }
            }
        } else if !id.is_invalid() {
            assert(self.ids@.contains(id));
        }
    }
}

impl RioRegistry {
    /// Every attempt to register a chunk has succeeded or failed.
    pub open spec fn accounted(&self) -> bool {
        let stats = self.registration_stats;
        stats.chunk_register_attempts == stats.chunk_register_success
            + stats.chunk_register_failures
    }

    /// A chunk is registered at `now`, unless it failed a moment ago; `answer` is the
    /// system's answer, which comes at `later`.
    pub open spec fn chunk_tried(
        &self,
        after: &Self,
        id: u16,
        now: u64,
        answer: u64,
        later: u64,
    ) -> bool {
        exists|mid: RioRegistry| #[trigger]
            self.chunk_begun(&mid, id, now) && if self.chunk_cooling(id, now) {
                *after == mid
            } else {
                mid.chunk_finished(after, id, answer, later)
            }
    }

    /// What the methods of the registry make of it, a chunk being registered as a whole.
    pub open spec fn stepped(&self, after: &Self) -> bool {
        ||| exists|id: u16, now: u64, answer: u64, later: u64| #[trigger]
            self.chunk_tried(after, id, now, answer, later)
        ||| exists|buf: IocpBuffer, now: u64, r: Lookup| #[trigger]
            self.heap_looked_up(after, buf, now, r)
        ||| exists|key: (usize, usize, u64), answer: Answer, now: u64| #[trigger]
            self.registration_noted(after, Registrand::Heap { key }, answer, now)
        ||| after.same_but_pages(self)
        ||| self.flushed(after)
        ||| self.emptied(after)
    }
}

/// A chunk that is registered is found under the system's answer, and what it was found
/// under before waits for deregistration. One whose registration fails is left alone
/// for a while. One that failed a moment ago is not registered, and nothing that is
/// registered or waits for deregistration changes.
pub proof fn chunks_are_registered_or_left_alone(
    before: RioRegistry,
    after: RioRegistry,
    id: u16,
    now: u64,
    answer: u64,
    later: u64,
)
    requires
        before.chunk_tried(&after, id, now, answer, later),
    ensures
        before.chunk_cooling(id, now) ==> {
            &&& after.chunk_registry@ == before.chunk_registry@
            &&& after.pending_deregistrations@ == before.pending_deregistrations@
        },
        !before.chunk_cooling(id, now) ==> after.pending_deregistrations@ == (match before.chunk(
            id,
        ) {
            Some(existing) => before.pending_deregistrations@.push(existing),
            None => before.pending_deregistrations@,
        }),
        !before.chunk_cooling(id, now) && answer != 0 ==> {
            &&& after.chunk_registry@[id as int] == RioBufferId { id: answer }
            &&& after.chunk(id) == Some(RioBufferId { id: answer })
            &&& forall|then: u64| !after.chunk_cooling(id, then)
        },
        !before.chunk_cooling(id, now) && answer == 0 ==> {
            &&& after.chunk(id) == before.chunk(id)
            &&& forall|then: u64| #[trigger]
                after.chunk_cooling(id, then) <==> then - later < REGISTER_FAILURE_RETRY_COOLDOWN
        },
        forall|other: u16| other != id ==> #[trigger] after.chunk(other) == before.chunk(other),
{
    let mid = choose|mid: RioRegistry| #[trigger]
        before.chunk_begun(&mid, id, now) && if before.chunk_cooling(id, now) {
            after == mid
        } else {
            mid.chunk_finished(&after, id, answer, later)
        };
    assert forall|other: u16| other != id implies #[trigger] after.chunk(other) == before.chunk(
        other,
    ) by {
        assert(mid.chunk(other) == before.chunk(other));
    }
    assert(mid.chunk(id) == before.chunk(id));
}

/// Step number `j` of a history.
pub open spec fn step_of(history: Seq<RioRegistry>, j: int) -> bool {
    history[j].stepped(&history[j + 1])
}

/// As long as the counters do not stop at the largest value, every attempt to register a
/// chunk is counted again as a success or as a failure.
pub proof fn attempts_are_accounted_for(history: Seq<RioRegistry>, rq_depth: u32, k: int)
    requires
        0 <= k < history.len(),
        history[0].fresh(rq_depth),
        forall|j: int| 0 <= j < history.len() - 1 ==> #[trigger] step_of(history, j),
        forall|j: int|
            0 <= j < history.len() ==> (
            #[trigger] history[j]).registration_stats.chunk_register_attempts < u64::MAX,
    ensures
        history[k].accounted(),
    decreases k,
{
    if k > 0 {
        attempts_are_accounted_for(history, rq_depth, k - 1);
        assert(step_of(history, k - 1));
        let before = history[k - 1];
        let after = history[k];
        if exists|id: u16, now: u64, answer: u64, later: u64| #[trigger]
            before.chunk_tried(&after, id, now, answer, later) {
            let (id, now, answer, later) = choose|id: u16, now: u64, answer: u64, later: u64|
                #[trigger]
                before.chunk_tried(&after, id, now, answer, later);
            let mid = choose|mid: RioRegistry| #[trigger]
                before.chunk_begun(&mid, id, now) && if before.chunk_cooling(id, now) {
                    after == mid
                } else {
                    mid.chunk_finished(&after, id, answer, later)
                };
            assert(before.chunk_begun(&mid, id, now));
        }
    }
}

} // verus!
