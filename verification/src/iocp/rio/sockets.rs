//! What is known of each socket while it is in use.
use rustc_hash::FxHashMap;
use vstd::prelude::*;
use crate::fxmap::{fx_clear, fx_get, fx_insert, fx_new, fx_remove};
use super::pool::RioFailure;

verus! {

/// `WSAENOBUFS`: the system has no more room for registered I/O.
pub const WSAENOBUFS: i32 = 10055;

/// The key of a socket.
pub type SocketKey = (usize, usize, u64);

/// What is known of a socket.
#[derive(Debug, Clone, Copy, PartialEq, Eq, Structural)]
pub struct SocketRuntime {
    /// The operations that the system works on through the completion port.
    pub inflight: usize,
    /// It is to be closed as soon as no such operation is left.
    pub closing: bool,
    /// It has a place among the registered handles.
    pub registered: bool,
    /// Registered I/O is not used for it.
    pub fallback: bool,
    /// It was associated with the completion port on that account.
    pub fallback_associated: bool,
}

impl SocketRuntime {
    /// What holds of a socket that nothing is known of.
    pub open spec fn unknown() -> Self {
        SocketRuntime {
            inflight: 0,
            closing: false,
            registered: false,
            fallback: false,
            fallback_associated: false,
        }
    }

    /// What holds of a socket that nothing is known of.
    pub fn new() -> (s: Self)
        ensures
            s == SocketRuntime::unknown(),
    {
        SocketRuntime {
            inflight: 0,
            closing: false,
            registered: false,
            fallback: false,
            fallback_associated: false,
        }
    }
}

/// What is known of the sockets in use.
pub struct Sockets {
    pub map: FxHashMap<SocketKey, SocketRuntime>,
}

/// The socket has to leave registered I/O: the system has no more room for it.
pub open spec fn demotes(failure: RioFailure) -> bool {
    failure.code == Some(WSAENOBUFS)
}

/// Whether a failure means that the socket has to leave registered I/O.
pub fn should_demote_socket(failure: &RioFailure) -> (b: bool)
    ensures
        b == demotes(*failure),
{
    match failure.code {
        Some(code) => code == WSAENOBUFS,
        None => false,
    }
}

impl Sockets {
    /// What is known of a socket.
    pub open spec fn of(&self, key: SocketKey) -> SocketRuntime {
        if self.map@.contains_key(key) {
            self.map@[key]
        } else {
            SocketRuntime::unknown()
        }
    }

    /// `after` is the same but for the socket `key`, of which `r` is known.
    pub open spec fn with(&self, after: &Self, key: SocketKey, r: SocketRuntime) -> bool {
        &&& after.of(key) == r
        &&& forall|other: SocketKey| other != key ==> #[trigger] after.of(other) == self.of(other)
    }

    /// Nothing is known.
    pub fn new() -> (s: Self)
        ensures
            forall|key: SocketKey| s.of(key) == SocketRuntime::unknown(),
    {
        Sockets { map: fx_new() }
    }

    /// What is known of a socket.
    pub fn get(&self, key: SocketKey) -> (r: SocketRuntime)
        ensures
            r == self.of(key),
    {
        match fx_get(&self.map, key) {
            Some(r) => r,
            None => SocketRuntime::new(),
        }
    }

    fn set(&mut self, key: SocketKey, r: SocketRuntime)
        ensures
            old(self).with(final(self), key, r),
    {
        fx_insert(&mut self.map, key, r);
    }

    /// Whether registered I/O is not used for a socket.
    pub fn is_iocp_fallback(&self, key: SocketKey) -> (b: bool)
        ensures
            b == self.of(key).fallback,
    {
        self.get(key).fallback
    }

    /// Takes a socket out of registered I/O if the failure says so.
    pub fn maybe_mark_iocp_fallback(&mut self, key: SocketKey, failure: &RioFailure)
        ensures
            if demotes(*failure) {
                old(self).with(
                    final(self),
                    key,
                    SocketRuntime { fallback: true, ..old(self).of(key) },
                )
            } else {
                *final(self) == *old(self)
            },
    {
        if should_demote_socket(failure) {
            let r = self.get(key);
            self.set(key, SocketRuntime { fallback: true, ..r });
        }
    }

    /// Lets a socket use registered I/O again.
    pub fn clear_iocp_fallback(&mut self, key: SocketKey)
        ensures
            old(self).with(
                final(self),
                key,
                SocketRuntime { fallback: false, fallback_associated: false, ..old(self).of(key) },
            ),
    {
        let r = self.get(key);
        self.set(key, SocketRuntime { fallback: false, fallback_associated: false, ..r });
    }

    /// Whether a socket that does not use registered I/O still has to be associated
    /// with the completion port.
    pub fn needs_iocp_fallback_association(&self, key: SocketKey) -> (b: bool)
        ensures
            b == (self.of(key).fallback && !self.of(key).fallback_associated),
    {
        let r = self.get(key);
        r.fallback && !r.fallback_associated
    }

    /// Takes note that a socket was associated with the completion port.
    pub fn mark_iocp_fallback_associated(&mut self, key: SocketKey)
        ensures
            old(self).with(
                final(self),
                key,
                SocketRuntime { fallback_associated: true, ..old(self).of(key) },
            ),
    {
        let r = self.get(key);
        self.set(key, SocketRuntime { fallback_associated: true, ..r });
    }

    /// Counts an operation on a socket, and says whether the socket is not to be
    /// closed.
    pub fn try_acquire_socket_inflight(&mut self, key: SocketKey) -> (open: bool)
        ensures
            open == !old(self).of(key).closing,
            old(self).with(
                final(self),
                key,
                SocketRuntime {
                    inflight: (if old(self).of(key).inflight == usize::MAX {
                        usize::MAX as int
                    } else {
                        old(self).of(key).inflight + 1
                    }) as usize,
                    ..old(self).of(key)
                },
            ),
    {
        let r = self.get(key);
        self.set(key, SocketRuntime { inflight: r.inflight.saturating_add(1), ..r });
        !r.closing
    }

    /// Counts an operation on a socket as ended.
    pub fn release_socket_inflight(&mut self, key: SocketKey)
        ensures
            old(self).with(
                final(self),
                key,
                SocketRuntime {
                    inflight: (if old(self).of(key).inflight == 0 {
                        0
                    } else {
                        old(self).of(key).inflight - 1
                    }) as usize,
                    ..old(self).of(key)
                },
            ),
    {
        let r = self.get(key);
        self.set(key, SocketRuntime { inflight: r.inflight.saturating_sub(1), ..r });
    }

    /// Takes note that a socket is to be closed.
    pub fn mark_socket_closing(&mut self, key: SocketKey)
        ensures
            old(self).with(
                final(self),
                key,
                SocketRuntime { closing: true, ..old(self).of(key) },
            ),
    {
        let r = self.get(key);
        self.set(key, SocketRuntime { closing: true, ..r });
    }

    /// Takes note that a socket has a place among the registered handles.
    pub fn mark_socket_registered(&mut self, key: SocketKey)
        ensures
            old(self).with(
                final(self),
                key,
                SocketRuntime { registered: true, ..old(self).of(key) },
            ),
    {
        let r = self.get(key);
        self.set(key, SocketRuntime { registered: true, ..r });
    }

    /// Whether the system works on no operation on a socket.
    pub fn socket_ready_for_cleanup(&self, key: SocketKey) -> (b: bool)
        ensures
            b == (self.of(key).inflight == 0),
    {
        self.get(key).inflight == 0
    }

    /// Forgets a socket.
    pub fn forget_socket_runtime(&mut self, key: SocketKey)
        ensures
            old(self).with(final(self), key, SocketRuntime::unknown()),
    {
        let _ = fx_remove(&mut self.map, key);
    }

    /// Lets every socket use registered I/O again, and forgets what else is known.
    pub fn clear(&mut self)
        ensures
            forall|key: SocketKey| final(self).of(key) == SocketRuntime::unknown(),
    {
        fx_clear(&mut self.map);
    }
}

} // verus!
