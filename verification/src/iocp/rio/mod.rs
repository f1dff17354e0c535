//! Registered I/O: requests go to the kernel through pre-registered buffers and
//! per-socket request queues, and come back through one completion queue.
pub mod actors;
pub mod contexts;
pub mod control;
pub mod kernel;
pub mod keys;
pub mod laws;
pub mod lifecycle;
pub mod pool;
pub mod pool_delivery;
pub mod pool_laws;
pub mod pool_lifecycle;
pub mod pool_slots;
pub mod pool_steps;
pub mod registry;
pub mod sockets;
pub mod state;
pub mod submit;
pub mod tokens;
pub mod upkeep_laws;
