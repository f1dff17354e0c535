//! The decision logic of the Veloq completion drivers: an io_uring driver, an
//! IOCP/RIO driver, and the command planner of their test runner.
//!
//! Everything here works on plain values. Talking to the kernel is left to the
//! caller, which performs the actions this crate hands out and reports back
//! what happened.
pub mod completion;
pub mod fxmap;
pub mod guard;
pub mod iocp;
pub mod nonzero;
pub mod runner;
pub mod slots;
pub mod sockaddr;
pub mod text;
pub mod uring;
