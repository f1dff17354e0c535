//! The IOCP driver, with registered I/O (RIO) for sockets.
pub mod buffer;
pub mod call_laws;
pub mod cancel;
pub mod cleanup;
pub mod close;
pub mod completion_laws;
pub mod completions;
pub mod config;
pub mod driver;
pub mod error;
pub mod files;
pub mod handle_laws;
pub mod laws;
pub mod net;
pub mod op;
pub mod part_laws;
pub mod rio;
pub mod settle_laws;
pub mod submission;
pub mod submit;
pub mod submit_laws;
pub mod table;
pub mod threads;
pub mod timers;
pub mod win32;
