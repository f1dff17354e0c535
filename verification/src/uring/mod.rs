//! The io_uring driver.
pub mod call_laws;
pub mod chunks;
pub mod config;
pub mod driver;
pub mod entry;
pub mod error;
pub mod files;
pub mod laws;
pub mod lifecycle;
pub mod net;
pub mod op;
pub mod op_laws;
pub mod ring;
pub mod socket;
