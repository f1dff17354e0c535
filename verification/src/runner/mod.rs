//! The test runner: which commands it runs, on which target, and how often.
pub mod command;
pub mod config;
pub mod error;
pub mod laws;
pub mod plan;
pub mod targets;
