//! Remote file transfer over SSH: a connection state machine that falls back
//! from the in-process protocol to the system client, a file-copy policy with
//! two transports, a directory walker with per-level progress, and a task
//! queue with explicit lifecycle states.

pub mod config;
pub mod connect;
pub mod files;
pub mod listing;
pub mod order;
pub mod queue;
pub mod shell;
pub mod text;
pub mod transport;
pub mod walk;
