//! The server: its command line, per-connection state, and the coordination
//! between connection handlers.
pub mod client_state;
pub mod config;
pub mod task_communication;
