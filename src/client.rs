//! The client: command-line configuration, actions, and the watcher's logic.
pub mod action;
pub mod config;
pub mod watch_action;
