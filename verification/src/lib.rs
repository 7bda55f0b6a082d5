//! A chat-driven terminal multiplexer core.
//!
//! Callers submit shell command lines for named "terminals"; each terminal
//! runs at most one command at a time, keeps a bounded scrollback window of
//! output lines, and emits rate-limited update events for a renderer to
//! display. This crate holds the verified core: the scrollback window, the
//! update-rate timer, the per-terminal state machine, the registry that maps
//! terminal ids to live sessions, the command parser, and the event-sink
//! formatting rules. Process spawning, channels and the chat transport live
//! outside, driven through the step functions defined here.

pub mod gateway;
pub mod parser;
pub mod registry;
pub mod session;
pub mod sink;
pub mod terminal;
pub mod text;
