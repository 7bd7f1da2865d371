//! Core of a point-to-point chat relay: a length-prefixed wire codec for chat
//! messages, and a session supervisor that routes text between named sessions.
//!
//! The wire codec frames one [`message::Message`] as one byte sequence; the
//! [`supervisor::ClientSupervisor`] owns the registry from identity to session
//! mailbox and is the sole arbiter of routing. Connection handling, channels
//! and terminals live outside this crate; the crate hands them plain values.

pub mod client;
pub mod input;
pub mod message;
pub mod session;
pub mod supervisor;
