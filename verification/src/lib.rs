//! Streaming session manager for a desktop chat client.
//!
//! The library owns the logic of a chat session with a conversational
//! backend: a registry of active sessions with their cancellation
//! controllers, the dispatch loop that turns raw backend events into
//! normalized sink events under a per-event timeout, validation of
//! outgoing messages, and the small pure computations around the
//! persistent store (key derivation, settings assembly, title
//! normalization).

pub mod cancel;
pub mod config;
pub mod dispatch;
pub mod error;
pub mod events;
pub mod registry;
pub mod send;
pub mod store;
pub mod text;
