//! The connection registry and command engine of a text-chat relay.
//!
//! Connections register under a name and a colour; each inbound line is either
//! a slash command (`setcolor`, `setname`, `whisper`) run against the registry,
//! or chat delivered to every registered connection. The library computes who
//! receives what; the caller moves the bytes.
pub mod color;
pub mod command;
pub mod guarantees;
pub mod message;
pub mod registry;
pub mod text;
