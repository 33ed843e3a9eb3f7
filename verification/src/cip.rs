//! The Common Industrial Protocol: scalar types, paths and message-router envelopes.

pub mod types;
pub mod path;
pub mod message;
pub mod identity;
