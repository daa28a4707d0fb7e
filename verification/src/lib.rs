//! Verified core of a small chat relay: the bounded message history, the
//! subscriber registry with its fan-out and backpressure policy, and the
//! per-connection session lifecycle.

pub mod client;
pub mod history;
pub mod identity;
pub mod message;
pub mod registry;
pub mod server;
pub mod session;
pub mod trusted;

