//! The messages that nodes, registry and clients exchange.

pub mod dht;
pub mod registry;
