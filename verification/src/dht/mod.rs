//! One node of the ring: its store and its service, and what holds of the
//! joins, handoffs, queries and routes that they make up.

pub mod handoff;
pub mod queries;
pub mod routing;
pub mod service;
pub mod store;
pub mod topology;
