//! The registry: the list of ring members and the placement of new ones.

use vstd::prelude::*;

pub mod manager;
pub mod service;

verus! {

/// The port the registry listens on.
pub const REGISTRY_PORT: u16 = 50000;

} // verus!
