//! Core of a real-time signaling/relay hub: peers register under an
//! application-chosen identifier and role, then exchange control messages and
//! binary payload chunks through the server, which relays each frame to the
//! peer's current target.
//!
//! The modules hold the verified logic: frame and command types, the JSON
//! field extraction and frame classification, the connection registry, the
//! per-frame routing step, and a linearized model of the whole hub.

pub mod frame;
pub mod parse;
pub mod registry;
pub mod hub;
pub mod router;

use vstd::prelude::*;

verus! {

/// Capacity of each connection's outbound queue; a relay to a queue already
/// holding this many frames is dropped rather than buffered without bound.
pub const QUEUE_CAPACITY: usize = 100;

} // verus!
