//! Embeds a browser engine's rendering surface inside a host application's own
//! native window.
//!
//! The engine context (`engine`) keeps the engine's lifecycle state and the
//! registry of live browser views (`registry`), validates URLs (`address`) and
//! parent window handles (`window`), lays the surface out below the host's
//! chrome (`bounds`), and decides every engine operation. What it decides goes
//! out as a queue of engine commands, which the driver of the real engine runs
//! in order; what the engine reports comes back as plain values.
use vstd::prelude::*;

pub mod address;
pub mod bounds;
pub mod engine;
pub mod registry;
pub mod window;

verus! {

} // verus!
