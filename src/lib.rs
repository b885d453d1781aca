//! Deterministic per-tick simulation core of a two-player arena shooter.
//!
//! All quantities are integers: positions in millionths of a map unit, unit
//! directions in thousandths, and times in milliseconds, so that every peer
//! of a rollback session computes bit-identical states.
use vstd::prelude::*;

pub mod aim;
pub mod components;
pub mod guarantees;
pub mod input;
pub mod resources;
pub mod rollback_functions;
