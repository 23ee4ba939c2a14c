//! A no-repeat name picker with a slot-machine style reveal.
//!
//! The library owns the selection state machine: a pool of labelled
//! entries, each drawn at most once between resets; a timed animation
//! that flickers through candidate labels before settling on the final
//! pick; and a reset that re-arms the whole pool. Randomness comes from
//! a single trusted sampling function; everything else is verified.

pub mod engine;
pub mod laws;
pub mod model;
mod rng;
