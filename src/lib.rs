//! Simulation of one aircraft's radar track and the control of its paced replay.
//!
//! - [`track`] lays out the per-second samples of a flight.
//! - [`cadence`] decides, tick by tick, what a paced replay emits and when it ends.
//! - [`session`] drives one sender session from start to its terminal state.
//!
//! The floating-point geometry and the blocking work (sleeping, reading the
//! operator's input, the background thread) live with the executable around
//! this library; the decisions they follow are made and proved here.

pub mod track;
pub mod cadence;
pub mod session;
