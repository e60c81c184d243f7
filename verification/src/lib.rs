//! Parametric spirograph curves built from sums of rotating vectors.
//!
//! The simulation core is exact: every scalar (coordinate, amplitude,
//! phase, frequency, time) is a fixed-point integer at the scale of
//! [`fixed::SCALE`], so sampling is a pure, fully specified function
//! of the generator's state and the time value, and the contracts
//! state the result of every operation precisely.  Where the machine
//! word bounds a value, the operation's `requires` says exactly what
//! must fit; no operation panics.

pub mod complex;
pub mod family;
pub mod spirograph;
pub mod fixed;
pub mod trig;
