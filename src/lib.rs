//! The integer core of a Monte Carlo path tracer: the grid-indexed scene
//! container, the bounce-by-bounce control of a light path, and the
//! plain-text pixel-map encoding of a finished image.
use vstd::prelude::*;

pub mod grid;
pub mod scene;
pub mod path;
pub mod ppm;

verus! {

} // verus!
