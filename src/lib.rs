//! A 2D particle sandbox engine: pixels drift under friction and under
//! attracting or repelling gravity fields. Lengths are fixed-point integers
//! (`fixed::UNIT` sub-units per unit).

use vstd::prelude::*;

pub mod fixed;
pub mod vector;
pub mod pixel;
pub mod gravity_field;
pub mod config;
pub mod rng;
pub mod physics;
pub mod game_field;
pub mod laws;

verus! {

} // verus!
