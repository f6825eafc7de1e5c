use vstd::prelude::*;
use crate::vector::Vector;

verus! {

/// A pixel unit: a point particle with a position and a velocity.
#[derive(Clone, Copy, Debug, PartialEq, Eq, Structural)]
pub struct Pixel {
    /// The screen position vector of the pixel
    pub position: Vector,
    /// Current velocity of this pixel
    pub velocity: Vector,
}

impl Pixel {
    pub open spec fn wf(self) -> bool {
        self.position.in_play() && self.velocity.wf()
    }

    /// Spawns a new pixel at rest
    pub fn new(position: Vector) -> (r: Pixel)
        ensures
            r.position == position,
            r.velocity == (Vector { x: 0, y: 0 }),
    {
        Pixel { velocity: Vector::from(0), position }
    }
}

} // verus!
