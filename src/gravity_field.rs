use vstd::prelude::*;
use crate::vector::Vector;

verus! {

/// A gravity field in the arena. The field attracts when its strength is
/// positive and repels when it is negative.
#[derive(Clone, Copy, Debug, PartialEq, Eq, Structural)]
pub struct GravityField {
    /// Position of the gravity field
    pub position: Vector,
    /// Area of effect of this field: pixels farther than `aoe` are not
    /// affected by it.
    pub aoe: i64,
    /// Acceleration given to the pixels affected by this field.
    pub strength: i64,
}

impl GravityField {
    pub open spec fn wf(self) -> bool {
        self.position.in_play()
    }

    /// `point` lies within the area of effect, its boundary included.
    pub open spec fn covers(self, point: Vector) -> bool {
        self.aoe >= 0 && self.position.sq_dist(point) <= self.aoe * self.aoe
    }

    /// The acceleration this field gives a pixel at `point`: the unit vector
    /// toward the field, scaled by the strength.
    pub open spec fn pull(self, point: Vector) -> Vector {
        self.position.difference(point).normalized().product(
            Vector { x: self.strength, y: self.strength },
        )
    }

    /// Spawns a new gravity field
    pub fn new(position: Vector, aoe: i64, strength: i64) -> (r: GravityField)
        ensures
            r == (GravityField { position, aoe, strength }),
    {
        GravityField { position, aoe, strength }
    }

    /// Checks whether a vector is inside the `aoe` of this field, boundary
    /// included. The squared distance is compared with `aoe * aoe` exactly,
    /// so this can differ from comparing the rounded-down `Vector::distance`
    /// with `aoe`: a point at any distance above `aoe` is outside.
    pub fn in_aoe(&self, vector: &Vector) -> (r: bool)
        requires
            self.wf(),
            vector.wf(),
        ensures
            r == self.covers(*vector),
    {
        if self.aoe < 0 {
            return false;
        }
        let a: u128 = self.aoe as u128;
        assert(a * a < 0x4000_0000_0000_0000_0000_0000_0000_0000) by (nonlinear_arith)
            requires
                a < 0x8000_0000_0000_0000,
        ;
        self.position.squared_distance(vector) <= a * a
    }

    /// The acceleration this field gives a pixel at `point`.
    pub fn contribution(&self, point: &Vector) -> (r: Vector)
        requires
            self.wf(),
            point.wf(),
        ensures
            r == self.pull(*point),
            r.wf(),
    {
        let mut direction = self.position.sub(*point);
        direction.normalize();
        direction.mul(Vector::from(self.strength))
    }

    /// Whether the field repels rather than attracts.
    pub fn is_repelling(&self) -> (r: bool)
        ensures
            r == (self.strength < 0),
    {
        self.strength < 0
    }
}

} // verus!
