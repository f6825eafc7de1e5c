use vstd::prelude::*;
use crate::fixed::{
    aquot, away_div, clamp_int, div_fixed, fx_div, fx_mul, int_sqrt, isqrt, mul_fixed, sat, saturate,
    lemma_root_below, COORD_MAX, POS_MAX, UNIT,
};

verus! {

/// A 2D vector of fixed-point coordinates (`UNIT` sub-units per unit).
#[derive(Clone, Copy, Debug, PartialEq, Eq, Structural)]
pub struct Vector {
    pub x: i64,
    pub y: i64,
}

impl Vector {
    /// Both coordinates lie in the representable range.
    pub open spec fn wf(self) -> bool {
        -COORD_MAX <= self.x <= COORD_MAX && -COORD_MAX <= self.y <= COORD_MAX
    }

    /// Both coordinates lie in the range of positions.
    pub open spec fn in_play(self) -> bool {
        -POS_MAX <= self.x <= POS_MAX && -POS_MAX <= self.y <= POS_MAX
    }

    pub open spec fn mk(x: int, y: int) -> Vector {
        Vector { x: x as i64, y: y as i64 }
    }

    pub open spec fn sum(self, o: Vector) -> Vector {
        Vector::mk(sat(self.x + o.x), sat(self.y + o.y))
    }

    pub open spec fn difference(self, o: Vector) -> Vector {
        Vector::mk(sat(self.x - o.x), sat(self.y - o.y))
    }

    /// Component-wise fixed-point product.
    pub open spec fn product(self, o: Vector) -> Vector {
        Vector::mk(fx_mul(self.x as int, o.x as int), fx_mul(self.y as int, o.y as int))
    }

    /// Component-wise fixed-point quotient.
    pub open spec fn quotient(self, o: Vector) -> Vector {
        Vector::mk(fx_div(self.x as int, o.x as int), fx_div(self.y as int, o.y as int))
    }

    /// Each component clamped into `[-l, l]`.
    pub open spec fn clamped(self, l: int) -> Vector {
        Vector::mk(clamp_int(self.x as int, -l, l), clamp_int(self.y as int, -l, l))
    }

    /// Squared Euclidean length, in squared sub-units.
    pub open spec fn sq_len(self) -> int {
        self.x * self.x + self.y * self.y
    }

    /// Euclidean length in sub-units, rounded down.
    pub open spec fn length(self) -> int {
        isqrt(self.sq_len())
    }

    /// Squared Euclidean distance to `o`.
    pub open spec fn sq_dist(self, o: Vector) -> int {
        (o.x - self.x) * (o.x - self.x) + (o.y - self.y) * (o.y - self.y)
    }

    /// Euclidean distance to `o` in sub-units, rounded down.
    pub open spec fn dist(self, o: Vector) -> int {
        isqrt(self.sq_dist(o))
    }

    /// Length in `1 / UNIT` sub-units, rounded down: the precision at which
    /// a vector is normalized.
    pub open spec fn fine_length(self) -> int {
        isqrt(self.sq_len() * (UNIT * UNIT))
    }

    /// The vector of the same direction and length `UNIT`, each component
    /// rounded away from zero so that no non-zero component vanishes; the
    /// zero vector stays as it is.
    pub open spec fn normalized(self) -> Vector {
        if self.sq_len() == 0 {
            self
        } else {
            Vector::mk(
                sat(aquot(self.x * (UNIT * UNIT), self.fine_length())),
                sat(aquot(self.y * (UNIT * UNIT), self.fine_length())),
            )
        }
    }

    /// Creates a new vector
    pub fn new(x: i64, y: i64) -> (r: Vector)
        ensures
            r == (Vector { x, y }),
    {
        Vector { x, y }
    }

    /// Creates a new vector with both coordinates `num`
    pub fn from(num: i64) -> (r: Vector)
        ensures
            r == (Vector { x: num, y: num }),
    {
        Vector { x: num, y: num }
    }

    /// Creates a new vector from a pair of coordinates
    pub fn coords(coords: (i64, i64)) -> (r: Vector)
        ensures
            r == (Vector { x: coords.0, y: coords.1 }),
    {
        let (x, y) = coords;
        Vector { x, y }
    }

    /// Clamps the `x` and `y` coordinates within 0 +/- `limit`
    pub fn limit(&mut self, limit: i64)
        requires
            limit >= 0,
        ensures
            *final(self) == old(self).clamped(limit as int),
    {
        if self.x < -limit {
            self.x = -limit;
        } else if self.x > limit {
            self.x = limit;
        }
        if self.y < -limit {
            self.y = -limit;
        } else if self.y > limit {
            self.y = limit;
        }
    }

    fn sq_len_exec(&self) -> (r: u128)
        requires
            self.wf(),
        ensures
            r == self.sq_len(),
            r <= 0x2_0000_0000_0000_0000_0000,
    {
        let x: i128 = self.x as i128;
        let y: i128 = self.y as i128;
        assert(x * x <= 0x1_0000_0000_0000_0000_0000 && y * y <= 0x1_0000_0000_0000_0000_0000)
            by (nonlinear_arith)
            requires
                -0x100_0000_0000 <= x <= 0x100_0000_0000,
                -0x100_0000_0000 <= y <= 0x100_0000_0000,
        ;
        assert(x * x >= 0 && y * y >= 0) by (nonlinear_arith);
        (x * x + y * y) as u128
    }

    /// Returns the magnitude (length) of a vector, rounded down
    pub fn magnitude(&self) -> (r: i64)
        requires
            self.wf(),
        ensures
            r == self.length(),
    {
        let n: u128 = self.sq_len_exec();
        let r: u64 = int_sqrt(n);
        proof {
            lemma_root_below(n as int, r as int, 0x8000_0000_0000);
        }
        r as i64
    }

    /// Normalizes the vector. That is, changes its length to `UNIT` but keeps
    /// the direction the same; components are rounded away from zero. The
    /// zero vector is left as it is.
    pub fn normalize(&mut self)
        requires
            old(self).wf(),
        ensures
            *final(self) == old(self).normalized(),
    {
        let q: u128 = self.sq_len_exec();
        if q == 0 {
            return;
        }
        let m: u64 = int_sqrt(q * 0x10_0000);
        assert(UNIT * UNIT == 0x10_0000);
        proof {
            lemma_root_below((q * 0x10_0000) as int, m as int, 0x100_0000_0000_0000);
        }
        let nx: i64 = saturate(away_div(self.x as i128 * 0x10_0000, m as i128));
        let ny: i64 = saturate(away_div(self.y as i128 * 0x10_0000, m as i128));
        self.x = nx;
        self.y = ny;
    }

    /// Returns the distance between two vectors, rounded down to a whole
    /// sub-unit. Area-of-effect and removal tests compare squared distances
    /// instead, which needs no rounding.
    pub fn distance(&self, other: &Vector) -> (r: i64)
        requires
            self.wf(),
            other.wf(),
        ensures
            r == self.dist(*other),
    {
        let d: u128 = self.squared_distance(other);
        let r: u64 = int_sqrt(d);
        proof {
            lemma_root_below(d as int, r as int, 0x8000_0000_0000);
        }
        r as i64
    }

    /// Returns the squared distance between two vectors.
    pub fn squared_distance(&self, other: &Vector) -> (r: u128)
        requires
            self.wf(),
            other.wf(),
        ensures
            r == self.sq_dist(*other),
            r <= 0x8_0000_0000_0000_0000_0000,
    {
        let dx: i128 = other.x as i128 - self.x as i128;
        let dy: i128 = other.y as i128 - self.y as i128;
        assert(dx * dx <= 0x4_0000_0000_0000_0000_0000 && dy * dy <= 0x4_0000_0000_0000_0000_0000)
            by (nonlinear_arith)
            requires
                -0x200_0000_0000 <= dx <= 0x200_0000_0000,
                -0x200_0000_0000 <= dy <= 0x200_0000_0000,
        ;
        assert(dx * dx >= 0 && dy * dy >= 0) by (nonlinear_arith);
        (dx * dx + dy * dy) as u128
    }

    /// Sets the vector to (0,0).
    pub fn clear(&mut self)
        ensures
            *final(self) == (Vector { x: 0, y: 0 }),
    {
        self.x = 0;
        self.y = 0;
    }

    /// Component-wise sum, saturated.
    pub fn add(self, other: Vector) -> (r: Vector)
        ensures
            r == self.sum(other),
            r.wf(),
    {
        Vector {
            x: saturate(self.x as i128 + other.x as i128),
            y: saturate(self.y as i128 + other.y as i128),
        }
    }

    pub fn add_assign(&mut self, other: Vector)
        ensures
            *final(self) == old(self).sum(other),
            final(self).wf(),
    {
        *self = self.add(other);
    }

    /// Component-wise difference, saturated.
    pub fn sub(self, other: Vector) -> (r: Vector)
        ensures
            r == self.difference(other),
            r.wf(),
    {
        Vector {
            x: saturate(self.x as i128 - other.x as i128),
            y: saturate(self.y as i128 - other.y as i128),
        }
    }

    pub fn sub_assign(&mut self, other: Vector)
        ensures
            *final(self) == old(self).difference(other),
            final(self).wf(),
    {
        *self = self.sub(other);
    }

    /// Component-wise fixed-point product, saturated.
    pub fn mul(self, other: Vector) -> (r: Vector)
        ensures
            r == self.product(other),
            r.wf(),
    {
        Vector { x: mul_fixed(self.x, other.x), y: mul_fixed(self.y, other.y) }
    }

    pub fn mul_assign(&mut self, other: Vector)
        ensures
            *final(self) == old(self).product(other),
            final(self).wf(),
    {
        *self = self.mul(other);
    }

    /// Component-wise fixed-point quotient, saturated; see `fx_div` for a
    /// zero divisor.
    pub fn div(self, other: Vector) -> (r: Vector)
        ensures
            r == self.quotient(other),
            r.wf(),
    {
        Vector { x: div_fixed(self.x, other.x), y: div_fixed(self.y, other.y) }
    }

    pub fn div_assign(&mut self, other: Vector)
        ensures
            *final(self) == old(self).quotient(other),
            final(self).wf(),
    {
        *self = self.div(other);
    }
}

} // verus!
