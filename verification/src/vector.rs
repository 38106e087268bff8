//! Two- and three-dimensional vectors of fixed-point numbers.
//!
//! Every operation returns a new vector; each component is the exact
//! result, cut towards zero and saturated (see [`crate::fixed`]).

use vstd::prelude::*;
use crate::fixed::{
    Fixed, ONE, saturate, trunc_div, magnitude, spec_product, is_saturated_sqrt, saturating,
    wide_product, saturated_sqrt, plus, minus, times,
};

verus! {

/// A point or direction on the screen.
#[derive(Clone, Copy, Debug, PartialEq, Eq, Structural)]
pub struct Vec2 {
    pub x: Fixed,
    pub y: Fixed,
}

/// A point or direction in world or camera space.
#[derive(Clone, Copy, Debug, PartialEq, Eq, Structural)]
pub struct Vec3 {
    pub x: Fixed,
    pub y: Fixed,
    pub z: Fixed,
}

/// A linear map of space: nine entries, row by row.
pub type Basis3 = (Fixed, Fixed, Fixed, Fixed, Fixed, Fixed, Fixed, Fixed, Fixed);

/// One component of a transformed vector: the dot product of a row with
/// the vector, brought back to sixteen fractional bits and saturated.
pub open spec fn spec_dot2(x: Fixed, y: Fixed, bx: Fixed, by: Fixed) -> int {
    saturate(trunc_div(x * bx + y * by, ONE as int))
}

/// The three-dimensional counterpart of [`spec_dot2`].
pub open spec fn spec_dot3(x: Fixed, y: Fixed, z: Fixed, bx: Fixed, by: Fixed, bz: Fixed) -> int {
    saturate(trunc_div(x * bx + y * by + z * bz, ONE as int))
}

fn dot2(x: Fixed, y: Fixed, bx: Fixed, by: Fixed) -> (r: Fixed)
    ensures
        r == spec_dot2(x, y, bx, by),
{
    let sum: i128 = wide_product(x, bx) + wide_product(y, by);
    saturating(sum / (ONE as i128))
}

fn dot3(x: Fixed, y: Fixed, z: Fixed, bx: Fixed, by: Fixed, bz: Fixed) -> (r: Fixed)
    ensures
        r == spec_dot3(x, y, z, bx, by, bz),
{
    let sum: i128 = wide_product(x, bx) + wide_product(y, by) + wide_product(z, bz);
    saturating(sum / (ONE as i128))
}

impl Vec2 {
    /// The component-wise saturated sum.
    pub open spec fn spec_add(self, other: Vec2) -> Vec2 {
        Vec2 { x: saturate(self.x + other.x) as i32, y: saturate(self.y + other.y) as i32 }
    }

    /// The component-wise saturated difference.
    pub open spec fn spec_sub(self, other: Vec2) -> Vec2 {
        Vec2 { x: saturate(self.x - other.x) as i32, y: saturate(self.y - other.y) as i32 }
    }

    /// The sum of the squares of the raw components.
    pub open spec fn spec_norm_squared(self) -> int {
        self.x * self.x + self.y * self.y
    }

    pub fn new(x: Fixed, y: Fixed) -> (r: Vec2)
        ensures
            r.x == x,
            r.y == y,
    {
        Vec2 { x, y }
    }

    pub fn add(&self, other: Vec2) -> (r: Vec2)
        ensures
            r == self.spec_add(other),
    {
        Vec2 { x: plus(self.x, other.x), y: plus(self.y, other.y) }
    }

    pub fn sub(&self, other: Vec2) -> (r: Vec2)
        ensures
            r == self.spec_sub(other),
    {
        Vec2 { x: minus(self.x, other.x), y: minus(self.y, other.y) }
    }

    /// Scales both components by the fixed-point factor `other`.
    pub fn mul(&self, other: Fixed) -> (r: Vec2)
        ensures
            r.x == saturate(spec_product(self.x, other)),
            r.y == saturate(spec_product(self.y, other)),
    {
        Vec2 { x: times(self.x, other), y: times(self.y, other) }
    }

    /// The Euclidean norm.
    pub fn len(&self) -> (r: Fixed)
        ensures
            is_saturated_sqrt(self.spec_norm_squared(), r as int),
    {
        let squares: i128 = wide_product(self.x, self.x) + wide_product(self.y, self.y);
        assert(self.x * self.x >= 0 && self.y * self.y >= 0) by (nonlinear_arith);
        saturated_sqrt(squares as u64)
    }

    /// Applies the linear map whose columns are the images `basis.0` of the
    /// x axis and `basis.1` of the y axis.
    pub fn transform(&self, basis: (Vec2, Vec2)) -> (r: Vec2)
        ensures
            r.x == spec_dot2(self.x, self.y, basis.0.x, basis.1.x),
            r.y == spec_dot2(self.x, self.y, basis.0.y, basis.1.y),
    {
        Vec2 {
            x: dot2(self.x, self.y, basis.0.x, basis.1.x),
            y: dot2(self.x, self.y, basis.0.y, basis.1.y),
        }
    }

    /// The Euclidean norm of the saturated difference `other - self`.
    pub fn euclid_distance(&self, other: Vec2) -> (r: Fixed)
        ensures
            is_saturated_sqrt(other.spec_sub(*self).spec_norm_squared(), r as int),
    {
        other.sub(*self).len()
    }

    /// The whole part of the taxicab distance: the magnitudes of the two
    /// exact differences are summed, and the fraction is dropped.
    pub fn l1_distance(&self, other: Vec2) -> (r: u32)
        ensures
            r == (magnitude(self.x - other.x) + magnitude(self.y - other.y)) / (ONE as int),
    {
        let dx: i64 = self.x as i64 - other.x as i64;
        let dy: i64 = self.y as i64 - other.y as i64;
        let ax: i64 = if dx >= 0 { dx } else { -dx };
        let ay: i64 = if dy >= 0 { dy } else { -dy };
        ((ax + ay) / (ONE as i64)) as u32
    }
}

impl Vec3 {
    /// The component-wise saturated sum.
    pub open spec fn spec_add(self, other: Vec3) -> Vec3 {
        Vec3 {
            x: saturate(self.x + other.x) as i32,
            y: saturate(self.y + other.y) as i32,
            z: saturate(self.z + other.z) as i32,
        }
    }

    /// The component-wise saturated difference.
    pub open spec fn spec_sub(self, other: Vec3) -> Vec3 {
        Vec3 {
            x: saturate(self.x - other.x) as i32,
            y: saturate(self.y - other.y) as i32,
            z: saturate(self.z - other.z) as i32,
        }
    }

    /// The image under the linear map `basis`.
    pub open spec fn spec_transform(self, basis: Basis3) -> Vec3 {
        Vec3 {
            x: spec_dot3(self.x, self.y, self.z, basis.0, basis.1, basis.2) as i32,
            y: spec_dot3(self.x, self.y, self.z, basis.3, basis.4, basis.5) as i32,
            z: spec_dot3(self.x, self.y, self.z, basis.6, basis.7, basis.8) as i32,
        }
    }

    /// The sum of the squares of the raw components.
    pub open spec fn spec_norm_squared(self) -> int {
        self.x * self.x + self.y * self.y + self.z * self.z
    }

    pub fn new(x: Fixed, y: Fixed, z: Fixed) -> (r: Vec3)
        ensures
            r.x == x,
            r.y == y,
            r.z == z,
    {
        Vec3 { x, y, z }
    }

    pub fn add(&self, other: Vec3) -> (r: Vec3)
        ensures
            r == self.spec_add(other),
    {
        Vec3 {
            x: plus(self.x, other.x),
            y: plus(self.y, other.y),
            z: plus(self.z, other.z),
        }
    }

    pub fn sub(&self, other: Vec3) -> (r: Vec3)
        ensures
            r == self.spec_sub(other),
    {
        Vec3 {
            x: minus(self.x, other.x),
            y: minus(self.y, other.y),
            z: minus(self.z, other.z),
        }
    }

    /// The Euclidean norm.
    pub fn len(&self) -> (r: Fixed)
        ensures
            is_saturated_sqrt(self.spec_norm_squared(), r as int),
    {
        let squares: i128 = wide_product(self.x, self.x) + wide_product(self.y, self.y)
            + wide_product(self.z, self.z);
        assert(self.x * self.x >= 0 && self.y * self.y >= 0 && self.z * self.z >= 0)
            by (nonlinear_arith);
        saturated_sqrt(squares as u64)
    }

    /// Applies the linear map `basis`, given row by row.
    pub fn transform(&self, basis: Basis3) -> (r: Vec3)
        ensures
            r == self.spec_transform(basis),
    {
        Vec3 {
            x: dot3(self.x, self.y, self.z, basis.0, basis.1, basis.2),
            y: dot3(self.x, self.y, self.z, basis.3, basis.4, basis.5),
            z: dot3(self.x, self.y, self.z, basis.6, basis.7, basis.8),
        }
    }

    /// The x and y components as a two-dimensional vector.
    pub fn as_vec2(&self) -> (r: Vec2)
        ensures
            r.x == self.x,
            r.y == self.y,
    {
        Vec2 { x: self.x, y: self.y }
    }
}

} // verus!
