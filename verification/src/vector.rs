//! Vectors of three real numbers, for stating where the camera is.

use crate::reals::{lemma_product_of_sum, lemma_square_is_not_negative, lemma_square_of_product};
use vstd::prelude::*;

verus! {

/// A point or a direction in world space, over the real numbers.
pub struct Vector {
    pub x: real,
    pub y: real,
    pub z: real,
}

impl Vector {
    /// The origin.
    pub open spec fn zero() -> Vector {
        Vector { x: 0real, y: 0real, z: 0real }
    }

    /// Componentwise sum.
    pub open spec fn plus(self, other: Vector) -> Vector {
        Vector { x: self.x + other.x, y: self.y + other.y, z: self.z + other.z }
    }

    /// Componentwise difference.
    pub open spec fn minus(self, other: Vector) -> Vector {
        Vector { x: self.x - other.x, y: self.y - other.y, z: self.z - other.z }
    }

    /// Every component multiplied by `k`.
    pub open spec fn scaled(self, k: real) -> Vector {
        Vector { x: self.x * k, y: self.y * k, z: self.z * k }
    }

    /// The scalar product.
    pub open spec fn dot(self, other: Vector) -> real {
        self.x * other.x + self.y * other.y + self.z * other.z
    }

    /// The square of the Euclidean length.
    pub open spec fn norm_squared(self) -> real {
        self.dot(self)
    }

    /// Linear interpolation from `self` towards `to`: `self + (to - self) * t`.
    pub open spec fn lerp(self, to: Vector, t: real) -> Vector {
        self.plus(to.minus(self).scaled(t))
    }

    /// `self` and `other` lie on one line through the origin.
    pub open spec fn parallel(self, other: Vector) -> bool {
        &&& self.x * other.y == self.y * other.x
        &&& self.y * other.z == self.z * other.y
        &&& self.z * other.x == self.x * other.z
    }

    /// `self` has length one and points the way `along` points. There is
    /// one such vector for each `along` but the zero vector, and none for
    /// that.
    pub open spec fn is_unit_along(self, along: Vector) -> bool {
        &&& self.norm_squared() == 1real
        &&& self.parallel(along)
        &&& self.dot(along) > 0real
    }
}

/// Scaling a vector by `k` scales the square of its length by `k * k`.
pub proof fn lemma_scaled_norm(v: Vector, k: real)
    ensures
        v.scaled(k).norm_squared() == k * k * v.norm_squared(),
{
    lemma_square_of_product(v.x, k);
    lemma_square_of_product(v.y, k);
    lemma_square_of_product(v.z, k);
    lemma_product_of_sum(k * k, v.x * v.x, v.y * v.y, v.z * v.z);
}

/// The square of a vector's length is never negative.
pub proof fn lemma_norm_is_not_negative(v: Vector)
    ensures
        v.norm_squared() >= 0real,
{
    lemma_square_is_not_negative(v.x);
    lemma_square_is_not_negative(v.y);
    lemma_square_is_not_negative(v.z);
}

} // verus!
