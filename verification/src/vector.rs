//! Three-component vectors in body axes.
use crate::float::{dec, whole, zero, F64};
use vstd::prelude::*;

verus! {

/// A vector in body axes.
#[derive(Debug, Clone, Copy, PartialEq)]
pub struct Vector {
    pub x: F64,
    pub y: F64,
    pub z: F64,
}

impl Vector {
    /// [`new`] in contracts.
    pub open spec fn new_spec(x: F64, y: F64, z: F64) -> Vector {
        Vector { x, y, z }
    }

    #[verifier::when_used_as_spec(new_spec)]
    pub fn new(x: F64, y: F64, z: F64) -> (r: Vector)
        ensures
            r == Self::new(x, y, z),
    {
        Vector { x, y, z }
    }

    /// [`null`] in contracts.
    pub open spec fn null_spec() -> Vector {
        Vector { x: zero(), y: zero(), z: zero() }
    }

    /// The null vector.
    #[verifier::when_used_as_spec(null_spec)]
    pub fn null() -> (r: Vector)
        ensures
            r == Self::null(),
    {
        Vector { x: zero(), y: zero(), z: zero() }
    }

    /// [`Self::is_finite`] in contracts.
    pub open spec fn is_finite_spec(self) -> bool {
        self.x.is_finite() && self.y.is_finite() && self.z.is_finite()
    }

    /// Whether every component is finite.
    #[verifier::when_used_as_spec(is_finite_spec)]
    pub fn is_finite(self) -> (r: bool)
        ensures
            r == self.is_finite(),
    {
        self.x.is_finite() && self.y.is_finite() && self.z.is_finite()
    }

    /// [`Self::dot`] in contracts.
    pub open spec fn dot_spec(self, other: Vector) -> F64 {
        self.x * other.x + self.y * other.y + self.z * other.z
    }

    #[verifier::when_used_as_spec(dot_spec)]
    pub fn dot(self, other: Vector) -> (r: F64)
        ensures
            r == self.dot(other),
    {
        self.x * other.x + self.y * other.y + self.z * other.z
    }

    /// [`Self::length`] in contracts.
    pub open spec fn length_spec(self) -> F64 {
        self.dot(self).sqrt()
    }

    #[verifier::when_used_as_spec(length_spec)]
    pub fn length(self) -> (r: F64)
        ensures
            r == self.length(),
    {
        self.dot(self).sqrt()
    }

    /// [`Self::cross`] in contracts.
    pub open spec fn cross_spec(self, other: Vector) -> Vector {
        Vector {
            x: self.y * other.z - other.y * self.z,
            y: self.z * other.x - other.z * self.x,
            z: self.x * other.y - other.x * self.y,
        }
    }

    /// The cross product.
    #[verifier::when_used_as_spec(cross_spec)]
    pub fn cross(self, other: Vector) -> (r: Vector)
        ensures
            r == self.cross(other),
    {
        Vector {
            x: self.y * other.z - other.y * self.z,
            y: self.z * other.x - other.z * self.x,
            z: self.x * other.y - other.x * self.y,
        }
    }

    /// [`Self::scaled`] in contracts.
    pub open spec fn scaled_spec(self, factor: F64) -> Vector {
        Vector { x: self.x * factor, y: self.y * factor, z: self.z * factor }
    }

    #[verifier::when_used_as_spec(scaled_spec)]
    pub fn scaled(self, factor: F64) -> (r: Vector)
        ensures
            r == self.scaled(factor),
    {
        Vector { x: self.x * factor, y: self.y * factor, z: self.z * factor }
    }

    /// [`Self::plus`] in contracts.
    pub open spec fn plus_spec(self, other: Vector) -> Vector {
        Vector { x: self.x + other.x, y: self.y + other.y, z: self.z + other.z }
    }

    #[verifier::when_used_as_spec(plus_spec)]
    pub fn plus(self, other: Vector) -> (r: Vector)
        ensures
            r == self.plus(other),
    {
        Vector { x: self.x + other.x, y: self.y + other.y, z: self.z + other.z }
    }

    /// [`Self::normalized`] in contracts.
    pub open spec fn normalized_spec(self) -> Vector {
        self.scaled(whole(1) / self.length())
    }

    /// The vector scaled by the reciprocal of its length.
    #[verifier::when_used_as_spec(normalized_spec)]
    pub fn normalized(self) -> (r: Vector)
        ensures
            r == self.normalized(),
    {
        self.scaled(whole(1) / self.length())
    }

    /// [`Self::is_unit`] in contracts.
    pub open spec fn is_unit_spec(self) -> bool {
        !((self.length() - whole(1)).abs() > dec(1, 9))
    }

    /// Whether the length is one to within a billionth.
    #[verifier::when_used_as_spec(is_unit_spec)]
    pub fn is_unit(self) -> (r: bool)
        ensures
            r == self.is_unit(),
    {
        !((self.length() - whole(1)).abs() > dec(1, 9))
    }
}

} // verus!
