//! Three-dimensional vectors of fixed-point numbers.
//!
//! Every operation works component by component on [`Fixed`] and inherits
//! its rounding and its behaviour at the ends of the range.

use vstd::prelude::*;
use crate::fixed::Fixed;

verus! {

/// A vector, a point or an axis-wise factor in space.
#[derive(Clone, Copy, Debug, PartialEq, Eq, Structural)]
pub struct Vec3 {
    pub x: Fixed,
    pub y: Fixed,
    pub z: Fixed,
}

impl Vec3 {
    /// The vector whose components are all zero.
    pub open spec fn spec_zero() -> Vec3 {
        Vec3 { x: Fixed { raw: 0 }, y: Fixed { raw: 0 }, z: Fixed { raw: 0 } }
    }

    /// The component-wise sum.
    pub open spec fn spec_add(self, other: Vec3) -> Vec3 {
        Vec3 {
            x: self.x.spec_add(other.x),
            y: self.y.spec_add(other.y),
            z: self.z.spec_add(other.z),
        }
    }

    /// The component-wise difference.
    pub open spec fn spec_sub(self, other: Vec3) -> Vec3 {
        Vec3 {
            x: self.x.spec_sub(other.x),
            y: self.y.spec_sub(other.y),
            z: self.z.spec_sub(other.z),
        }
    }

    /// The component-wise negation.
    pub open spec fn spec_neg(self) -> Vec3 {
        Vec3 { x: self.x.spec_neg(), y: self.y.spec_neg(), z: self.z.spec_neg() }
    }

    /// Every component multiplied by `factor`.
    pub open spec fn spec_scale(self, factor: Fixed) -> Vec3 {
        Vec3 {
            x: self.x.spec_mul(factor),
            y: self.y.spec_mul(factor),
            z: self.z.spec_mul(factor),
        }
    }

    /// Every component divided by the non-zero `divisor`.
    pub open spec fn spec_div(self, divisor: Fixed) -> Vec3 {
        Vec3 {
            x: self.x.spec_div(divisor),
            y: self.y.spec_div(divisor),
            z: self.z.spec_div(divisor),
        }
    }

    /// The component-wise product.
    pub open spec fn spec_mul(self, other: Vec3) -> Vec3 {
        Vec3 {
            x: self.x.spec_mul(other.x),
            y: self.y.spec_mul(other.y),
            z: self.z.spec_mul(other.z),
        }
    }

    /// The component-wise product, with no component rounded to zero unless
    /// a factor is zero.
    pub open spec fn spec_mul_kept(self, other: Vec3) -> Vec3 {
        Vec3 {
            x: self.x.spec_mul_kept(other.x),
            y: self.y.spec_mul_kept(other.y),
            z: self.z.spec_mul_kept(other.z),
        }
    }

    /// The cross product `self x other`.
    pub open spec fn spec_cross(self, other: Vec3) -> Vec3 {
        Vec3 {
            x: self.y.spec_mul(other.z).spec_sub(other.y.spec_mul(self.z)),
            y: self.z.spec_mul(other.x).spec_sub(other.z.spec_mul(self.x)),
            z: self.x.spec_mul(other.y).spec_sub(other.x.spec_mul(self.y)),
        }
    }

    /// Whether every component is zero, that is, whether the length is zero.
    pub open spec fn spec_is_zero(self) -> bool {
        self.x.raw == 0 && self.y.raw == 0 && self.z.raw == 0
    }

    /// The vector with the given components.
    pub fn new(x: Fixed, y: Fixed, z: Fixed) -> (r: Vec3)
        ensures
            r == (Vec3 { x, y, z }),
    {
        Vec3 { x, y, z }
    }

    /// The vector whose components are all zero.
    pub fn zero() -> (r: Vec3)
        ensures
            r == Vec3::spec_zero(),
    {
        Vec3 { x: Fixed::zero(), y: Fixed::zero(), z: Fixed::zero() }
    }

    /// `self + other`.
    pub fn add(self, other: Vec3) -> (r: Vec3)
        ensures
            r == self.spec_add(other),
    {
        Vec3 { x: self.x.add(other.x), y: self.y.add(other.y), z: self.z.add(other.z) }
    }

    /// `self - other`.
    pub fn sub(self, other: Vec3) -> (r: Vec3)
        ensures
            r == self.spec_sub(other),
    {
        Vec3 { x: self.x.sub(other.x), y: self.y.sub(other.y), z: self.z.sub(other.z) }
    }

    /// `-self`.
    pub fn neg(self) -> (r: Vec3)
        ensures
            r == self.spec_neg(),
    {
        Vec3 { x: self.x.neg(), y: self.y.neg(), z: self.z.neg() }
    }

    /// `factor * self`.
    pub fn scale(self, factor: Fixed) -> (r: Vec3)
        ensures
            r == self.spec_scale(factor),
    {
        Vec3 { x: self.x.mul(factor), y: self.y.mul(factor), z: self.z.mul(factor) }
    }

    /// `self / divisor`.
    pub fn div(self, divisor: Fixed) -> (r: Vec3)
        requires
            divisor.raw != 0,
        ensures
            r == self.spec_div(divisor),
    {
        Vec3 { x: self.x.div(divisor), y: self.y.div(divisor), z: self.z.div(divisor) }
    }

    /// The component-wise product of `self` and `other`.
    pub fn mul(self, other: Vec3) -> (r: Vec3)
        ensures
            r == self.spec_mul(other),
    {
        Vec3 { x: self.x.mul(other.x), y: self.y.mul(other.y), z: self.z.mul(other.z) }
    }

    /// The component-wise product of `self` and `other`, with no component
    /// rounded to zero unless a factor is zero.
    pub fn mul_kept(self, other: Vec3) -> (r: Vec3)
        ensures
            r == self.spec_mul_kept(other),
    {
        Vec3 {
            x: self.x.mul_kept(other.x),
            y: self.y.mul_kept(other.y),
            z: self.z.mul_kept(other.z),
        }
    }

    /// The cross product `self x other`.
    pub fn cross(self, other: Vec3) -> (r: Vec3)
        ensures
            r == self.spec_cross(other),
    {
        Vec3 {
            x: self.y.mul(other.z).sub(other.y.mul(self.z)),
            y: self.z.mul(other.x).sub(other.z.mul(self.x)),
            z: self.x.mul(other.y).sub(other.x.mul(self.y)),
        }
    }

    /// Whether the vector has length zero.
    pub fn is_zero(self) -> (r: bool)
        ensures
            r == self.spec_is_zero(),
    {
        self.x.is_zero() && self.y.is_zero() && self.z.is_zero()
    }
}

} // verus!
