//! Colliders: the shape and mass of a body, and the contacts between them.
//!
//! The solver does not intersect shapes itself. A narrow phase outside this
//! library answers, for two shapes at their poses, with a point and an
//! outward normal on each and the depth between them; [`contact`] admits such
//! an answer as a [`Contact`] or turns it down.

use vstd::prelude::*;
use crate::fixed::{lemma_mul_kept_sign, Fixed, SCALE};
use crate::vector::Vec3;

verus! {

/// The shape of a collider, centred on the body it is attached to.
#[derive(Clone, Copy, Debug, PartialEq, Eq)]
pub enum Shape {
    /// A sphere.
    Ball { radius: Fixed },
    /// A line segment aligned with the Y-axis inflated by some radius.
    Capsule { radius: Fixed, length: Fixed },
    /// A half-space below the plane through the origin with the given
    /// normal. It does not move: its mass is taken as infinite.
    Plane { normal: Vec3 },
}

/// The shape and mass of a body.
#[derive(Clone, Copy, Debug, PartialEq, Eq)]
pub struct Collider {
    /// The mass; not read for a plane.
    pub mass: Fixed,
    pub shape: Shape,
}

/// Why a collider cannot enter the solver.
#[derive(Clone, Copy, Debug, PartialEq, Eq, Structural)]
pub enum ColliderError {
    /// A ball or capsule whose mass is not positive.
    MassNotPositive,
    /// A plane whose normal has length zero.
    NormalZero,
    /// A ball or capsule whose inverse moment of inertia has length zero:
    /// one whose roots, as the narrow phase gives them, are all zero.
    InertiaZero,
}

/// One point of touch between two shapes: where it lies on each, the outward
/// normal of each there, and the signed distance between the two points.
#[derive(Clone, Copy, Debug, PartialEq, Eq)]
pub struct Contact {
    pub points: (Vec3, Vec3),
    /// The normal of each shape at its point, pointing out of the shape.
    pub normals: (Vec3, Vec3),
    /// The distance from the point on the first shape to the point on the
    /// second, measured along the first normal. It is negative where the
    /// shapes overlap, by as much as they do, and zero where they only
    /// touch. A body is pushed by `depth` times its own outward normal, so
    /// only a depth that is not positive pushes two bodies apart.
    pub depth: Fixed,
}

impl Shape {
    /// Whether the shape is a plane.
    pub open spec fn spec_is_plane(self) -> bool {
        self is Plane
    }

    /// Whether the shape is a plane.
    pub fn is_plane(&self) -> (r: bool)
        ensures
            r == self.spec_is_plane(),
    {
        match self {
            Shape::Plane { .. } => true,
            _ => false,
        }
    }
}

impl Collider {
    /// Why the solver turns the collider down, if it does: a plane needs a
    /// normal of non-zero length, any other shape a positive mass.
    pub open spec fn defect(self) -> Option<ColliderError> {
        match self.shape {
            Shape::Plane { normal } => if normal.spec_is_zero() {
                Some(ColliderError::NormalZero)
            } else {
                None
            },
            _ => if self.mass.raw <= 0 {
                Some(ColliderError::MassNotPositive)
            } else {
                None
            },
        }
    }

    /// Whether the collider may enter the solver.
    pub open spec fn wf(self) -> bool {
        self.defect().is_none()
    }

    /// The inverse mass: zero for a plane, `1 / mass` for any other shape,
    /// never rounded to zero: a mass too great for its inverse to be told
    /// from zero has an inverse of one billionth.
    pub open spec fn spec_inv_mass(self) -> Fixed {
        if self.shape is Plane {
            Fixed { raw: 0 }
        } else {
            (Fixed { raw: SCALE }).spec_div_kept(self.mass)
        }
    }

    /// The inverse moment of inertia about each principal axis: zero for a
    /// plane; for any other shape the square, axis by axis, of
    /// `inv_principal_inertia_sqrt`, never rounded to zero: about an axis
    /// whose root is not zero it is one billionth at least.
    pub open spec fn spec_inv_moment_of_inertia(self, inv_principal_inertia_sqrt: Vec3) -> Vec3 {
        if self.shape is Plane {
            Vec3::spec_zero()
        } else {
            inv_principal_inertia_sqrt.spec_mul_kept(inv_principal_inertia_sqrt)
        }
    }

    /// A collider of the given mass and shape, or the reason why the solver
    /// turns it down.
    pub fn new(mass: Fixed, shape: Shape) -> (r: Result<Collider, ColliderError>)
        ensures
            (match (Collider { mass, shape }).defect() {
                Some(e) => r == Err::<Collider, ColliderError>(e),
                None => r == Ok::<Collider, ColliderError>(Collider { mass, shape }),
            }),
            r.is_ok() ==> r.unwrap().wf(),
    {
        let collider = Collider { mass, shape };
        match collider.check() {
            Some(e) => Err(e),
            None => Ok(collider),
        }
    }

    /// Why the solver turns the collider down, if it does.
    pub fn check(&self) -> (r: Option<ColliderError>)
        ensures
            r == self.defect(),
    {
        match self.shape {
            Shape::Plane { normal } => {
                if normal.is_zero() {
                    Some(ColliderError::NormalZero)
                } else {
                    None
                }
            },
            _ => {
                if self.mass.raw <= 0 {
                    Some(ColliderError::MassNotPositive)
                } else {
                    None
                }
            },
        }
    }

    /// The inverse mass: zero for a plane, `1 / mass` for any other shape,
    /// and then positive however great the mass is.
    pub fn inv_mass(&self) -> (r: Fixed)
        requires
            self.wf(),
        ensures
            r == self.spec_inv_mass(),
            !(self.shape is Plane) ==> r.raw > 0,
    {
        if self.shape.is_plane() {
            Fixed::zero()
        } else {
            Fixed::one().div_kept(self.mass)
        }
    }

    /// The inverse moment of inertia about each principal axis, from the
    /// inverse square roots of the principal moments of inertia that the
    /// shape has at unit density. For a shape other than a plane it has
    /// length zero only where the roots have.
    pub fn inv_moment_of_inertia(&self, inv_principal_inertia_sqrt: Vec3) -> (r: Vec3)
        ensures
            r == self.spec_inv_moment_of_inertia(inv_principal_inertia_sqrt),
            !(self.shape is Plane) ==> r.spec_is_zero()
                == inv_principal_inertia_sqrt.spec_is_zero(),
    {
        proof {
            lemma_mul_kept_sign(inv_principal_inertia_sqrt.x, inv_principal_inertia_sqrt.x);
            lemma_mul_kept_sign(inv_principal_inertia_sqrt.y, inv_principal_inertia_sqrt.y);
            lemma_mul_kept_sign(inv_principal_inertia_sqrt.z, inv_principal_inertia_sqrt.z);
        }
        if self.shape.is_plane() {
            Vec3::zero()
        } else {
            inv_principal_inertia_sqrt.mul_kept(inv_principal_inertia_sqrt)
        }
    }
}

impl Contact {
    /// Whether both normals have a length: a contact without one gives no
    /// direction to push in.
    pub open spec fn spec_is_usable(self) -> bool {
        !self.normals.0.spec_is_zero() && !self.normals.1.spec_is_zero()
    }

    /// The same contact seen from the other body: points and normals
    /// exchanged.
    pub open spec fn spec_swapped(self) -> Contact {
        Contact {
            points: (self.points.1, self.points.0),
            normals: (self.normals.1, self.normals.0),
            depth: self.depth,
        }
    }

    /// Whether both normals have a length.
    pub fn is_usable(&self) -> (r: bool)
        ensures
            r == self.spec_is_usable(),
    {
        !self.normals.0.is_zero() && !self.normals.1.is_zero()
    }

    /// The same contact seen from the other body.
    pub fn swapped(&self) -> (r: Contact)
        ensures
            r == self.spec_swapped(),
    {
        Contact {
            points: (self.points.1, self.points.0),
            normals: (self.normals.1, self.normals.0),
            depth: self.depth,
        }
    }
}

/// What [`contact`] makes of a narrow-phase answer: separated shapes give no
/// contact, and neither does an answer with a normal of length zero.
pub open spec fn spec_contact(found: Option<Contact>) -> Option<Contact> {
    match found {
        Some(c) => if c.spec_is_usable() {
            Some(c)
        } else {
            None
        },
        None => None,
    }
}

/// Admits the answer of the narrow phase for one pair of shapes: `found` is
/// `None` when the shapes are apart.
pub fn contact(found: Option<Contact>) -> (r: Option<Contact>)
    ensures
        r == spec_contact(found),
{
    match found {
        Some(c) => {
            if c.is_usable() {
                Some(c)
            } else {
                None
            }
        },
        None => None,
    }
}

/// Exchanging the two bodies before the answer is admitted gives the
/// admitted contact with its points and normals exchanged.
pub proof fn lemma_contact_swap(found: Contact)
    ensures
        spec_contact(Some(found.spec_swapped())) == (match spec_contact(Some(found)) {
            Some(c) => Some(c.spec_swapped()),
            None => None,
        }),
        found.spec_swapped().spec_swapped() == found,
{
}

} // verus!
