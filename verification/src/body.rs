//! Body records and the contacts between them.
//!
//! A [`Body`] holds everything the solver knows of one body; the collection
//! of bodies addresses it by its index, its handle. A [`Hit`] is a contact
//! that the narrow phase found between two bodies, named by their handles.

use vstd::prelude::*;
use crate::collider::{Collider, ColliderError, Contact, Shape};
use crate::fixed::Fixed;
use crate::motion::{spec_half, Angular, Linear};
use crate::quat::Quat;
use crate::vector::Vec3;

verus! {

/// A body record: its collider, what was derived from it when the body was
/// made, its committed pose, and its motion state.
#[derive(Clone, Copy, Debug, PartialEq, Eq)]
pub struct Body {
    pub collider: Collider,
    /// The inverse mass of the collider.
    pub inv_mass: Fixed,
    /// The inverse moment of inertia of the collider about each principal
    /// axis.
    pub inv_moment_of_inertia: Vec3,
    /// The position at the start of the current substep.
    pub translation: Vec3,
    /// The rotation at the start of the current substep, a unit quaternion.
    pub rotation: Quat,
    /// The linear motion; a body without it is never moved.
    pub linear: Option<Linear>,
    /// The angular motion; a body without it is never turned.
    pub angular: Option<Angular>,
}

/// A shape at a pose: what the narrow phase is asked about.
#[derive(Clone, Copy, Debug, PartialEq, Eq)]
pub struct Placement {
    pub shape: Shape,
    pub translation: Vec3,
    pub rotation: Quat,
}

/// A contact between the bodies with the handles `first` and `second`, found
/// at their predicted poses.
#[derive(Clone, Copy, Debug, PartialEq, Eq)]
pub struct Hit {
    pub first: usize,
    pub second: usize,
    pub contact: Contact,
}

/// The corrective impulse of a contact of the given depth on the body whose
/// outward normal is `normal`: `stiffness * 0.5 * depth * normal`. Each of
/// the two bodies gets half the depth. The depth of overlapping shapes is
/// negative, so the impulse points against the outward normal, away from
/// the other body.
pub open spec fn spec_correction(stiffness: Fixed, depth: Fixed, normal: Vec3) -> Vec3 {
    normal.spec_scale(stiffness.spec_mul(spec_half()).spec_mul(depth))
}

/// The corrective impulse of a contact on one of its two bodies.
pub fn correction(stiffness: Fixed, depth: Fixed, normal: Vec3) -> (r: Vec3)
    ensures
        r == spec_correction(stiffness, depth, normal),
{
    normal.scale(stiffness.mul(Fixed::half()).mul(depth))
}

impl Body {
    /// Whether the committed rotation and, where the body has angular
    /// motion, the predicted one are unit quaternions.
    pub open spec fn wf(self) -> bool {
        &&& self.rotation.is_unit()
        &&& self.angular matches Some(a) ==> a.wf()
    }

    /// Whether the body can collect two more impulses without reaching the
    /// limits of its accumulators.
    pub open spec fn spec_roomy(self) -> bool {
        &&& self.linear matches Some(l) ==> l.impulse.spec_roomy()
        &&& self.angular matches Some(a) ==> a.angular_impulse.spec_roomy()
    }

    /// Why the solver turns a body down, if it does: for a defect of its
    /// collider, or because a shape other than a plane comes with an inverse
    /// moment of inertia of length zero. No size of a body leads to that:
    /// the inverse is zero only where all the roots handed in are.
    pub open spec fn spec_defect(
        collider: Collider,
        inv_principal_inertia_sqrt: Vec3,
    ) -> Option<ColliderError> {
        match collider.defect() {
            Some(e) => Some(e),
            None => if !(collider.shape is Plane) && collider.spec_inv_moment_of_inertia(
                inv_principal_inertia_sqrt,
            ).spec_is_zero() {
                Some(ColliderError::InertiaZero)
            } else {
                None
            },
        }
    }

    /// A body without motion, as [`Body::new`] makes it.
    pub open spec fn spec_new(
        collider: Collider,
        inv_principal_inertia_sqrt: Vec3,
        translation: Vec3,
        rotation: Quat,
    ) -> Body {
        Body {
            collider,
            inv_mass: collider.spec_inv_mass(),
            inv_moment_of_inertia: collider.spec_inv_moment_of_inertia(inv_principal_inertia_sqrt),
            translation,
            rotation: rotation.spec_normalize(),
            linear: None,
            angular: None,
        }
    }

    /// The position that the narrow phase looks at: the predicted one where
    /// the body has linear motion, else the committed one.
    pub open spec fn spec_future_translation(self) -> Vec3 {
        match self.linear {
            Some(l) => l.translation,
            None => self.translation,
        }
    }

    /// The rotation that the narrow phase looks at: the predicted one where
    /// the body has angular motion, else the committed one.
    pub open spec fn spec_future_rotation(self) -> Quat {
        match self.angular {
            Some(a) => a.rotation,
            None => self.rotation,
        }
    }

    /// The shape of the body at the pose that the narrow phase looks at.
    pub open spec fn spec_future(self) -> Placement {
        Placement {
            shape: self.collider.shape,
            translation: self.spec_future_translation(),
            rotation: self.spec_future_rotation(),
        }
    }

    /// The body after the linear part of *integrate*.
    pub open spec fn spec_integrate_translation(self, force: Vec3, dt: Fixed) -> Body {
        match self.linear {
            Some(l) => Body {
                linear: Some(l.spec_integrate(self.translation, force, self.inv_mass, dt)),
                ..self
            },
            None => self,
        }
    }

    /// The body after the angular part of *integrate*.
    pub open spec fn spec_integrate_rotation(self, dt: Fixed) -> Body {
        match self.angular {
            Some(a) => Body {
                angular: Some(a.spec_integrate(self.rotation, self.inv_moment_of_inertia, dt)),
                ..self
            },
            None => self,
        }
    }

    /// The body after it collected `impulse`, attacking at `point`. The
    /// lever arm is taken from the predicted position as it is before any
    /// correction.
    pub open spec fn spec_touched(self, point: Vec3, impulse: Vec3) -> Body {
        Body {
            linear: match self.linear {
                Some(l) => Some(l.spec_push_impulse(impulse)),
                None => None,
            },
            angular: match self.angular {
                Some(a) => Some(a.spec_push_impulse(point, self.spec_future_translation(), impulse)),
                None => None,
            },
            ..self
        }
    }

    /// The body after the linear part of *apply* and *derive*: the collected
    /// impulses are applied, the velocity is reconstructed, and the
    /// predicted position becomes the committed one. Nothing happens unless
    /// `dt` is positive.
    pub open spec fn spec_derive_translation(self, dt: Fixed) -> Body {
        match self.linear {
            Some(l) => if dt.raw > 0 {
                let moved = l.spec_apply_impulses().spec_derive(self.translation, dt);
                Body { linear: Some(moved), translation: moved.translation, ..self }
            } else {
                self
            },
            None => self,
        }
    }

    /// The body after the angular part of *apply* and *derive*.
    pub open spec fn spec_derive_rotation(self, dt: Fixed) -> Body {
        match self.angular {
            Some(a) => if dt.raw > 0 {
                let turned = a.spec_apply_impulses().spec_derive(self.rotation, dt);
                Body { angular: Some(turned), rotation: turned.rotation, ..self }
            } else {
                self
            },
            None => self,
        }
    }

    /// A body at the given pose that neither moves nor turns, or the reason
    /// why the solver turns it down. `rotation` is brought to length one;
    /// the inverse mass and inertia are taken from the collider once, here.
    pub fn new(
        collider: Collider,
        inv_principal_inertia_sqrt: Vec3,
        translation: Vec3,
        rotation: Quat,
    ) -> (r: Result<Body, ColliderError>)
        ensures
            (match Body::spec_defect(collider, inv_principal_inertia_sqrt) {
                Some(e) => r == Err::<Body, ColliderError>(e),
                None => r == Ok::<Body, ColliderError>(
                    Body::spec_new(collider, inv_principal_inertia_sqrt, translation, rotation),
                ),
            }),
            r matches Ok(b) ==> b.wf() && b.collider.wf(),
    {
        match collider.check() {
            Some(e) => Err(e),
            None => {
                let inertia = collider.inv_moment_of_inertia(inv_principal_inertia_sqrt);
                if !collider.shape.is_plane() && inertia.is_zero() {
                    Err(ColliderError::InertiaZero)
                } else {
                    Ok(
                        Body {
                            collider,
                            inv_mass: collider.inv_mass(),
                            inv_moment_of_inertia: inertia,
                            translation,
                            rotation: rotation.normalize(),
                            linear: None,
                            angular: None,
                        },
                    )
                }
            },
        }
    }

    /// The same body with the given linear motion, whose predicted position
    /// is set to the committed one.
    pub fn linear(self, motion: Linear) -> (r: Body)
        ensures
            r == (Body {
                linear: Some(Linear { translation: self.translation, ..motion }),
                ..self
            }),
            self.wf() ==> r.wf(),
    {
        Body { linear: Some(Linear { translation: self.translation, ..motion }), ..self }
    }

    /// The same body with the given angular motion, whose predicted rotation
    /// is set to the committed one.
    pub fn angular(self, motion: Angular) -> (r: Body)
        ensures
            r == (Body { angular: Some(Angular { rotation: self.rotation, ..motion }), ..self }),
            self.wf() ==> r.wf(),
    {
        Body { angular: Some(Angular { rotation: self.rotation, ..motion }), ..self }
    }

    /// The position that the narrow phase looks at.
    pub fn future_translation(&self) -> (r: Vec3)
        ensures
            r == self.spec_future_translation(),
    {
        match self.linear {
            Some(l) => l.translation,
            None => self.translation,
        }
    }

    /// The rotation that the narrow phase looks at.
    pub fn future_rotation(&self) -> (r: Quat)
        ensures
            r == self.spec_future_rotation(),
    {
        match self.angular {
            Some(a) => a.rotation,
            None => self.rotation,
        }
    }

    /// The shape of the body at the pose that the narrow phase looks at.
    pub fn future(&self) -> (r: Placement)
        ensures
            r == self.spec_future(),
    {
        Placement {
            shape: self.collider.shape,
            translation: self.future_translation(),
            rotation: self.future_rotation(),
        }
    }

    /// Collects `impulse`, attacking at `point`, in the linear and in the
    /// angular motion, as far as the body has them.
    pub fn touch(&mut self, point: Vec3, impulse: Vec3)
        ensures
            *final(self) == old(self).spec_touched(point, impulse),
            old(self).wf() ==> final(self).wf(),
    {
        let center = self.future_translation();
        match self.linear {
            Some(mut l) => {
                l.push_impulse(impulse);
                self.linear = Some(l);
            },
            None => {},
        }
        match self.angular {
            Some(mut a) => {
                a.push_impulse(point, center, impulse);
                self.angular = Some(a);
            },
            None => {},
        }
    }
}

impl Hit {
    /// The same hit with its two bodies named in the other order.
    pub open spec fn spec_swapped(self) -> Hit {
        Hit { first: self.second, second: self.first, contact: self.contact.spec_swapped() }
    }

    /// The same hit with its two bodies named in the other order.
    pub fn swapped(&self) -> (r: Hit)
        ensures
            r == self.spec_swapped(),
    {
        Hit { first: self.second, second: self.first, contact: self.contact.swapped() }
    }
}

/// Whether every body is well formed.
pub open spec fn all_wf(bodies: Seq<Body>) -> bool {
    forall|i: int| 0 <= i < bodies.len() ==> (#[trigger] bodies[i]).wf()
}

} // verus!
