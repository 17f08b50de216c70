//! The motion state of a rigid body and its predictor-corrector integrators.
//!
//! A substep first predicts where a body will be ([`Linear::integrate`],
//! [`Angular::integrate`]), then collects corrective impulses from the
//! contacts it takes part in (`push_impulse`), applies their mean once
//! (`apply_impulses`), and last reconstructs the velocity from the difference
//! between the corrected prediction and the pose the substep started from
//! (`derive`). A time step that is not positive leaves `integrate` and
//! `derive` without effect.

use vstd::prelude::*;
use crate::fixed::{Fixed, SCALE};
use crate::impulse::Accumulator;
use crate::quat::Quat;
use crate::vector::Vec3;

verus! {

/// A rigid body with linear motion.
#[derive(Clone, Copy, Debug, PartialEq, Eq)]
pub struct Linear {
    /// The velocity.
    pub velocity: Vec3,
    /// The predicted position.
    pub translation: Vec3,
    /// The impulses collected since they were last applied.
    pub impulse: Accumulator,
    /// The inverse mass that the last `integrate` was given.
    pub inv_mass: Fixed,
}

/// A rigid body with angular motion.
#[derive(Clone, Copy, Debug, PartialEq, Eq)]
pub struct Angular {
    /// The angular velocity.
    pub angular_velocity: Vec3,
    /// The predicted rotation, a unit quaternion.
    pub rotation: Quat,
    /// The torque impulses collected since they were last applied.
    pub angular_impulse: Accumulator,
    /// The inverse moment of inertia about each principal axis that the last
    /// `integrate` was given.
    pub inv_moment_of_inertia: Vec3,
}

/// A rigid body combines linear and angular motion.
#[derive(Clone, Copy, Debug, PartialEq, Eq)]
pub struct Rigid {
    pub linear: Linear,
    pub angular: Angular,
}

/// The number two.
pub open spec fn spec_two() -> Fixed {
    Fixed { raw: (2 * SCALE) as i64 }
}

/// The number one half.
pub open spec fn spec_half() -> Fixed {
    Fixed { raw: (SCALE / 2) as i64 }
}

/// The rotation `rotation` advanced by the small turn `turn`, a vector whose
/// direction is the axis and whose length is half the angle:
/// `normalize(rotation + (turn, 0) * rotation)`.
pub open spec fn spec_turned(rotation: Quat, turn: Vec3) -> Quat {
    rotation.spec_add(Quat::spec_pure(turn).spec_mul(rotation)).spec_normalize()
}

/// The rotation `rotation` advanced by the small turn `turn`.
pub fn turned(rotation: Quat, turn: Vec3) -> (r: Quat)
    ensures
        r == spec_turned(rotation, turn),
        r.is_unit(),
{
    rotation.add(Quat::pure(turn).mul(rotation)).normalize()
}

impl Linear {
    /// A body at rest at the origin, with nothing collected and an inverse
    /// mass of zero.
    pub open spec fn spec_default() -> Linear {
        Linear {
            velocity: Vec3::spec_zero(),
            translation: Vec3::spec_zero(),
            impulse: Accumulator::spec_empty(),
            inv_mass: Fixed { raw: 0 },
        }
    }

    /// The state after `integrate`.
    pub open spec fn spec_integrate(
        self,
        translation: Vec3,
        force: Vec3,
        inverse_mass: Fixed,
        dt: Fixed,
    ) -> Linear {
        if dt.raw > 0 {
            let velocity = self.velocity.spec_add(force.spec_scale(dt).spec_scale(inverse_mass));
            Linear {
                velocity,
                translation: translation.spec_add(velocity.spec_scale(dt)),
                impulse: self.impulse,
                inv_mass: inverse_mass,
            }
        } else {
            self
        }
    }

    /// The state after `push_impulse`.
    pub open spec fn spec_push_impulse(self, impulse: Vec3) -> Linear {
        Linear { impulse: self.impulse.spec_push(impulse), ..self }
    }

    /// The correction that `apply_impulses` adds to the predicted position:
    /// the mean impulse times the inverse mass, or nothing when no impulse
    /// was collected.
    pub open spec fn spec_correction(self) -> Vec3 {
        if self.impulse.count > 0 {
            self.impulse.spec_mean().spec_scale(self.inv_mass)
        } else {
            Vec3::spec_zero()
        }
    }

    /// The state after `apply_impulses`.
    pub open spec fn spec_apply_impulses(self) -> Linear {
        if self.impulse.count > 0 {
            Linear {
                translation: self.translation.spec_add(self.spec_correction()),
                impulse: Accumulator::spec_empty(),
                ..self
            }
        } else {
            Linear { impulse: Accumulator::spec_empty(), ..self }
        }
    }

    /// The state after `derive`.
    pub open spec fn spec_derive(self, translation: Vec3, dt: Fixed) -> Linear {
        if dt.raw > 0 {
            Linear { velocity: self.translation.spec_sub(translation).spec_div(dt), ..self }
        } else {
            self
        }
    }

    /// The same state with the given velocity.
    pub fn velocity(self, value: Vec3) -> (r: Linear)
        ensures
            r == (Linear { velocity: value, ..self }),
    {
        Linear { velocity: value, ..self }
    }

    /// The same state with the given predicted position.
    pub fn translation(self, value: Vec3) -> (r: Linear)
        ensures
            r == (Linear { translation: value, ..self }),
    {
        Linear { translation: value, ..self }
    }

    /// Predicts the position at the end of a substep of length `dt` that
    /// starts at `translation`: `velocity += dt * force * inverse_mass`, then
    /// `predicted = translation + dt * velocity`. Keeps `inverse_mass` for
    /// `apply_impulses`. Without effect unless `dt` is positive.
    pub fn integrate(&mut self, translation: Vec3, force: Vec3, inverse_mass: Fixed, dt: Fixed)
        ensures
            *final(self) == old(self).spec_integrate(translation, force, inverse_mass, dt),
    {
        if dt.is_positive() {
            self.velocity = self.velocity.add(force.scale(dt).scale(inverse_mass));
            self.translation = translation.add(self.velocity.scale(dt));
            self.inv_mass = inverse_mass;
        }
    }

    /// Collects one corrective impulse.
    pub fn push_impulse(&mut self, impulse: Vec3)
        ensures
            *final(self) == old(self).spec_push_impulse(impulse),
    {
        self.impulse.push(impulse);
    }

    /// Moves the predicted position by the mean of the collected impulses
    /// times the inverse mass, and empties the accumulator. The position
    /// stays where none was collected.
    pub fn apply_impulses(&mut self)
        ensures
            *final(self) == old(self).spec_apply_impulses(),
            final(self).impulse == Accumulator::spec_empty(),
            old(self).impulse.count == 0 ==> final(self).translation == old(self).translation,
    {
        match self.impulse.mean() {
            Some(mean) => {
                self.translation = self.translation.add(mean.scale(self.inv_mass));
            },
            None => {},
        }
        self.impulse = Accumulator::new();
    }

    /// Reconstructs the velocity of a substep of length `dt` that started at
    /// `translation`: `velocity = (predicted - translation) / dt`. Without
    /// effect unless `dt` is positive.
    pub fn derive(&mut self, translation: Vec3, dt: Fixed)
        ensures
            *final(self) == old(self).spec_derive(translation, dt),
    {
        if dt.is_positive() {
            self.velocity = self.translation.sub(translation).div(dt);
        }
    }
}

impl Default for Linear {
    fn default() -> (r: Linear)
        ensures
            r == Linear::spec_default(),
    {
        Linear {
            velocity: Vec3::zero(),
            translation: Vec3::zero(),
            impulse: Accumulator::new(),
            inv_mass: Fixed::zero(),
        }
    }
}

impl Angular {
    /// Whether the predicted rotation is a unit quaternion.
    pub open spec fn wf(self) -> bool {
        self.rotation.is_unit()
    }

    /// A body that does not turn, in the identity rotation, with nothing
    /// collected and an inverse moment of inertia of zero.
    pub open spec fn spec_default() -> Angular {
        Angular {
            angular_velocity: Vec3::spec_zero(),
            rotation: Quat::spec_identity(),
            angular_impulse: Accumulator::spec_empty(),
            inv_moment_of_inertia: Vec3::spec_zero(),
        }
    }

    /// The state after `integrate`.
    pub open spec fn spec_integrate(
        self,
        rotation: Quat,
        inverse_moment_of_inertia: Vec3,
        dt: Fixed,
    ) -> Angular {
        if dt.raw > 0 {
            Angular {
                rotation: spec_turned(
                    rotation,
                    self.angular_velocity.spec_scale(dt.spec_mul(spec_half())),
                ),
                inv_moment_of_inertia: inverse_moment_of_inertia,
                ..self
            }
        } else {
            self
        }
    }

    /// The torque impulse of `impulse` attacking at `point_of_attack` on a
    /// body whose centre of mass is `center_of_mass`:
    /// `(inverse inertia * (point - centre)) x impulse`, the first product
    /// taken axis by axis.
    pub open spec fn spec_torque(
        self,
        point_of_attack: Vec3,
        center_of_mass: Vec3,
        impulse: Vec3,
    ) -> Vec3 {
        self.inv_moment_of_inertia.spec_mul(point_of_attack.spec_sub(center_of_mass)).spec_cross(
            impulse,
        )
    }

    /// The state after `push_impulse`.
    pub open spec fn spec_push_impulse(
        self,
        point_of_attack: Vec3,
        center_of_mass: Vec3,
        impulse: Vec3,
    ) -> Angular {
        Angular {
            angular_impulse: self.angular_impulse.spec_push(
                self.spec_torque(point_of_attack, center_of_mass, impulse),
            ),
            ..self
        }
    }

    /// The state after `apply_impulses`.
    pub open spec fn spec_apply_impulses(self) -> Angular {
        if self.angular_impulse.count > 0 {
            Angular {
                rotation: spec_turned(
                    self.rotation,
                    self.angular_impulse.spec_mean().spec_scale(spec_half()),
                ),
                angular_impulse: Accumulator::spec_empty(),
                ..self
            }
        } else {
            Angular { angular_impulse: Accumulator::spec_empty(), ..self }
        }
    }

    /// The turn from `rotation` to the predicted rotation, with a scalar
    /// part that is not negative: of the two quaternions that stand for the
    /// turn, the one of the shorter way.
    pub open spec fn spec_delta(self, rotation: Quat) -> Quat {
        let delta = self.rotation.spec_mul(rotation.spec_conjugate());
        if delta.w.raw < 0 {
            delta.spec_neg()
        } else {
            delta
        }
    }

    /// The state after `derive`.
    pub open spec fn spec_derive(self, rotation: Quat, dt: Fixed) -> Angular {
        if dt.raw > 0 {
            Angular {
                angular_velocity: self.spec_delta(rotation).spec_xyz().spec_scale(
                    spec_two(),
                ).spec_div(dt),
                ..self
            }
        } else {
            self
        }
    }

    /// The same state with the given angular velocity.
    pub fn angular_velocity(self, value: Vec3) -> (r: Angular)
        ensures
            r == (Angular { angular_velocity: value, ..self }),
    {
        Angular { angular_velocity: value, ..self }
    }

    /// The same state with the predicted rotation that points the way
    /// `value` does.
    pub fn rotation(self, value: Quat) -> (r: Angular)
        ensures
            r == (Angular { rotation: value.spec_normalize(), ..self }),
            r.wf(),
    {
        Angular { rotation: value.normalize(), ..self }
    }

    /// Predicts the rotation at the end of a substep of length `dt` that
    /// starts at `rotation`:
    /// `normalize(rotation + 0.5 * dt * (angular velocity, 0) * rotation)`.
    /// Keeps `inverse_moment_of_inertia` for `push_impulse`. Without effect
    /// unless `dt` is positive.
    pub fn integrate(&mut self, rotation: Quat, inverse_moment_of_inertia: Vec3, dt: Fixed)
        ensures
            *final(self) == old(self).spec_integrate(rotation, inverse_moment_of_inertia, dt),
            dt.raw > 0 || old(self).wf() ==> final(self).wf(),
    {
        if dt.is_positive() {
            self.rotation = turned(rotation, self.angular_velocity.scale(dt.mul(Fixed::half())));
            self.inv_moment_of_inertia = inverse_moment_of_inertia;
        }
    }

    /// Collects the torque impulse of one corrective impulse that attacks at
    /// `point_of_attack`.
    pub fn push_impulse(&mut self, point_of_attack: Vec3, center_of_mass: Vec3, impulse: Vec3)
        ensures
            *final(self) == old(self).spec_push_impulse(point_of_attack, center_of_mass, impulse),
            old(self).wf() ==> final(self).wf(),
    {
        let torque = self.inv_moment_of_inertia.mul(point_of_attack.sub(center_of_mass)).cross(
            impulse,
        );
        self.angular_impulse.push(torque);
    }

    /// Turns the predicted rotation by half the mean of the collected torque
    /// impulses, and empties the accumulator. The rotation stays where none
    /// was collected.
    pub fn apply_impulses(&mut self)
        ensures
            *final(self) == old(self).spec_apply_impulses(),
            final(self).angular_impulse == Accumulator::spec_empty(),
            old(self).angular_impulse.count == 0 ==> final(self).rotation == old(self).rotation,
            old(self).angular_impulse.count > 0 || old(self).wf() ==> final(self).wf(),
    {
        match self.angular_impulse.mean() {
            Some(mean) => {
                self.rotation = turned(self.rotation, mean.scale(Fixed::half()));
            },
            None => {},
        }
        self.angular_impulse = Accumulator::new();
    }

    /// Reconstructs the angular velocity of a substep of length `dt` that
    /// started at `rotation`: with `delta = predicted * conjugate(rotation)`,
    /// negated when its scalar part is negative,
    /// `angular velocity = 2 * delta.xyz / dt`. Without effect unless `dt` is
    /// positive.
    pub fn derive(&mut self, rotation: Quat, dt: Fixed)
        ensures
            *final(self) == old(self).spec_derive(rotation, dt),
            old(self).wf() ==> final(self).wf(),
    {
        if dt.is_positive() {
            let mut delta = self.rotation.mul(rotation.conjugate());
            if delta.w.is_negative() {
                delta = delta.neg();
            }
            self.angular_velocity = delta.xyz().scale(Fixed::from_int(2)).div(dt);
        }
    }
}

impl Default for Angular {
    fn default() -> (r: Angular)
        ensures
            r == Angular::spec_default(),
            r.wf(),
    {
        Angular {
            angular_velocity: Vec3::zero(),
            rotation: Quat::identity(),
            angular_impulse: Accumulator::new(),
            inv_moment_of_inertia: Vec3::zero(),
        }
    }
}

impl Rigid {
    /// Linear and angular motion, both at their defaults.
    pub open spec fn spec_default() -> Rigid {
        Rigid { linear: Linear::spec_default(), angular: Angular::spec_default() }
    }
}

impl Default for Rigid {
    fn default() -> (r: Rigid)
        ensures
            r == Rigid::spec_default(),
            r.angular.wf(),
    {
        Rigid { linear: Linear::default(), angular: Angular::default() }
    }
}

} // verus!
