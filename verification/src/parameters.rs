//! What the host configures: the number of substeps per tick and the
//! parameters of the simulation. The length of a substep follows from them
//! alone, so the simulation does not depend on the frame rate.

use vstd::prelude::*;
use crate::fixed::{lemma_div_kept_sign, lemma_mul_kept_sign, same_sign, Fixed, SCALE};
use crate::vector::Vec3;

verus! {

/// How many substeps make up one tick.
#[derive(Clone, Copy, Debug, PartialEq, Eq)]
pub struct PhysicsPlugin {
    pub substeps: usize,
}

/// What the host sets for the whole simulation.
#[derive(Clone, Copy, Debug, PartialEq, Eq)]
pub struct PhysicsParameters {
    /// Whether the host draws bodies and contacts; the solver does not read
    /// it.
    pub debug: bool,
    /// The downward force on every body.
    pub gravity: Fixed,
    /// The factor, between zero and one, on every corrective impulse.
    pub stiffness: Fixed,
    /// Ticks per second.
    pub frequency: Fixed,
    /// Simulated seconds per second.
    pub time_scale: Fixed,
}

impl PhysicsPlugin {
    /// Ten substeps a tick.
    pub open spec fn spec_default() -> PhysicsPlugin {
        PhysicsPlugin { substeps: 10 }
    }
}

impl Default for PhysicsPlugin {
    fn default() -> (r: PhysicsPlugin)
        ensures
            r == PhysicsPlugin::spec_default(),
    {
        PhysicsPlugin { substeps: 10 }
    }
}

impl PhysicsParameters {
    /// Gravity ten, full stiffness, sixty ticks per second in real time, no
    /// drawing.
    pub open spec fn spec_default() -> PhysicsParameters {
        PhysicsParameters {
            debug: false,
            gravity: Fixed { raw: (10 * SCALE) as i64 },
            stiffness: Fixed { raw: SCALE },
            frequency: Fixed { raw: (60 * SCALE) as i64 },
            time_scale: Fixed { raw: SCALE },
        }
    }

    /// Whether the stiffness lies between zero and one.
    pub open spec fn wf(self) -> bool {
        0 <= self.stiffness.raw <= SCALE
    }

    /// The number of substeps per simulated second:
    /// `frequency * substeps * time_scale`, never rounded to zero.
    pub open spec fn spec_rate(self, substeps: usize) -> Fixed {
        self.frequency.spec_mul_kept(Fixed::spec_from_int(substeps as int)).spec_mul_kept(
            self.time_scale,
        )
    }

    /// The length of one substep, `1 / (frequency * substeps * time_scale)`;
    /// zero where that product is zero. Neither the product nor its inverse
    /// is rounded to zero: a positive rate, however great, gives a step of
    /// one billionth at least.
    pub open spec fn spec_timestep(self, substeps: usize) -> Fixed {
        if self.spec_rate(substeps).raw == 0 {
            Fixed { raw: 0 }
        } else {
            (Fixed { raw: SCALE }).spec_div_kept(self.spec_rate(substeps))
        }
    }

    /// Whether time runs forward: there is a substep, and frequency and time
    /// scale have the same sign.
    pub open spec fn spec_advances(self, substeps: usize) -> bool {
        substeps > 0 && same_sign(self.frequency.raw as int, self.time_scale.raw as int)
    }

    /// The force of gravity, `(0, -gravity, 0)`.
    pub open spec fn spec_gravity_force(self) -> Vec3 {
        Vec3 { x: Fixed { raw: 0 }, y: self.gravity.spec_neg(), z: Fixed { raw: 0 } }
    }

    /// Whether the stiffness lies between zero and one.
    pub fn is_valid(&self) -> (r: bool)
        ensures
            r == self.wf(),
    {
        0 <= self.stiffness.raw && self.stiffness.raw <= SCALE
    }

    /// The length of one substep. A substep has an effect only where this is
    /// positive, and it is positive exactly where time runs forward: with
    /// a positive frequency and time scale, for every number of substeps
    /// above zero.
    pub fn timestep(&self, substeps: usize) -> (r: Fixed)
        ensures
            r == self.spec_timestep(substeps),
            r.raw > 0 <==> self.spec_advances(substeps),
            self.spec_rate(substeps).raw > 0 ==> r.raw > 0,
    {
        proof {
            lemma_timestep_sign(*self, substeps);
        }
        let rate = self.frequency.mul_kept(Fixed::from_count(substeps)).mul_kept(self.time_scale);
        if rate.is_zero() {
            Fixed::zero()
        } else {
            Fixed::one().div_kept(rate)
        }
    }

    /// The force of gravity.
    pub fn gravity_force(&self) -> (r: Vec3)
        ensures
            r == self.spec_gravity_force(),
    {
        Vec3 { x: Fixed::zero(), y: self.gravity.neg(), z: Fixed::zero() }
    }
}

impl Default for PhysicsParameters {
    fn default() -> (r: PhysicsParameters)
        ensures
            r == PhysicsParameters::spec_default(),
            r.wf(),
    {
        PhysicsParameters {
            debug: false,
            gravity: Fixed::from_int(10),
            stiffness: Fixed::one(),
            frequency: Fixed::from_int(60),
            time_scale: Fixed::one(),
        }
    }
}

/// The time step is positive exactly where time runs forward, however many
/// substeps a tick has, and so is the rate.
pub proof fn lemma_timestep_sign(parameters: PhysicsParameters, substeps: usize)
    ensures
        parameters.spec_timestep(substeps).raw > 0 <==> parameters.spec_advances(substeps),
        parameters.spec_rate(substeps).raw > 0 <==> parameters.spec_advances(substeps),
{
    let count = Fixed::spec_from_int(substeps as int);
    let ticks = parameters.frequency.spec_mul_kept(count);
    let rate = parameters.spec_rate(substeps);
    assert(count.raw > 0 <==> substeps > 0);
    lemma_mul_kept_sign(parameters.frequency, count);
    lemma_mul_kept_sign(ticks, parameters.time_scale);
    if rate.raw != 0 {
        lemma_div_kept_sign(Fixed { raw: SCALE }, rate);
    }
}

/// With the default parameters every number of substeps above zero gives a
/// positive time step.
pub proof fn lemma_default_timestep_positive(substeps: usize)
    requires
        substeps > 0,
    ensures
        PhysicsParameters::spec_default().spec_timestep(substeps).raw > 0,
{
    lemma_timestep_sign(PhysicsParameters::spec_default(), substeps);
}

} // verus!
