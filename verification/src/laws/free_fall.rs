//! Free fall: what a body does while nothing touches it.
//!
//! Velocities are reconstructed from positions, and positions are rounded
//! to a billionth. A substep of length `dt` therefore brings the velocity
//! back within `(1 / dt + 1) / 2` billionths of what `integrate` set, and
//! `n` substeps stay within `n` times that.

use vstd::prelude::*;
use crate::body::Body;
use crate::fixed::{clamp, lemma_round_div_error, round_div, Fixed, SCALE};
use crate::impulse::Accumulator;
use crate::motion::Linear;
use crate::parameters::PhysicsParameters;
use crate::pipeline::{
    spec_contacts, spec_correct, spec_derive_rotation, spec_derive_translation,
    spec_integrate_rotation, spec_integrate_translation, spec_predict,
};
use crate::vector::Vec3;

verus! {

/// Whether a body that starts a substep of length `dt` at the coordinate
/// `start` with the velocity `velocity` along it stays inside the range of
/// positions: neither the step `dt * velocity` nor `start` plus the step is
/// cut off.
pub open spec fn spec_in_reach(velocity: Fixed, start: Fixed, dt: Fixed) -> bool {
    let step = round_div(velocity.raw * dt.raw, SCALE as int);
    &&& i64::MIN <= step <= i64::MAX
    &&& i64::MIN <= start.raw + step <= i64::MAX
}

/// Whether `a` and `b` differ by no more than the rounding of one substep of
/// length `dt` allows: `|a - b| <= (1 / dt + 1) / 2` billionths.
pub open spec fn spec_close(a: Fixed, b: Fixed, dt: Fixed) -> bool {
    -(SCALE + dt.raw) <= 2 * dt.raw * (a.raw - b.raw) <= SCALE + dt.raw
}

/// A number `v` multiplied by `d`, rounded, then divided by `d` and rounded
/// again, comes back as `v` within `(s / d + 1) / 2`, also where the last
/// result is cut off at the ends of the range that holds `v`.
proof fn lemma_round_trip(v: int, d: int, s: int)
    requires
        0 < d,
        0 < s,
        i64::MIN <= v <= i64::MAX,
    ensures
        -(s + d) <= 2 * d * (clamp(round_div(round_div(v * d, s) * s, d)) - v) <= s + d,
{
    let q = round_div(v * d, s);
    let x = round_div(q * s, d);
    let c = clamp(x);
    lemma_round_div_error(v * d, s);
    lemma_round_div_error(q * s, d);
    assert(2 * d * (x - v) == 2 * (x * d - q * s) + 2 * (q * s - v * d)) by (nonlinear_arith);
    if x > c {
        assert(2 * d * (c - v) <= 2 * d * (x - v)) by (nonlinear_arith)
            requires
                0 < d,
                c <= x,
        ;
        assert(0 <= 2 * d * (c - v)) by (nonlinear_arith)
            requires
                0 < d,
                v <= c,
        ;
    } else if x < c {
        assert(2 * d * (x - v) <= 2 * d * (c - v)) by (nonlinear_arith)
            requires
                0 < d,
                x <= c,
        ;
        assert(2 * d * (c - v) <= 0) by (nonlinear_arith)
            requires
                0 < d,
                c <= v,
        ;
    }
}

/// One coordinate of a contact-free substep: what `derive` reconstructs from
/// the position that `integrate` predicted for the velocity `velocity`.
proof fn lemma_free_fall_coordinate(velocity: Fixed, start: Fixed, dt: Fixed)
    requires
        dt.raw > 0,
        spec_in_reach(velocity, start, dt),
    ensures
        spec_close(
            start.spec_add(velocity.spec_mul(dt)).spec_sub(start).spec_div(dt),
            velocity,
            dt,
        ),
{
    lemma_round_trip(velocity.raw as int, dt.raw as int, SCALE as int);
}

/// Free fall. In a substep without contacts, `integrate` sets the velocity
/// to `velocity + dt * force * inverse_mass`, and the velocity that `derive`
/// reconstructs afterwards differs from it, along each axis, by no more than
/// `(1 / dt + 1) / 2` billionths, as long as the predicted position stays
/// inside the range of positions.
pub proof fn lemma_free_fall_step(
    l: Linear,
    start: Vec3,
    force: Vec3,
    inverse_mass: Fixed,
    dt: Fixed,
)
    requires
        dt.raw > 0,
        l.impulse.count == 0,
        spec_in_reach(l.spec_integrate(start, force, inverse_mass, dt).velocity.x, start.x, dt),
        spec_in_reach(l.spec_integrate(start, force, inverse_mass, dt).velocity.y, start.y, dt),
        spec_in_reach(l.spec_integrate(start, force, inverse_mass, dt).velocity.z, start.z, dt),
    ensures
        ({
            let predicted = l.spec_integrate(start, force, inverse_mass, dt);
            let derived = predicted.spec_apply_impulses().spec_derive(start, dt);
            &&& predicted.velocity == l.velocity.spec_add(
                force.spec_scale(dt).spec_scale(inverse_mass),
            )
            &&& derived.translation == predicted.translation
            &&& spec_close(derived.velocity.x, predicted.velocity.x, dt)
            &&& spec_close(derived.velocity.y, predicted.velocity.y, dt)
            &&& spec_close(derived.velocity.z, predicted.velocity.z, dt)
        }),
{
    let predicted = l.spec_integrate(start, force, inverse_mass, dt);
    lemma_free_fall_coordinate(predicted.velocity.x, start.x, dt);
    lemma_free_fall_coordinate(predicted.velocity.y, start.y, dt);
    lemma_free_fall_coordinate(predicted.velocity.z, start.z, dt);
}

/// The velocity that one substep adds to a body under `force`:
/// `dt * force * inverse_mass`.
pub open spec fn spec_gain(force: Vec3, inverse_mass: Fixed, dt: Fixed) -> Vec3 {
    force.spec_scale(dt).spec_scale(inverse_mass)
}

/// Whether `velocity` is what `n` substeps of length `dt` make of the
/// velocity `start` at a gain of `gain` each, within the rounding of `n`
/// substeps: `|velocity - (start + n * gain)| <= n * (1 / dt + 1) / 2`
/// billionths.
pub open spec fn spec_within(velocity: Fixed, start: Fixed, gain: Fixed, dt: Fixed, n: nat) -> bool {
    let off = velocity.raw - (start.raw + n * gain.raw);
    -(n * (SCALE + dt.raw)) <= 2 * dt.raw * off <= n * (SCALE + dt.raw)
}

/// Whether the velocity `start + n * gain` lies inside the range of
/// velocities.
pub open spec fn spec_attainable(start: Fixed, gain: Fixed, n: nat) -> bool {
    i64::MIN <= start.raw + n * gain.raw <= i64::MAX
}

impl Linear {
    /// The state after one whole substep without contacts, started from the
    /// position the body is at.
    pub open spec fn spec_free_substep(self, force: Vec3, inverse_mass: Fixed, dt: Fixed) -> Linear {
        self.spec_integrate(self.translation, force, inverse_mass, dt).spec_apply_impulses().spec_derive(
            self.translation,
            dt,
        )
    }

    /// The state after `n` substeps without contacts.
    pub open spec fn spec_free_fall(
        self,
        force: Vec3,
        inverse_mass: Fixed,
        dt: Fixed,
        n: nat,
    ) -> Linear
        decreases n,
    {
        if n == 0 {
            self
        } else {
            self.spec_free_fall(force, inverse_mass, dt, (n - 1) as nat).spec_free_substep(
                force,
                inverse_mass,
                dt,
            )
        }
    }

    /// Whether the predicted position stays inside the range of positions in
    /// each of `n` substeps without contacts.
    pub open spec fn spec_fall_in_reach(
        self,
        force: Vec3,
        inverse_mass: Fixed,
        dt: Fixed,
        n: nat,
    ) -> bool
        decreases n,
    {
        if n == 0 {
            true
        } else {
            let before = self.spec_free_fall(force, inverse_mass, dt, (n - 1) as nat);
            let velocity = before.spec_integrate(
                before.translation,
                force,
                inverse_mass,
                dt,
            ).velocity;
            &&& self.spec_fall_in_reach(force, inverse_mass, dt, (n - 1) as nat)
            &&& spec_in_reach(velocity.x, before.translation.x, dt)
            &&& spec_in_reach(velocity.y, before.translation.y, dt)
            &&& spec_in_reach(velocity.z, before.translation.z, dt)
        }
    }
}

/// A velocity that can be reached in `n > 0` steps of `gain` can be reached
/// in `n - 1`.
proof fn lemma_attainable_earlier(start: Fixed, gain: Fixed, n: nat)
    requires
        n > 0,
        spec_attainable(start, gain, n),
    ensures
        spec_attainable(start, gain, (n - 1) as nat),
{
    let g = gain.raw as int;
    let m = (n - 1) as int;
    assert(n * g == m * g + g) by (nonlinear_arith)
        requires
            m == n - 1,
    ;
    assert((g >= 0 ==> 0 <= m * g) && (g <= 0 ==> m * g <= 0)) by (nonlinear_arith)
        requires
            0 <= m,
    ;
}

/// One more substep along one axis: the velocity `before` is within the
/// rounding of `n - 1` substeps, `integrate` adds the gain, and `derive`
/// brings back `after` within the rounding of one substep.
proof fn lemma_fall_axis(
    start: Fixed,
    gain: Fixed,
    dt: Fixed,
    n: nat,
    before: Fixed,
    after: Fixed,
)
    requires
        n > 0,
        dt.raw > 0,
        spec_attainable(start, gain, n),
        spec_within(before, start, gain, dt, (n - 1) as nat),
        spec_close(after, before.spec_add(gain), dt),
    ensures
        spec_within(after, start, gain, dt, n),
{
    let d = dt.raw as int;
    let g = gain.raw as int;
    let m = (n - 1) as int;
    let goal = start.raw + n * g;
    let earlier = start.raw + m * g;
    assert(n * g == m * g + g) by (nonlinear_arith)
        requires
            m == n - 1,
    ;
    let pushed = before.spec_add(gain).raw as int;
    let off = pushed - goal;
    let was = before.raw - earlier;
    assert((0 <= off <= was) || (was <= off <= 0));
    assert(-(m * (SCALE + d)) <= 2 * d * off <= m * (SCALE + d)) by (nonlinear_arith)
        requires
            (0 <= off <= was) || (was <= off <= 0),
            -(m * (SCALE + d)) <= 2 * d * was <= m * (SCALE + d),
            0 < d,
            0 <= m,
    ;
    assert(2 * d * (after.raw - goal) == 2 * d * (after.raw - pushed) + 2 * d * off)
        by (nonlinear_arith)
        requires
            off == pushed - goal,
    ;
    assert(n * (SCALE + d) == m * (SCALE + d) + (SCALE + d)) by (nonlinear_arith)
        requires
            m == n - 1,
    ;
}

/// Free fall over `n` substeps. Without contacts, and as long as neither
/// the position leaves the range of positions nor `velocity + n * gain` that
/// of velocities, the velocity after `n` substeps of length `dt` is
/// `velocity + n * gain` along each axis, where `gain` is
/// `dt * force * inverse_mass`, within `n * (1 / dt + 1) / 2` billionths.
/// Under gravity and over the time `T = n * dt` this is the velocity
/// `-gravity * T`.
pub proof fn lemma_free_fall(l: Linear, force: Vec3, inverse_mass: Fixed, dt: Fixed, n: nat)
    requires
        dt.raw > 0,
        l.impulse.count == 0,
        l.spec_fall_in_reach(force, inverse_mass, dt, n),
        spec_attainable(l.velocity.x, spec_gain(force, inverse_mass, dt).x, n),
        spec_attainable(l.velocity.y, spec_gain(force, inverse_mass, dt).y, n),
        spec_attainable(l.velocity.z, spec_gain(force, inverse_mass, dt).z, n),
    ensures
        ({
            let end = l.spec_free_fall(force, inverse_mass, dt, n);
            let gain = spec_gain(force, inverse_mass, dt);
            &&& end.impulse.count == 0
            &&& spec_within(end.velocity.x, l.velocity.x, gain.x, dt, n)
            &&& spec_within(end.velocity.y, l.velocity.y, gain.y, dt, n)
            &&& spec_within(end.velocity.z, l.velocity.z, gain.z, dt, n)
        }),
    decreases n,
{
    let gain = spec_gain(force, inverse_mass, dt);
    if n == 0 {
        assert(0 * (SCALE + dt.raw) == 0) by (nonlinear_arith);
        assert(0 * gain.x.raw == 0 && 0 * gain.y.raw == 0 && 0 * gain.z.raw == 0)
            by (nonlinear_arith);
        assert(2 * dt.raw * 0 == 0) by (nonlinear_arith);
    } else {
        let m = (n - 1) as nat;
        lemma_attainable_earlier(l.velocity.x, gain.x, n);
        lemma_attainable_earlier(l.velocity.y, gain.y, n);
        lemma_attainable_earlier(l.velocity.z, gain.z, n);
        lemma_free_fall(l, force, inverse_mass, dt, m);
        let before = l.spec_free_fall(force, inverse_mass, dt, m);
        lemma_free_fall_step(before, before.translation, force, inverse_mass, dt);
        let after = before.spec_free_substep(force, inverse_mass, dt);
        lemma_fall_axis(l.velocity.x, gain.x, dt, n, before.velocity.x, after.velocity.x);
        lemma_fall_axis(l.velocity.y, gain.y, dt, n, before.velocity.y, after.velocity.y);
        lemma_fall_axis(l.velocity.z, gain.z, dt, n, before.velocity.z, after.velocity.z);
    }
}

/// A substep without contacts is, for the linear motion of a body that
/// starts it where it is predicted to be, one step of free fall under
/// gravity.
pub proof fn lemma_substep_without_contacts(
    bodies: Seq<Body>,
    parameters: PhysicsParameters,
    substeps: usize,
    k: int,
)
    requires
        0 <= k < bodies.len(),
        bodies[k].linear matches Some(l) && l.translation == bodies[k].translation
            && l.impulse == Accumulator::spec_empty(),
    ensures
        ({
            let after = spec_correct(
                spec_predict(bodies, parameters, substeps),
                Seq::empty(),
                parameters,
                substeps,
            );
            let fallen = bodies[k].linear.unwrap().spec_free_substep(
                parameters.spec_gravity_force(),
                bodies[k].inv_mass,
                parameters.spec_timestep(substeps),
            );
            &&& after.len() == bodies.len()
            &&& after[k].linear == Some(fallen)
            &&& after[k].translation == fallen.translation
        }),
{
    let moved = spec_integrate_translation(bodies, parameters, substeps);
    let predicted = spec_integrate_rotation(moved, parameters, substeps);
    assert(predicted[k].linear == moved[k].linear);
    let collected = spec_contacts(predicted, Seq::empty(), parameters, substeps);
    assert(collected == predicted);
    let derived = spec_derive_translation(collected, parameters, substeps);
    let after = spec_derive_rotation(derived, parameters, substeps);
    assert(after[k].linear == derived[k].linear);
    assert(after[k].translation == derived[k].translation);
}

} // verus!
