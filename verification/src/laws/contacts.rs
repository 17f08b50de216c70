//! What holds of contacts and their impulses: they are averaged, a resting
//! contact pushes nothing, and neither the order of the two bodies of a hit
//! nor the order of the hits matters.

use vstd::prelude::*;
use crate::body::{spec_correction, Body, Hit};
use crate::fixed::{lemma_mul_one, lemma_mul_sign, lemma_mul_zero, Fixed, SCALE};
use crate::impulse::{
    lemma_mean_of_two_equal, lemma_mean_of_zero_sum, lemma_push_commutes, Accumulator,
};
use crate::motion::{spec_half, Angular, Linear};
use crate::pipeline::{spec_hit_counts, spec_resolve, spec_resolve_all};
use crate::quat::{lemma_normalize_moves_little, spec_near};
use crate::vector::Vec3;

verus! {

/// Multi-contact averaging. A body touched by two contacts that each push
/// the impulse `v` is corrected by `v` times its inverse mass, the mean of
/// the two, and not by twice that; with an inverse mass of one the
/// correction is `v` itself.
pub proof fn lemma_equal_impulses_average(l: Linear, v: Vec3)
    requires
        l.impulse == Accumulator::spec_empty(),
    ensures
        l.spec_push_impulse(v).spec_push_impulse(v).spec_correction() == v.spec_scale(l.inv_mass),
        l.spec_push_impulse(v).spec_push_impulse(v).spec_apply_impulses().translation
            == l.translation.spec_add(v.spec_scale(l.inv_mass)),
        l.inv_mass.raw == SCALE ==> l.spec_push_impulse(v).spec_push_impulse(
            v,
        ).spec_apply_impulses().translation == l.translation.spec_add(v),
        l.spec_push_impulse(v).spec_push_impulse(v).spec_apply_impulses().impulse
            == Accumulator::spec_empty(),
{
    lemma_mean_of_two_equal(v);
    lemma_mul_one(v.x);
    lemma_mul_one(v.y);
    lemma_mul_one(v.z);
}

/// A body that collected only impulses of zero is not moved when they are
/// applied.
pub proof fn lemma_zero_impulses_rest(l: Linear)
    requires
        l.impulse.x == 0,
        l.impulse.y == 0,
        l.impulse.z == 0,
    ensures
        l.spec_correction() == Vec3::spec_zero(),
        l.spec_apply_impulses().translation == l.translation,
{
    if l.impulse.count > 0 {
        lemma_mean_of_zero_sum(l.impulse);
        lemma_mul_zero(l.inv_mass);
    }
}

/// Resting contact, linear half. A contact of depth zero pushes with an
/// impulse of zero, and a body that collected nothing else is not moved when
/// that is applied.
pub proof fn lemma_resting_contact(body: Body, point: Vec3, stiffness: Fixed, normal: Vec3)
    requires
        body.linear matches Some(l) && l.impulse == Accumulator::spec_empty(),
    ensures
        ({
            let impulse = spec_correction(stiffness, Fixed { raw: 0 }, normal);
            let touched = body.spec_touched(point, impulse);
            &&& impulse == Vec3::spec_zero()
            &&& touched.linear.unwrap().spec_correction() == Vec3::spec_zero()
            &&& touched.linear.unwrap().spec_apply_impulses().translation
                == body.linear.unwrap().translation
        }),
{
    let factor = stiffness.spec_mul(spec_half());
    lemma_mul_zero(factor);
    lemma_mul_zero(normal.x);
    lemma_mul_zero(normal.y);
    lemma_mul_zero(normal.z);
    let impulse = spec_correction(stiffness, Fixed { raw: 0 }, normal);
    lemma_zero_impulses_rest(body.spec_touched(point, impulse).linear.unwrap());
}

/// Resting contact, angular half. A contact of depth zero collects a torque
/// impulse of zero, and when that is applied to a body that collected
/// nothing else, its rotation is only normalized once more: it stays a unit
/// quaternion and no component of it moves by more than four billionths.
pub proof fn lemma_resting_contact_rotation(
    body: Body,
    point: Vec3,
    stiffness: Fixed,
    normal: Vec3,
)
    requires
        body.angular matches Some(a) && a.angular_impulse == Accumulator::spec_empty() && a.wf(),
    ensures
        ({
            let impulse = spec_correction(stiffness, Fixed { raw: 0 }, normal);
            let touched = body.spec_touched(point, impulse).angular.unwrap();
            let applied = touched.spec_apply_impulses();
            &&& touched.angular_impulse.x == 0
            &&& touched.angular_impulse.y == 0
            &&& touched.angular_impulse.z == 0
            &&& applied.angular_impulse == Accumulator::spec_empty()
            &&& spec_near(applied.rotation, body.angular.unwrap().rotation)
            &&& applied.angular_velocity == body.angular.unwrap().angular_velocity
        }),
{
    let a = body.angular.unwrap();
    let factor = stiffness.spec_mul(spec_half());
    lemma_mul_zero(factor);
    lemma_mul_zero(normal.x);
    lemma_mul_zero(normal.y);
    lemma_mul_zero(normal.z);
    let impulse = spec_correction(stiffness, Fixed { raw: 0 }, normal);
    assert(impulse == Vec3::spec_zero());
    let arm = a.inv_moment_of_inertia.spec_mul(point.spec_sub(body.spec_future_translation()));
    lemma_mul_zero(arm.x);
    lemma_mul_zero(arm.y);
    lemma_mul_zero(arm.z);
    let torque = a.spec_torque(point, body.spec_future_translation(), impulse);
    assert(torque == Vec3::spec_zero());
    let touched = body.spec_touched(point, impulse).angular.unwrap();
    lemma_mean_of_zero_sum(touched.angular_impulse);
    lemma_mul_zero(spec_half());
    let turn = touched.angular_impulse.spec_mean().spec_scale(spec_half());
    assert(turn == Vec3::spec_zero());
    let q = a.rotation;
    lemma_mul_zero(q.x);
    lemma_mul_zero(q.y);
    lemma_mul_zero(q.z);
    lemma_mul_zero(q.w);
    assert(q.spec_add(crate::quat::Quat::spec_pure(turn).spec_mul(q)) == q);
    lemma_normalize_moves_little(q);
}

/// Whether `impulse` points nowhere along `normal`: no component of it has
/// the sign of that component of `normal`.
pub open spec fn spec_against(impulse: Vec3, normal: Vec3) -> bool {
    &&& normal.x.raw >= 0 ==> impulse.x.raw <= 0
    &&& normal.x.raw <= 0 ==> impulse.x.raw >= 0
    &&& normal.y.raw >= 0 ==> impulse.y.raw <= 0
    &&& normal.y.raw <= 0 ==> impulse.y.raw >= 0
    &&& normal.z.raw >= 0 ==> impulse.z.raw <= 0
    &&& normal.z.raw <= 0 ==> impulse.z.raw >= 0
}

/// The sign of the depth. Under a stiffness that is not negative, the
/// corrective impulse of overlapping shapes, whose depth is not positive,
/// points against the outward normal of the body it is for: it pushes the
/// body away from the other. A positive depth would push along the normal,
/// into the other body.
pub proof fn lemma_correction_separates(stiffness: Fixed, depth: Fixed, normal: Vec3)
    requires
        stiffness.raw >= 0,
    ensures
        depth.raw <= 0 ==> spec_against(spec_correction(stiffness, depth, normal), normal),
        depth.raw >= 0 ==> spec_against(
            spec_correction(stiffness, depth, normal),
            normal.spec_neg(),
        ),
{
    let half = spec_half();
    let share = stiffness.spec_mul(half);
    let factor = share.spec_mul(depth);
    lemma_mul_sign(stiffness, half);
    lemma_mul_sign(share, depth);
    lemma_mul_sign(normal.x, factor);
    lemma_mul_sign(normal.y, factor);
    lemma_mul_sign(normal.z, factor);
}

/// Swap symmetry. A hit resolves to the same bodies whichever of its two
/// bodies is named first, as long as the points and normals are exchanged
/// with them.
pub proof fn lemma_resolve_swap(bodies: Seq<Body>, hit: Hit, stiffness: Fixed)
    ensures
        spec_resolve(bodies, hit.spec_swapped(), stiffness) == spec_resolve(bodies, hit, stiffness),
{
    assert(spec_resolve(bodies, hit.spec_swapped(), stiffness) =~= spec_resolve(
        bodies,
        hit,
        stiffness,
    ));
}

/// Whether `after` is `before` apart from the impulses it collected: same
/// collider, same poses, same velocities.
pub open spec fn spec_only_collected(before: Body, after: Body) -> bool {
    &&& after.collider == before.collider
    &&& after.inv_mass == before.inv_mass
    &&& after.inv_moment_of_inertia == before.inv_moment_of_inertia
    &&& after.translation == before.translation
    &&& after.rotation == before.rotation
    &&& match (before.linear, after.linear) {
        (Some(l), Some(m)) => m == (Linear { impulse: m.impulse, ..l }),
        (None, None) => true,
        _ => false,
    }
    &&& match (before.angular, after.angular) {
        (Some(a), Some(b)) => b == (Angular { angular_impulse: b.angular_impulse, ..a }),
        (None, None) => true,
        _ => false,
    }
}

/// Accumulate, then apply once. Resolving hits moves nothing: every body
/// keeps its poses, committed and predicted, and its velocities, and only
/// collects. A body without motion is left as it is.
pub proof fn lemma_resolve_only_collects(bodies: Seq<Body>, hits: Seq<Hit>, stiffness: Fixed)
    ensures
        spec_resolve_all(bodies, hits, stiffness).len() == bodies.len(),
        forall|k: int|
            0 <= k < bodies.len() ==> spec_only_collected(
                bodies[k],
                #[trigger] spec_resolve_all(bodies, hits, stiffness)[k],
            ),
        forall|k: int|
            0 <= k < bodies.len() && bodies[k].linear.is_none() && bodies[k].angular.is_none()
                ==> #[trigger] spec_resolve_all(bodies, hits, stiffness)[k] == bodies[k],
    decreases hits.len(),
{
    if hits.len() > 0 {
        lemma_resolve_only_collects(bodies, hits.drop_last(), stiffness);
        let earlier = spec_resolve_all(bodies, hits.drop_last(), stiffness);
        let later = spec_resolve(earlier, hits.last(), stiffness);
        assert forall|k: int| 0 <= k < bodies.len() implies spec_only_collected(
            bodies[k],
            #[trigger] later[k],
        ) by {
            assert(spec_only_collected(bodies[k], earlier[k]));
        }
    }
}

/// A body collects two impulses to the same effect in either order.
pub proof fn lemma_touch_commutes(body: Body, p: Vec3, i: Vec3, q: Vec3, j: Vec3)
    requires
        body.spec_roomy(),
    ensures
        body.spec_touched(p, i).spec_touched(q, j) == body.spec_touched(q, j).spec_touched(p, i),
{
    match body.linear {
        Some(l) => {
            lemma_push_commutes(l.impulse, i, j);
        },
        None => {},
    }
    match body.angular {
        Some(a) => {
            let center = body.spec_future_translation();
            lemma_push_commutes(
                a.angular_impulse,
                a.spec_torque(p, center, i),
                a.spec_torque(q, center, j),
            );
        },
        None => {},
    }
}

/// Order independence. Because impulses are only collected while the hits
/// are visited, two hits resolve to the same bodies in either order, as long
/// as no accumulator is within two pushes of its limits.
pub proof fn lemma_resolve_commutes(bodies: Seq<Body>, one: Hit, two: Hit, stiffness: Fixed)
    requires
        forall|k: int| 0 <= k < bodies.len() ==> (#[trigger] bodies[k]).spec_roomy(),
    ensures
        spec_resolve(spec_resolve(bodies, one, stiffness), two, stiffness) == spec_resolve(
            spec_resolve(bodies, two, stiffness),
            one,
            stiffness,
        ),
{
    let forth = spec_resolve(spec_resolve(bodies, one, stiffness), two, stiffness);
    let back = spec_resolve(spec_resolve(bodies, two, stiffness), one, stiffness);
    if spec_hit_counts(bodies.len(), one) && spec_hit_counts(bodies.len(), two) {
        let i0 = spec_correction(stiffness, one.contact.depth, one.contact.normals.0);
        let i1 = spec_correction(stiffness, one.contact.depth, one.contact.normals.1);
        let j0 = spec_correction(stiffness, two.contact.depth, two.contact.normals.0);
        let j1 = spec_correction(stiffness, two.contact.depth, two.contact.normals.1);
        assert forall|k: int| 0 <= k < bodies.len() implies forth[k] == back[k] by {
            let b = bodies[k];
            assert(b.spec_roomy());
            lemma_touch_commutes(b, one.contact.points.0, i0, two.contact.points.0, j0);
            lemma_touch_commutes(b, one.contact.points.0, i0, two.contact.points.1, j1);
            lemma_touch_commutes(b, one.contact.points.1, i1, two.contact.points.0, j0);
            lemma_touch_commutes(b, one.contact.points.1, i1, two.contact.points.1, j1);
        }
        assert(forth =~= back);
    }
}

} // verus!
