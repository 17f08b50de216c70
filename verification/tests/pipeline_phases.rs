use rigid_dynamics::collider::{Collider, ColliderError, Contact, Shape};
use rigid_dynamics::fixed::Fixed;
use rigid_dynamics::motion::{Angular, Linear};
use rigid_dynamics::body::{correction, Body, Hit, Placement};
use rigid_dynamics::parameters::{PhysicsParameters, PhysicsPlugin};
use rigid_dynamics::pipeline::{
    contacts, correct, derive_rotation, derive_translation, detect, integrate_rotation,
    integrate_translation, pairs, predict, resolve,
};
use rigid_dynamics::quat::Quat;
use rigid_dynamics::tick::{Pipeline, Request};
use rigid_dynamics::vector::Vec3;

const S: i64 = 1_000_000_000;

fn fx(raw: i64) -> Fixed {
    Fixed::from_raw(raw)
}

fn v(x: i64, y: i64, z: i64) -> Vec3 {
    Vec3::new(fx(x), fx(y), fx(z))
}

fn q(x: i64, y: i64, z: i64, w: i64) -> Quat {
    Quat::new(fx(x), fx(y), fx(z), fx(w))
}

fn ball_at(x: i64, y: i64, z: i64) -> Body {
    let collider = Collider::new(fx(S), Shape::Ball { radius: fx(S / 2) }).unwrap();
    Body::new(collider, v(3 * S, 3 * S, 3 * S), v(x, y, z), Quat::identity())
        .unwrap()
        .linear(Linear::default())
        .angular(Angular::default())
}

fn ground() -> Body {
    let collider = Collider::new(fx(0), Shape::Plane { normal: v(0, S, 0) }).unwrap();
    Body::new(collider, Vec3::zero(), Vec3::zero(), Quat::identity()).unwrap()
}

/// The contact of a ball of radius one half with the plane `y = 0`.
fn ball_on_ground(plane: usize, ball: usize, center: Vec3) -> Option<Hit> {
    let dist = center.y.raw - S / 2;
    if dist > 0 {
        return None;
    }
    Some(Hit {
        first: plane,
        second: ball,
        contact: Contact {
            points: (v(center.x.raw, 0, center.z.raw), v(center.x.raw, dist, center.z.raw)),
            normals: (v(0, S, 0), v(0, -S, 0)),
            depth: fx(dist),
        },
    })
}

#[test]
fn plugin_default_has_ten_substeps() {
    assert_eq!(PhysicsPlugin::default().substeps, 10);
}

#[test]
fn parameters_default() {
    let p = PhysicsParameters::default();
    assert!(!p.debug);
    assert_eq!(p.gravity, fx(10 * S));
    assert_eq!(p.stiffness, fx(S));
    assert_eq!(p.frequency, fx(60 * S));
    assert_eq!(p.time_scale, fx(S));
    assert!(p.is_valid());
}

#[test]
fn stiffness_outside_zero_to_one_is_not_valid() {
    let mut p = PhysicsParameters::default();
    p.stiffness = fx(S + 1);
    assert!(!p.is_valid());
    p.stiffness = fx(-1);
    assert!(!p.is_valid());
    p.stiffness = fx(0);
    assert!(p.is_valid());
}

#[test]
fn timestep_is_the_inverse_of_the_rate() {
    let mut p = PhysicsParameters::default();
    assert_eq!(p.timestep(10), fx(1_666_667));
    assert_eq!(p.timestep(1), fx(16_666_667));
    assert_eq!(p.timestep(4), fx(4_166_667));
    p.time_scale = fx(2 * S);
    assert_eq!(p.timestep(10), fx(833_333));
}

#[test]
fn timestep_of_a_rate_of_zero_is_zero() {
    let mut p = PhysicsParameters::default();
    assert_eq!(p.timestep(0), fx(0));
    p.frequency = fx(0);
    assert_eq!(p.timestep(10), fx(0));
    p.frequency = fx(-60 * S);
    assert_eq!(p.timestep(10), fx(-1_666_667));
}

#[test]
fn gravity_points_down() {
    assert_eq!(PhysicsParameters::default().gravity_force(), v(0, -10 * S, 0));
}

#[test]
fn correction_is_half_the_depth_along_the_normal() {
    assert_eq!(correction(fx(S), fx(-20_000_000), v(0, -S, 0)), v(0, 10_000_000, 0));
    assert_eq!(correction(fx(700_000_000), fx(-20_000_000), v(0, S, 0)), v(0, -7_000_000, 0));
}

#[test]
fn correction_of_a_resting_contact_is_zero() {
    assert_eq!(correction(fx(S), fx(0), v(0, -S, 0)), Vec3::zero());
    assert_eq!(correction(fx(123), fx(0), v(5, 6, 7)), Vec3::zero());
}

#[test]
fn new_body_takes_inverse_mass_and_inertia_from_its_collider() {
    let collider = Collider::new(fx(2 * S), Shape::Ball { radius: fx(S / 2) }).unwrap();
    let b =
        Body::new(collider, v(2 * S, 3 * S, 4 * S), v(1, 2, 3), q(0, 0, 3 * S, 4 * S)).unwrap();
    assert_eq!(b.inv_mass, fx(S / 2));
    assert_eq!(b.inv_moment_of_inertia, v(4 * S, 9 * S, 16 * S));
    assert_eq!(b.translation, v(1, 2, 3));
    assert_eq!(b.rotation, q(0, 0, 600_000_000, 800_000_000));
    assert_eq!(b.linear, None);
    assert_eq!(b.angular, None);
    assert_eq!(ground().inv_mass, fx(0));
    assert_eq!(ground().inv_moment_of_inertia, Vec3::zero());
}

#[test]
fn body_with_a_defective_collider_is_turned_down() {
    let weightless = Collider { mass: fx(0), shape: Shape::Ball { radius: fx(S / 2) } };
    assert_eq!(
        Body::new(weightless, Vec3::zero(), Vec3::zero(), Quat::identity()),
        Err(ColliderError::MassNotPositive)
    );
    let flat = Collider { mass: fx(S), shape: Shape::Plane { normal: Vec3::zero() } };
    assert_eq!(
        Body::new(flat, Vec3::zero(), Vec3::zero(), Quat::identity()),
        Err(ColliderError::NormalZero)
    );
    let ball = Collider { mass: fx(S), shape: Shape::Ball { radius: fx(S / 2) } };
    assert_eq!(
        Body::new(ball, Vec3::zero(), Vec3::zero(), Quat::identity()),
        Err(ColliderError::InertiaZero)
    );
    let faint = Body::new(ball, v(10_000, 0, 0), Vec3::zero(), Quat::identity()).unwrap();
    assert_eq!(faint.inv_moment_of_inertia, v(1, 0, 0));
    assert!(Body::new(ball, v(0, 40_000, 0), Vec3::zero(), Quat::identity()).is_ok());
}

#[test]
fn great_bodies_keep_an_inverse_mass_and_inertia() {
    let heavy = Collider::new(fx(i64::MAX), Shape::Ball { radius: fx(100 * S) }).unwrap();
    assert_eq!(heavy.inv_mass(), fx(1));
    assert_eq!(heavy.inv_moment_of_inertia(v(12_000, -1, 3 * S)), v(1, 1, 9 * S));
    let b = Body::new(heavy, v(12_000, 12_000, 12_000), Vec3::zero(), Quat::identity()).unwrap();
    assert_eq!(b.inv_mass, fx(1));
    assert_eq!(b.inv_moment_of_inertia, v(1, 1, 1));
}

#[test]
fn timestep_stays_positive_for_every_number_of_substeps() {
    let p = PhysicsParameters::default();
    assert_eq!(p.timestep(33_333_333), fx(1));
    assert_eq!(p.timestep(33_333_334), fx(1));
    assert_eq!(p.timestep(100_000_000), fx(1));
    assert_eq!(p.timestep(usize::MAX), fx(1));
    assert_eq!(p.timestep(20_000_000), fx(1));
    assert_eq!(p.timestep(10_000_000), fx(2));
    let mut slow = PhysicsParameters::default();
    slow.frequency = fx(1);
    slow.time_scale = fx(1);
    assert!(slow.timestep(1).raw > 0);
    slow.time_scale = fx(-1);
    assert!(slow.timestep(1).raw < 0);
}

#[test]
fn a_tick_of_very_many_substeps_still_runs() {
    let mut pipeline =
        Pipeline::new(PhysicsParameters::default(), PhysicsPlugin { substeps: 100_000_000 });
    pipeline.spawn(ball_at(0, 100 * S, 0));
    assert_eq!(pipeline.begin(), Request::Detect);
    assert_eq!(pipeline.pending, 100_000_000);
    assert_eq!(pipeline.bodies[0].linear.unwrap().velocity, v(0, -10, 0));
}

#[test]
fn apply_empties_an_accumulator_that_counts_nothing() {
    let mut l = Linear::default().translation(v(1, 2, 3));
    l.impulse.x = 5;
    l.apply_impulses();
    assert_eq!(l, Linear::default().translation(v(1, 2, 3)));
    let mut a = Angular::default();
    a.angular_impulse.z = -7;
    a.apply_impulses();
    assert_eq!(a, Angular::default());
}

#[test]
fn overlap_pushes_against_the_outward_normal() {
    let up = v(0, S, 0);
    assert_eq!(correction(fx(S), fx(-20_000_000), up), v(0, -10_000_000, 0));
    assert_eq!(correction(fx(S), fx(20_000_000), up), v(0, 10_000_000, 0));
}

#[test]
fn motion_starts_from_the_committed_pose() {
    let b = ball_at(1, 2, 3);
    assert_eq!(b.linear.unwrap().translation, v(1, 2, 3));
    assert_eq!(b.angular.unwrap().rotation, Quat::identity());
    assert_eq!(b.future_translation(), v(1, 2, 3));
    assert_eq!(b.future_rotation(), Quat::identity());
    assert_eq!(ground().future_translation(), Vec3::zero());
    assert_eq!(ground().future_rotation(), Quat::identity());
}

#[test]
fn integrate_translation_moves_the_predictions_only() {
    let p = PhysicsParameters::default();
    let mut bodies = vec![ground(), ball_at(0, S, 0).linear(Linear::default().velocity(v(S, 0, 0)))];
    integrate_translation(&mut bodies, &p, 10);
    assert_eq!(bodies[0], ground());
    let l = bodies[1].linear.unwrap();
    assert_eq!(l.velocity, v(S, -16_666_670, 0));
    assert_eq!(l.translation, v(1_666_667, 999_972_222, 0));
    assert_eq!(bodies[1].translation, v(0, S, 0));
    assert_eq!(bodies[1].future_translation(), v(1_666_667, 999_972_222, 0));
}

#[test]
fn integrate_rotation_turns_the_predictions_only() {
    let p = PhysicsParameters::default();
    let mut bodies =
        vec![ball_at(0, S, 0).angular(Angular::default().angular_velocity(v(0, 0, S)))];
    integrate_rotation(&mut bodies, &p, 10);
    assert_eq!(bodies[0].future_rotation(), q(0, 0, 833_334, 999_999_653));
    assert_eq!(bodies[0].rotation, Quat::identity());
    assert_eq!(bodies[0].angular.unwrap().inv_moment_of_inertia, v(9 * S, 9 * S, 9 * S));
}

#[test]
fn resolve_collects_in_both_bodies_without_moving_them() {
    let mut bodies = vec![ball_at(0, S / 2, 0), ball_at(0, 3 * S / 2 - 20_000_000, 0)];
    let before = bodies.clone();
    let hit = Hit {
        first: 0,
        second: 1,
        contact: Contact {
            points: (v(0, S, 0), v(0, S - 20_000_000, 0)),
            normals: (v(0, S, 0), v(0, -S, 0)),
            depth: fx(-20_000_000),
        },
    };
    resolve(&mut bodies, &hit, fx(S));
    for i in 0..2 {
        assert_eq!(bodies[i].linear.unwrap().impulse.count, 1);
        assert_eq!(bodies[i].angular.unwrap().angular_impulse.count, 1);
        assert_eq!(bodies[i].future_translation(), before[i].future_translation());
        assert_eq!(bodies[i].translation, before[i].translation);
    }
    assert_eq!(bodies[0].linear.unwrap().impulse.mean(), Some(v(0, -10_000_000, 0)));
    assert_eq!(bodies[1].linear.unwrap().impulse.mean(), Some(v(0, 10_000_000, 0)));
}

#[test]
fn resolve_passes_over_hits_it_cannot_use() {
    let mut bodies = vec![ball_at(0, S / 2, 0), ball_at(0, S, 0)];
    let before = bodies.clone();
    let contact = Contact {
        points: (v(0, S, 0), v(0, S, 0)),
        normals: (v(0, S, 0), v(0, -S, 0)),
        depth: fx(-5),
    };
    resolve(&mut bodies, &Hit { first: 0, second: 2, contact }, fx(S));
    resolve(&mut bodies, &Hit { first: 7, second: 1, contact }, fx(S));
    resolve(&mut bodies, &Hit { first: 1, second: 1, contact }, fx(S));
    let mut flat = contact;
    flat.normals.1 = Vec3::zero();
    resolve(&mut bodies, &Hit { first: 0, second: 1, contact: flat }, fx(S));
    assert_eq!(bodies, before);
}

#[test]
fn resolve_does_not_depend_on_which_body_is_named_first() {
    let hit = Hit {
        first: 0,
        second: 2,
        contact: Contact {
            points: (v(1, 2, 3), v(4, 5, 6)),
            normals: (v(0, S, 0), v(0, -S, 0)),
            depth: fx(-20_000_000),
        },
    };
    let start = vec![ball_at(0, S / 2, 0), ground(), ball_at(0, S, 0)];
    let mut one = start.clone();
    resolve(&mut one, &hit, fx(800_000_000));
    let mut other = start.clone();
    resolve(&mut other, &hit.swapped(), fx(800_000_000));
    assert_eq!(one, other);
    assert_ne!(one, start);
}

#[test]
fn contacts_collects_every_hit() {
    let p = PhysicsParameters::default();
    let mut bodies = vec![ground(), ball_at(0, S / 2 - 20_000_000, 0)];
    let hit = ball_on_ground(0, 1, bodies[1].future_translation()).unwrap();
    contacts(&mut bodies, &vec![hit, hit, hit], &p, 10);
    assert_eq!(bodies[1].linear.unwrap().impulse.count, 3);
    assert_eq!(bodies[1].linear.unwrap().impulse.mean(), Some(v(0, 10_000_000, 0)));
    assert_eq!(bodies[0], ground());
}

#[test]
fn contacts_without_a_positive_step_collects_nothing() {
    let mut p = PhysicsParameters::default();
    p.frequency = fx(0);
    let mut bodies = vec![ground(), ball_at(0, S / 2 - 20_000_000, 0)];
    let before = bodies.clone();
    let hit = ball_on_ground(0, 1, bodies[1].future_translation()).unwrap();
    contacts(&mut bodies, &vec![hit], &p, 10);
    assert_eq!(bodies, before);
}

#[test]
fn derive_translation_applies_derives_and_commits() {
    let p = PhysicsParameters::default();
    let mut bodies = vec![ground(), ball_at(0, S / 2, 0)];
    integrate_translation(&mut bodies, &p, 10);
    assert_eq!(bodies[1].future_translation(), v(0, 499_972_222, 0));
    let hit = ball_on_ground(0, 1, bodies[1].future_translation()).unwrap();
    contacts(&mut bodies, &vec![hit], &p, 10);
    derive_translation(&mut bodies, &p, 10);
    let l = bodies[1].linear.unwrap();
    assert_eq!(l.impulse.count, 0);
    assert_eq!(bodies[1].translation, v(0, 499_986_111, 0));
    assert_eq!(l.translation, bodies[1].translation);
    assert_eq!(l.velocity, v(0, -8_333_398, 0));
}

#[test]
fn derive_rotation_applies_derives_and_commits() {
    let p = PhysicsParameters::default();
    let mut bodies =
        vec![ball_at(0, S, 0).angular(Angular::default().angular_velocity(v(0, 0, S)))];
    integrate_rotation(&mut bodies, &p, 10);
    derive_rotation(&mut bodies, &p, 10);
    assert_eq!(bodies[0].rotation, q(0, 0, 833_334, 999_999_653));
    assert_eq!(bodies[0].angular.unwrap().angular_velocity, v(0, 0, 1_000_000_600));
}

#[test]
fn substep_without_a_positive_step_is_a_no_op() {
    let mut p = PhysicsParameters::default();
    p.time_scale = fx(-S);
    let mut bodies = vec![ground(), ball_at(0, S / 2 - 20_000_000, 0)];
    bodies[1].linear = Some(Linear::default().velocity(v(S, S, S)).translation(v(9, 9, 9)));
    let before = bodies.clone();
    predict(&mut bodies, &p, 10);
    assert_eq!(bodies, before);
    let hit = ball_on_ground(0, 1, v(0, S / 2 - 20_000_000, 0)).unwrap();
    correct(&mut bodies, &vec![hit], &p, 10);
    assert_eq!(bodies, before);
}

#[test]
fn pairs_are_all_unordered_pairs_in_order() {
    assert_eq!(pairs(0), vec![]);
    assert_eq!(pairs(1), vec![]);
    assert_eq!(pairs(2), vec![(0, 1)]);
    assert_eq!(pairs(4), vec![(0, 1), (0, 2), (0, 3), (1, 2), (1, 3), (2, 3)]);
    assert_eq!(pairs(50).len(), 50 * 49 / 2);
}

fn fall(substeps: usize, seconds: usize) -> Body {
    let p = PhysicsParameters::default();
    let mut bodies = vec![ball_at(0, 100 * S, 0)];
    for _ in 0..60 * substeps * seconds {
        predict(&mut bodies, &p, substeps);
        correct(&mut bodies, &vec![], &p, substeps);
    }
    bodies[0]
}

#[test]
fn free_fall_reaches_gravity_times_time() {
    for substeps in [1, 4, 10] {
        let b = fall(substeps, 1);
        let velocity = b.linear.unwrap().velocity.y.raw as f64 / S as f64;
        assert!((velocity + 10.0).abs() < 1e-4, "{} substeps: {}", substeps, velocity);
        assert_eq!(b.linear.unwrap().velocity.x.raw, 0);
        assert_eq!(b.linear.unwrap().velocity.z.raw, 0);
    }
}

#[test]
fn free_fall_exact_values() {
    assert_eq!(fall(1, 1).linear.unwrap().velocity.y.raw, -10_000_000_600);
    assert_eq!(fall(4, 1).linear.unwrap().velocity.y.raw, -9_999_992_800);
    let b = fall(10, 1);
    assert_eq!(b.linear.unwrap().velocity.y.raw, -10_000_078_000);
    assert_eq!(b.translation.y.raw, 94_991_626_600);
}

#[test]
fn resting_ball_does_not_drift() {
    let p = PhysicsParameters::default();
    let mut bodies = vec![ground(), ball_at(0, S / 2, 0)];
    let mut worst: i64 = 0;
    for _ in 0..1000 {
        predict(&mut bodies, &p, 10);
        let hits: Vec<Hit> =
            ball_on_ground(0, 1, bodies[1].future_translation()).into_iter().collect();
        correct(&mut bodies, &hits, &p, 10);
        worst = worst.max((bodies[1].translation.y.raw - S / 2).abs());
    }
    assert!((worst as f64 / S as f64) < 1e-3);
    assert_eq!(worst, 34_722);
    assert_eq!(bodies[1].translation, v(0, 499_972_223, 0));
    assert_eq!(bodies[0], ground());
}

#[test]
fn ball_touching_the_ground_gets_no_correction() {
    let p = PhysicsParameters::default();
    let mut bodies = vec![ground(), ball_at(0, S / 2, 0)];
    let hit = ball_on_ground(0, 1, bodies[1].future_translation()).unwrap();
    assert_eq!(hit.contact.depth, fx(0));
    contacts(&mut bodies, &vec![hit], &p, 10);
    let mut l = bodies[1].linear.unwrap();
    assert_eq!(l.impulse.mean(), Some(Vec3::zero()));
    l.apply_impulses();
    assert_eq!(l.translation, v(0, S / 2, 0));
}

#[test]
fn two_contacts_pushing_alike_correct_once() {
    let p = PhysicsParameters::default();
    let mut bodies = vec![ground(), ball_at(0, S / 2 - 20_000_000, 0), ground()];
    let one = ball_on_ground(0, 1, bodies[1].future_translation()).unwrap();
    let two = ball_on_ground(2, 1, bodies[1].future_translation()).unwrap();
    contacts(&mut bodies, &vec![one, two], &p, 10);
    let mut l = bodies[1].linear.unwrap();
    assert_eq!(l.impulse.count, 2);
    l.integrate(l.translation, Vec3::zero(), Fixed::one(), fx(1));
    let before = l.translation;
    l.apply_impulses();
    assert_eq!(l.translation, before.add(v(0, 10_000_000, 0)));
}

#[test]
fn replay_gives_the_same_trajectory() {
    let run = || {
        let p = PhysicsParameters::default();
        let mut bodies = vec![
            ground(),
            ball_at(0, S / 2, 0).linear(Linear::default().velocity(v(S, 0, 0))),
            ball_at(3 * S, 2 * S, 0).angular(Angular::default().angular_velocity(v(S, 2 * S, 0))),
        ];
        let mut trajectory = Vec::new();
        for _ in 0..300 {
            predict(&mut bodies, &p, 10);
            let mut hits = Vec::new();
            for (i, j) in pairs(bodies.len()) {
                if i == 0 {
                    hits.extend(ball_on_ground(i, j, bodies[j].future_translation()));
                }
            }
            correct(&mut bodies, &hits, &p, 10);
            trajectory.push(bodies.clone());
        }
        trajectory
    };
    assert_eq!(run(), run());
}

#[test]
fn a_tick_asks_for_contacts_once_per_substep() {
    let mut pipeline = Pipeline::new(PhysicsParameters::default(), PhysicsPlugin { substeps: 3 });
    assert_eq!(pipeline.spawn(ground()), 0);
    assert_eq!(pipeline.spawn(ball_at(0, 100 * S, 0)), 1);
    assert_eq!(pipeline.pending, 0);
    let mut asked = 0;
    let mut request = pipeline.begin();
    while request == Request::Detect {
        asked += 1;
        assert_eq!(pipeline.pending, 3 - asked + 1);
        request = pipeline.resolve(&vec![]);
    }
    assert_eq!(asked, 3);
    assert_eq!(pipeline.pending, 0);

    let p = PhysicsParameters::default();
    let mut bodies = vec![ground(), ball_at(0, 100 * S, 0)];
    for _ in 0..3 {
        predict(&mut bodies, &p, 3);
        correct(&mut bodies, &vec![], &p, 3);
    }
    assert_eq!(pipeline.bodies, bodies);
}

#[test]
fn begin_repeats_its_request_while_a_tick_runs() {
    let mut pipeline = Pipeline::new(PhysicsParameters::default(), PhysicsPlugin::default());
    pipeline.spawn(ball_at(0, 100 * S, 0));
    assert_eq!(pipeline.begin(), Request::Detect);
    let predicted = pipeline.bodies.clone();
    assert_eq!(pipeline.begin(), Request::Detect);
    assert_eq!(pipeline.bodies, predicted);
    assert_eq!(pipeline.pending, 10);
}

#[test]
fn resolve_between_ticks_does_nothing() {
    let mut pipeline = Pipeline::new(PhysicsParameters::default(), PhysicsPlugin::default());
    pipeline.spawn(ball_at(0, 100 * S, 0));
    let before = pipeline.bodies.clone();
    assert_eq!(pipeline.resolve(&vec![]), Request::Done);
    assert_eq!(pipeline.bodies, before);
}

#[test]
fn a_tick_without_substeps_or_without_a_positive_step_is_done_at_once() {
    let mut none = Pipeline::new(PhysicsParameters::default(), PhysicsPlugin { substeps: 0 });
    none.spawn(ball_at(0, 100 * S, 0));
    let before = none.bodies.clone();
    assert_eq!(none.begin(), Request::Done);
    assert_eq!(none.bodies, before);

    let mut p = PhysicsParameters::default();
    p.frequency = fx(0);
    let mut frozen = Pipeline::new(p, PhysicsPlugin::default());
    frozen.spawn(ball_at(0, 100 * S, 0));
    assert_eq!(frozen.begin(), Request::Done);
    assert_eq!(frozen.bodies, before);
    assert_eq!(frozen.pending, 0);
}

/// A narrow phase for balls of radius one half on the plane `y = 0`.
fn flat_world(a: &Placement, b: &Placement) -> Option<Contact> {
    match (a.shape, b.shape) {
        (Shape::Plane { .. }, Shape::Ball { .. }) => {
            ball_on_ground(0, 1, b.translation).map(|hit| hit.contact)
        }
        _ => None,
    }
}

#[test]
fn detect_lists_the_hits_in_the_order_of_the_pairs() {
    let bodies = vec![
        ground(),
        ball_at(0, S / 4, 0),
        ball_at(0, 5 * S, 0),
        ball_at(S, S / 2, 0),
    ];
    let hits = detect(&bodies, &flat_world);
    assert_eq!(hits.len(), 2);
    assert_eq!((hits[0].first, hits[0].second), (0, 1));
    assert_eq!((hits[1].first, hits[1].second), (0, 3));
    assert_eq!(hits[0].contact.depth, fx(-S / 4));
    assert_eq!(hits[1].contact.depth, fx(0));
}

#[test]
fn detect_looks_at_the_predicted_poses() {
    let mut bodies = vec![ground(), ball_at(0, S, 0)];
    assert_eq!(detect(&bodies, &flat_world).len(), 0);
    bodies[1].linear = Some(Linear::default().translation(v(0, S / 4, 0)));
    assert_eq!(detect(&bodies, &flat_world).len(), 1);
}

#[test]
fn detect_drops_answers_without_a_normal() {
    let broken = |_: &Placement, _: &Placement| {
        Some(Contact {
            points: (Vec3::zero(), Vec3::zero()),
            normals: (Vec3::zero(), v(0, S, 0)),
            depth: fx(-1),
        })
    };
    assert_eq!(detect(&vec![ground(), ball_at(0, 0, 0)], &broken).len(), 0);
}

#[test]
fn tick_runs_every_substep_with_its_own_contacts() {
    let mut whole = Pipeline::new(PhysicsParameters::default(), PhysicsPlugin::default());
    whole.spawn(ground());
    whole.spawn(ball_at(0, S / 2, 0));
    let mut stepped = Pipeline::new(PhysicsParameters::default(), PhysicsPlugin::default());
    stepped.spawn(ground());
    stepped.spawn(ball_at(0, S / 2, 0));
    for _ in 0..100 {
        whole.tick(&flat_world);
        let mut request = stepped.begin();
        while request == Request::Detect {
            let hits = detect(&stepped.bodies, &flat_world);
            request = stepped.resolve(&hits);
        }
        assert_eq!(whole.bodies, stepped.bodies);
        assert_eq!(whole.pending, 0);
    }
    assert_eq!(whole.bodies[1].translation, v(0, 499_972_223, 0));
}

#[test]
fn tick_finishes_a_tick_that_waits() {
    let mut pipeline = Pipeline::new(PhysicsParameters::default(), PhysicsPlugin { substeps: 2 });
    pipeline.spawn(ball_at(0, 100 * S, 0));
    let mut other = Pipeline::new(PhysicsParameters::default(), PhysicsPlugin { substeps: 2 });
    other.spawn(ball_at(0, 100 * S, 0));
    assert_eq!(pipeline.begin(), Request::Detect);
    assert_eq!(pipeline.resolve(&vec![]), Request::Detect);
    assert_eq!(pipeline.pending, 1);
    pipeline.tick(&flat_world);
    other.tick(&flat_world);
    assert_eq!(pipeline.pending, 0);
    assert_eq!(pipeline.bodies, other.bodies);
}

#[test]
fn tick_without_a_positive_step_changes_nothing() {
    let mut p = PhysicsParameters::default();
    p.frequency = fx(0);
    let mut pipeline = Pipeline::new(p, PhysicsPlugin::default());
    pipeline.spawn(ground());
    pipeline.spawn(ball_at(0, S / 4, 0));
    let before = pipeline.bodies.clone();
    pipeline.tick(&flat_world);
    assert_eq!(pipeline.bodies, before);
}

#[test]
fn resting_contact_leaves_the_rotation_within_rounding() {
    let p = PhysicsParameters::default();
    let start = q(0, 0, 3 * S, 4 * S).normalize();
    let mut ball = ball_at(0, S / 2, 0);
    ball.angular = Some(Angular::default().rotation(start));
    let mut bodies = vec![ground(), ball];
    let hit = ball_on_ground(0, 1, bodies[1].future_translation()).unwrap();
    assert_eq!(hit.contact.depth, fx(0));
    contacts(&mut bodies, &vec![hit], &p, 10);
    let mut a = bodies[1].angular.unwrap();
    assert_eq!((a.angular_impulse.x, a.angular_impulse.y, a.angular_impulse.z), (0, 0, 0));
    assert_eq!(a.angular_impulse.count, 1);
    a.apply_impulses();
    assert_eq!(a.angular_impulse.count, 0);
    for (now, before) in [
        (a.rotation.x, start.x),
        (a.rotation.y, start.y),
        (a.rotation.z, start.z),
        (a.rotation.w, start.w),
    ] {
        assert!((now.raw - before.raw).abs() <= 4);
    }
}
