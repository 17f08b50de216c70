use rigid_dynamics::collider::{contact, Collider, ColliderError, Contact, Shape};
use rigid_dynamics::fixed::Fixed;
use rigid_dynamics::vector::Vec3;

const S: i64 = 1_000_000_000;

fn fx(raw: i64) -> Fixed {
    Fixed::from_raw(raw)
}

fn v(x: i64, y: i64, z: i64) -> Vec3 {
    Vec3::new(fx(x), fx(y), fx(z))
}

fn ball() -> Shape {
    Shape::Ball { radius: fx(S / 2) }
}

fn touch() -> Contact {
    Contact {
        points: (v(0, 0, 0), v(0, -20_000_000, 0)),
        normals: (v(0, S, 0), v(0, -S, 0)),
        depth: fx(-20_000_000),
    }
}

#[test]
fn collider_with_positive_mass_is_accepted() {
    let c = Collider::new(fx(2 * S), ball()).unwrap();
    assert_eq!(c.mass, fx(2 * S));
    assert_eq!(c.shape, ball());
    assert_eq!(c.check(), None);
}

#[test]
fn dynamic_collider_without_mass_is_rejected() {
    assert_eq!(Collider::new(fx(0), ball()), Err(ColliderError::MassNotPositive));
    assert_eq!(Collider::new(fx(-S), ball()), Err(ColliderError::MassNotPositive));
    let capsule = Shape::Capsule { radius: fx(S / 2), length: fx(S) };
    assert_eq!(Collider::new(fx(0), capsule), Err(ColliderError::MassNotPositive));
}

#[test]
fn plane_needs_a_normal_but_no_mass() {
    let flat = Shape::Plane { normal: v(0, 0, 0) };
    assert_eq!(Collider::new(fx(S), flat), Err(ColliderError::NormalZero));
    let ground = Shape::Plane { normal: v(0, S, 0) };
    assert!(Collider::new(fx(0), ground).is_ok());
    assert!(Collider::new(fx(i64::MAX), ground).is_ok());
}

#[test]
fn inverse_mass() {
    assert_eq!(Collider::new(fx(2 * S), ball()).unwrap().inv_mass(), fx(S / 2));
    assert_eq!(Collider::new(fx(S), ball()).unwrap().inv_mass(), fx(S));
    assert_eq!(Collider::new(fx(3 * S), ball()).unwrap().inv_mass(), fx(333_333_333));
    let ground = Shape::Plane { normal: v(0, S, 0) };
    assert_eq!(Collider::new(fx(5 * S), ground).unwrap().inv_mass(), fx(0));
}

#[test]
fn inverse_moment_of_inertia_squares_each_axis() {
    let c = Collider::new(fx(S), ball()).unwrap();
    assert_eq!(c.inv_moment_of_inertia(v(2 * S, -3 * S, S / 2)), v(4 * S, 9 * S, S / 4));
    let ground = Collider::new(fx(S), Shape::Plane { normal: v(0, S, 0) }).unwrap();
    assert_eq!(ground.inv_moment_of_inertia(v(2 * S, 3 * S, 4 * S)), v(0, 0, 0));
}

#[test]
fn shapes_know_whether_they_are_planes() {
    assert!(Shape::Plane { normal: v(0, S, 0) }.is_plane());
    assert!(!ball().is_plane());
    assert!(!Shape::Capsule { radius: fx(1), length: fx(1) }.is_plane());
}

#[test]
fn separated_shapes_give_no_contact() {
    assert_eq!(contact(None), None);
}

#[test]
fn a_contact_is_admitted_as_it_is() {
    assert_eq!(contact(Some(touch())), Some(touch()));
}

#[test]
fn a_contact_without_a_normal_is_no_contact() {
    let mut first = touch();
    first.normals.0 = v(0, 0, 0);
    assert_eq!(contact(Some(first)), None);
    let mut second = touch();
    second.normals.1 = v(0, 0, 0);
    assert_eq!(contact(Some(second)), None);
    assert!(!first.is_usable());
    assert!(touch().is_usable());
}

#[test]
fn swapping_a_contact_exchanges_points_and_normals() {
    let c = touch();
    let s = c.swapped();
    assert_eq!(s.points, (c.points.1, c.points.0));
    assert_eq!(s.normals, (c.normals.1, c.normals.0));
    assert_eq!(s.depth, c.depth);
    assert_eq!(s.swapped(), c);
    assert_eq!(contact(Some(s)), contact(Some(c)).map(|a| a.swapped()));
}
