use rigid_dynamics::fixed::Fixed;
use rigid_dynamics::quat::{integer_sqrt, Quat};
use rigid_dynamics::vector::Vec3;

const S: i64 = 1_000_000_000;

fn v(x: i64, y: i64, z: i64) -> Vec3 {
    Vec3::new(Fixed::from_raw(x), Fixed::from_raw(y), Fixed::from_raw(z))
}

fn q(x: i64, y: i64, z: i64, w: i64) -> Quat {
    Quat::new(Fixed::from_raw(x), Fixed::from_raw(y), Fixed::from_raw(z), Fixed::from_raw(w))
}

fn norm_sq(r: Quat) -> i128 {
    let c = [r.x.raw as i128, r.y.raw as i128, r.z.raw as i128, r.w.raw as i128];
    c.iter().map(|a| a * a).sum()
}

fn assert_unit(r: Quat) {
    let deviation = norm_sq(r) - (S as i128) * (S as i128);
    assert!(deviation.abs() <= 6 * S as i128, "squared length off by {}", deviation);
    let length = (norm_sq(r) as f64).sqrt() / S as f64;
    assert!((length - 1.0).abs() < 1e-6);
}

#[test]
fn vector_sum_difference_negation() {
    assert_eq!(v(1, 2, 3).add(v(10, 20, 30)), v(11, 22, 33));
    assert_eq!(v(1, 2, 3).sub(v(10, 20, 30)), v(-9, -18, -27));
    assert_eq!(v(1, -2, 3).neg(), v(-1, 2, -3));
    assert_eq!(Vec3::zero(), v(0, 0, 0));
}

#[test]
fn vector_scale_and_divide() {
    assert_eq!(v(S, -2 * S, 3 * S).scale(Fixed::half()), v(S / 2, -S, 3 * S / 2));
    assert_eq!(v(S, -2 * S, 3 * S).div(Fixed::from_int(2)), v(S / 2, -S, 3 * S / 2));
    assert_eq!(v(S, S, S).div(Fixed::from_int(3)), v(333_333_333, 333_333_333, 333_333_333));
}

#[test]
fn vector_product_by_components() {
    assert_eq!(v(2 * S, 3 * S, 4 * S).mul(v(S, 0, -S / 2)), v(2 * S, 0, -2 * S));
}

#[test]
fn cross_product() {
    assert_eq!(v(S, 0, 0).cross(v(0, S, 0)), v(0, 0, S));
    assert_eq!(v(0, S, 0).cross(v(S, 0, 0)), v(0, 0, -S));
    assert_eq!(v(S, 2 * S, 3 * S).cross(v(4 * S, 5 * S, 6 * S)), v(-3 * S, 6 * S, -3 * S));
}

#[test]
fn zero_length() {
    assert!(v(0, 0, 0).is_zero());
    assert!(!v(0, 0, 1).is_zero());
    assert!(!v(-1, 0, 0).is_zero());
}

#[test]
fn integer_square_roots() {
    assert_eq!(integer_sqrt(0), 0);
    assert_eq!(integer_sqrt(1), 1);
    assert_eq!(integer_sqrt(3), 1);
    assert_eq!(integer_sqrt(4), 2);
    assert_eq!(integer_sqrt(99), 9);
    assert_eq!(integer_sqrt(1_000_000_000_000_000_000), 1_000_000_000);
    assert_eq!(integer_sqrt(1 << 126), 1 << 63);
    assert_eq!(integer_sqrt((1 << 126) - 1), (1 << 63) - 1);
    assert_eq!(integer_sqrt(u128::MAX), u64::MAX);
}

#[test]
fn quaternion_parts() {
    assert_eq!(Quat::identity(), q(0, 0, 0, S));
    assert_eq!(Quat::pure(v(1, 2, 3)), q(1, 2, 3, 0));
    assert_eq!(q(1, 2, 3, 4).xyz(), v(1, 2, 3));
    assert_eq!(q(1, 2, 3, 4).conjugate(), q(-1, -2, -3, 4));
    assert_eq!(q(1, 2, 3, 4).neg(), q(-1, -2, -3, -4));
    assert_eq!(q(1, 2, 3, 4).add(q(10, 20, 30, 40)), q(11, 22, 33, 44));
}

#[test]
fn hamilton_product() {
    let a = q(S, 2 * S, 3 * S, 4 * S);
    let b = q(5 * S, 6 * S, 7 * S, 8 * S);
    assert_eq!(a.mul(b), q(24 * S, 48 * S, 48 * S, -6 * S));
    assert_eq!(a.mul(Quat::identity()), a);
    assert_eq!(Quat::identity().mul(a), a);
    // i * j = k, j * i = -k
    assert_eq!(q(S, 0, 0, 0).mul(q(0, S, 0, 0)), q(0, 0, S, 0));
    assert_eq!(q(0, S, 0, 0).mul(q(S, 0, 0, 0)), q(0, 0, -S, 0));
}

#[test]
fn normalize_three_four_five() {
    assert_eq!(q(3 * S, 0, 0, 4 * S).normalize(), q(600_000_000, 0, 0, 800_000_000));
}

#[test]
fn normalize_rounds_each_component() {
    let r = q(S, 2 * S, 3 * S, 4 * S).normalize();
    assert_eq!(r, q(182_574_186, 365_148_372, 547_722_558, 730_296_743));
    assert_unit(r);
}

#[test]
fn normalize_zero_gives_the_identity() {
    assert_eq!(q(0, 0, 0, 0).normalize(), Quat::identity());
}

#[test]
fn normalize_the_smallest_quaternions() {
    assert_eq!(q(1, 1, 1, 1).normalize(), q(S / 2, S / 2, S / 2, S / 2));
    let r = q(1, 2, 0, 0).normalize();
    assert_eq!(r, q(447_213_596, 894_427_191, 0, 0));
    assert_unit(r);
    assert_eq!(q(0, 0, -1, 0).normalize(), q(0, 0, -S, 0));
}

#[test]
fn normalize_the_largest_quaternions() {
    let r = q(i64::MAX, i64::MIN, i64::MAX, i64::MIN).normalize();
    assert_eq!(r, q(S / 2, -S / 2, S / 2, -S / 2));
    assert_unit(q(i64::MIN, i64::MIN, i64::MIN, i64::MIN).normalize());
    assert_unit(q(i64::MAX, 1, -1, 0).normalize());
}

#[test]
fn normalize_is_unit_over_many_magnitudes() {
    let mut seed: u64 = 0x9E37_79B9_7F4A_7C15;
    let mut next = || {
        seed ^= seed << 13;
        seed ^= seed >> 7;
        seed ^= seed << 17;
        seed
    };
    for shift in 0..63 {
        for _ in 0..50 {
            let c = [next() as i64 >> shift, next() as i64 >> shift, next() as i64 >> shift, next()
                as i64 >> shift];
            assert_unit(q(c[0], c[1], c[2], c[3]).normalize());
        }
    }
}

#[test]
fn identity_is_unit() {
    assert_unit(Quat::identity());
}

#[test]
fn normalizing_again_moves_little() {
    let mut seed: u64 = 0x2545_F491_4F6C_DD1D;
    let mut next = || {
        seed ^= seed << 13;
        seed ^= seed >> 7;
        seed ^= seed << 17;
        (seed >> 20) as i64 - (1 << 43)
    };
    for _ in 0..2000 {
        let unit = q(next(), next(), next(), next()).normalize();
        let again = unit.normalize();
        for (a, b) in [(again.x, unit.x), (again.y, unit.y), (again.z, unit.z), (again.w, unit.w)]
        {
            assert!((a.raw - b.raw).abs() <= 4);
        }
    }
}
