//! Quaternions of fixed-point numbers, used as rotations.
//!
//! A rotation is a quaternion of length one. Fixed-point arithmetic cannot
//! keep the length at exactly one, so [`Quat::is_unit`] allows a deviation of
//! a few billionths, and [`Quat::normalize`] is proved to stay inside it for
//! every input.

use vstd::prelude::*;
use crate::fixed::{round_div, round_div_nat, round_quot, lemma_round_div_nat_error, Fixed, SCALE};
use crate::vector::Vec3;

verus! {

/// A quaternion `w + xi + yj + zk`.
#[derive(Clone, Copy, Debug, PartialEq, Eq, Structural)]
pub struct Quat {
    pub x: Fixed,
    pub y: Fixed,
    pub z: Fixed,
    pub w: Fixed,
}

/// The absolute value of `x`.
pub open spec fn magnitude(x: int) -> int {
    if x >= 0 {
        x
    } else {
        -x
    }
}

/// Whether `r` is the integer square root of `n`: the greatest integer whose
/// square does not exceed `n`.
pub open spec fn is_root(n: int, r: int) -> bool {
    0 <= r && r * r <= n && n < (r + 1) * (r + 1)
}

/// The integer square root of a non-negative `n`.
pub open spec fn isqrt(n: int) -> int {
    choose|r: int| is_root(n, r)
}

/// A number has at most one integer square root.
pub proof fn lemma_root_unique(n: int, a: int, b: int)
    requires
        is_root(n, a),
        is_root(n, b),
    ensures
        a == b,
{
    if a < b {
        assert((a + 1) * (a + 1) <= b * b) by (nonlinear_arith)
            requires
                0 <= a,
                a + 1 <= b,
        ;
    }
    if b < a {
        assert((b + 1) * (b + 1) <= a * a) by (nonlinear_arith)
            requires
                0 <= b,
                b + 1 <= a,
        ;
    }
}

/// Any `r` that brackets `n` between `r * r` and `(r + 1) * (r + 1)` is its
/// integer square root.
pub proof fn lemma_isqrt(n: int, r: int)
    requires
        is_root(n, r),
    ensures
        isqrt(n) == r,
{
    lemma_root_unique(n, r, isqrt(n));
}

/// The integer square root of `n`, found by bisection.
pub fn integer_sqrt(n: u128) -> (r: u64)
    ensures
        r == isqrt(n as int),
        is_root(n as int, r as int),
{
    let mut low: u128 = 0;
    let mut high: u128 = 0x1_0000_0000_0000_0000;
    assert(0x1_0000_0000_0000_0000int * 0x1_0000_0000_0000_0000int
        == 0x1_0000_0000_0000_0000_0000_0000_0000_0000int) by (nonlinear_arith);
    while high - low > 1
        invariant
            0 <= low < high <= 0x1_0000_0000_0000_0000,
            low * low <= n,
            n < high * high,
        decreases high - low,
    {
        let mid: u128 = low + (high - low) / 2;
        assert(mid * mid <= 0xFFFF_FFFF_FFFF_FFFF_FFFF_FFFF_FFFF_FFFF) by (nonlinear_arith)
            requires
                0 <= mid <= 0xFFFF_FFFF_FFFF_FFFF,
        ;
        if mid * mid <= n {
            low = mid;
        } else {
            high = mid;
        }
    }
    proof {
        lemma_isqrt(n as int, low as int);
    }
    low as u64
}

/// A number whose square does not exceed `n` does not exceed the integer
/// square root of `n`.
pub proof fn lemma_root_dominates(n: int, r: int, a: int)
    requires
        is_root(n, r),
        0 <= a,
        a * a <= n,
    ensures
        a <= r,
{
    if a > r {
        assert((r + 1) * (r + 1) <= a * a) by (nonlinear_arith)
            requires
                0 <= r,
                r + 1 <= a,
        ;
    }
}

/// `c` halved, rounded toward zero.
pub open spec fn halve(c: int) -> int {
    if c >= 0 {
        c / 2
    } else {
        -((-c) / 2)
    }
}

/// The component `c` of a quaternion whose largest component has magnitude
/// `m`, brought to a magnitude between `2^31` and `2^62` before the length is
/// taken: small quaternions are multiplied by `2^31`, the very largest are
/// halved.
pub open spec fn spread(c: int, m: int) -> int {
    if m < 0x8000_0000 {
        c * 0x8000_0000
    } else if m >= 0x4000_0000_0000_0000 {
        halve(c)
    } else {
        c
    }
}

/// The component `c` of a spread quaternion of integer length `n`, divided
/// by that length.
pub open spec fn unit_component(c: int, n: int) -> int {
    round_div(c * SCALE, n)
}

/// The square of one rounded component, against the square of the exact one.
proof fn lemma_component_square(a: int, s: int, n: int, r: int)
    requires
        0 <= a <= n,
        0 < s,
        0 < n,
        0 <= r,
        -n <= 2 * (r * n - a * s) <= n,
    ensures
        4 * ((r * r) * (n * n)) <= 4 * ((a * a) * (s * s)) + 4 * (s * (n * n)) + n * n,
        4 * ((r * r) * (n * n)) >= 4 * ((a * a) * (s * s)) - 4 * (s * (n * n)),
{
    let p = r * n;
    let x = a * s;
    let e = 2 * (p - x);
    assert(0 <= x) by (nonlinear_arith)
        requires
            x == a * s,
            0 <= a,
            0 < s,
    ;
    assert((2 * p) * (2 * p) == 4 * (x * x) + 4 * (x * e) + e * e) by (nonlinear_arith)
        requires
            2 * p == 2 * x + e,
    ;
    assert((2 * p) * (2 * p) == 4 * (p * p)) by (nonlinear_arith);
    assert(0 <= e * e <= n * n) by (nonlinear_arith)
        requires
            -n <= e <= n,
    ;
    assert(-(x * n) <= x * e <= x * n) by (nonlinear_arith)
        requires
            -n <= e <= n,
            0 <= x,
    ;
    assert(x * n <= s * (n * n)) by (nonlinear_arith)
        requires
            x == a * s,
            0 <= a <= n,
            0 < s,
            0 < n,
    ;
    assert(p * p == (r * r) * (n * n)) by (nonlinear_arith)
        requires
            p == r * n,
    ;
    assert(x * x == (a * a) * (s * s)) by (nonlinear_arith)
        requires
            x == a * s,
    ;
}

/// Four numbers `a0..a3` of integer length `n`, each multiplied by `s`,
/// divided by `n` and rounded to `r0..r3`, have a squared length within
/// `6 * s` of `s * s`, provided `n` is at least `2 * s`.
proof fn lemma_rounded_length(
    s: int,
    n: int,
    a0: int,
    a1: int,
    a2: int,
    a3: int,
    r0: int,
    r1: int,
    r2: int,
    r3: int,
)
    requires
        0 < s,
        2 * s <= n,
        is_root(a0 * a0 + a1 * a1 + a2 * a2 + a3 * a3, n),
        0 <= a0 <= n,
        0 <= a1 <= n,
        0 <= a2 <= n,
        0 <= a3 <= n,
        0 <= r0,
        0 <= r1,
        0 <= r2,
        0 <= r3,
        -n <= 2 * (r0 * n - a0 * s) <= n,
        -n <= 2 * (r1 * n - a1 * s) <= n,
        -n <= 2 * (r2 * n - a2 * s) <= n,
        -n <= 2 * (r3 * n - a3 * s) <= n,
    ensures
        s * s - 6 * s <= r0 * r0 + r1 * r1 + r2 * r2 + r3 * r3 <= s * s + 6 * s,
{
    let nn = n * n;
    let ss = s * s;
    let total = a0 * a0 + a1 * a1 + a2 * a2 + a3 * a3;
    let length = r0 * r0 + r1 * r1 + r2 * r2 + r3 * r3;
    lemma_component_square(a0, s, n, r0);
    lemma_component_square(a1, s, n, r1);
    lemma_component_square(a2, s, n, r2);
    lemma_component_square(a3, s, n, r3);
    assert(length * nn == (r0 * r0) * nn + (r1 * r1) * nn + (r2 * r2) * nn + (r3 * r3) * nn)
        by (nonlinear_arith)
        requires
            length == r0 * r0 + r1 * r1 + r2 * r2 + r3 * r3,
    ;
    assert(total * ss == (a0 * a0) * ss + (a1 * a1) * ss + (a2 * a2) * ss + (a3 * a3) * ss)
        by (nonlinear_arith)
        requires
            total == a0 * a0 + a1 * a1 + a2 * a2 + a3 * a3,
    ;
    assert(4 * (length * nn) <= 4 * (total * ss) + 16 * (s * nn) + 4 * nn);
    assert(4 * (length * nn) >= 4 * (total * ss) - 16 * (s * nn));
    assert((n + 1) * (n + 1) == nn + 2 * n + 1) by (nonlinear_arith)
        requires
            nn == n * n,
    ;
    assert(nn * ss <= total * ss <= (nn + 2 * n) * ss) by (nonlinear_arith)
        requires
            nn <= total <= nn + 2 * n,
            0 <= ss,
    ;
    assert((nn + 2 * n) * ss == nn * ss + (2 * s) * (n * s)) by (nonlinear_arith)
        requires
            ss == s * s,
    ;
    assert((2 * s) * (n * s) <= n * (n * s)) by (nonlinear_arith)
        requires
            2 * s <= n,
            0 < s,
            0 < n,
    ;
    assert(n * (n * s) == s * nn) by (nonlinear_arith)
        requires
            nn == n * n,
    ;
    assert(0 < nn) by (nonlinear_arith)
        requires
            nn == n * n,
            0 < n,
    ;
    assert(length * nn <= (ss + 5 * s + 1) * nn) by (nonlinear_arith)
        requires
            4 * (length * nn) <= 4 * (nn * ss) + 4 * (s * nn) + 16 * (s * nn) + 4 * nn,
    ;
    assert(length * nn >= (ss - 4 * s) * nn) by (nonlinear_arith)
        requires
            4 * (length * nn) >= 4 * (nn * ss) - 16 * (s * nn),
    ;
    assert(length <= ss + 5 * s + 1) by (nonlinear_arith)
        requires
            length * nn <= (ss + 5 * s + 1) * nn,
            0 < nn,
    ;
    assert(length >= ss - 4 * s) by (nonlinear_arith)
        requires
            length * nn >= (ss - 4 * s) * nn,
            0 < nn,
    ;
}

/// The square of a number of magnitude at most `2^62` is at most `2^124`,
/// and equals the square of its magnitude.
proof fn lemma_square_range(c: int)
    requires
        magnitude(c) <= 0x4000_0000_0000_0000,
    ensures
        0 <= c * c <= 0x1000_0000_0000_0000_0000_0000_0000_0000,
        c * c == magnitude(c) * magnitude(c),
{
    assert(0 <= c * c <= 0x1000_0000_0000_0000_0000_0000_0000_0000) by (nonlinear_arith)
        requires
            -0x4000_0000_0000_0000 <= c <= 0x4000_0000_0000_0000,
    ;
    lemma_square_of_magnitude(c);
}

/// The square of a number of magnitude at least `2^31` is at least `2^62`.
proof fn lemma_square_floor(c: int)
    ensures
        magnitude(c) >= 0x8000_0000 ==> c * c >= 0x4000_0000_0000_0000,
{
    if magnitude(c) >= 0x8000_0000 {
        assert(c * c >= 0x4000_0000_0000_0000) by (nonlinear_arith)
            requires
                c >= 0x8000_0000 || c <= -0x8000_0000,
        ;
    }
}

/// A number and its magnitude have the same square.
proof fn lemma_square_of_magnitude(c: int)
    ensures
        c * c == magnitude(c) * magnitude(c),
{
    assert((-c) * (-c) == c * c) by (nonlinear_arith);
}

/// The magnitude of `c` as a machine integer.
fn magnitude_of(c: i64) -> (r: i128)
    ensures
        r == magnitude(c as int),
        0 <= r <= 0x8000_0000_0000_0000,
{
    let wide: i128 = c as i128;
    if wide >= 0 {
        wide
    } else {
        -wide
    }
}

/// The greater of two machine integers.
fn greater(a: i128, b: i128) -> (r: i128)
    ensures
        r == if a >= b { a } else { b },
{
    if a >= b {
        a
    } else {
        b
    }
}

/// [`spread`] on machine integers.
fn spread_component(c: i64, m: i128) -> (r: i128)
    requires
        magnitude(c as int) <= m <= 0x8000_0000_0000_0000,
    ensures
        r == spread(c as int, m as int),
        magnitude(r as int) <= 0x4000_0000_0000_0000,
        0 < m && magnitude(c as int) == m ==> magnitude(r as int) >= 0x8000_0000,
{
    let wide: i128 = c as i128;
    if m < 0x8000_0000 {
        wide * 0x8000_0000
    } else if m >= 0x4000_0000_0000_0000 {
        wide / 2
    } else {
        wide
    }
}

/// One component of a spread quaternion of integer length `n`, divided by
/// that length, together with what the length bound needs to know of it.
fn unit_component_of(c: i128, n: i128) -> (r: i64)
    requires
        magnitude(c as int) <= n,
        0x8000_0000 <= n <= 0x8000_0000_0000_0000,
    ensures
        r == unit_component(c as int, n as int),
        magnitude(r as int) == round_div_nat(magnitude(c as int) * SCALE, n as int),
        magnitude(r as int) <= SCALE,
{
    let scale: i128 = SCALE as i128;
    assert(scale == 1_000_000_000);
    let q: i128 = round_quot(c * scale, n);
    proof {
        let a = magnitude(c as int);
        let rho = round_div_nat(a * SCALE, n as int);
        lemma_round_div_nat_error(a * SCALE, n as int);
        assert(rho <= SCALE) by (nonlinear_arith)
            requires
                2 * (rho * n - a * SCALE) <= n,
                0 <= a <= n,
                0 < n,
                SCALE == 1_000_000_000,
        ;
        assert(magnitude(q as int) == rho);
    }
    q as i64
}

impl Quat {
    /// The rotation that turns nothing: `1`.
    pub open spec fn spec_identity() -> Quat {
        Quat {
            x: Fixed { raw: 0 },
            y: Fixed { raw: 0 },
            z: Fixed { raw: 0 },
            w: Fixed { raw: SCALE },
        }
    }

    /// The quaternion with vector part `v` and scalar part zero.
    pub open spec fn spec_pure(v: Vec3) -> Quat {
        Quat { x: v.x, y: v.y, z: v.z, w: Fixed { raw: 0 } }
    }

    /// The vector part.
    pub open spec fn spec_xyz(self) -> Vec3 {
        Vec3 { x: self.x, y: self.y, z: self.z }
    }

    /// The component-wise sum.
    pub open spec fn spec_add(self, other: Quat) -> Quat {
        Quat {
            x: self.x.spec_add(other.x),
            y: self.y.spec_add(other.y),
            z: self.z.spec_add(other.z),
            w: self.w.spec_add(other.w),
        }
    }

    /// The component-wise negation.
    pub open spec fn spec_neg(self) -> Quat {
        Quat {
            x: self.x.spec_neg(),
            y: self.y.spec_neg(),
            z: self.z.spec_neg(),
            w: self.w.spec_neg(),
        }
    }

    /// The conjugate: the vector part negated.
    pub open spec fn spec_conjugate(self) -> Quat {
        Quat { x: self.x.spec_neg(), y: self.y.spec_neg(), z: self.z.spec_neg(), w: self.w }
    }

    /// The Hamilton product `self * other`, each component summed from left
    /// to right.
    pub open spec fn spec_mul(self, other: Quat) -> Quat {
        Quat {
            x: self.w.spec_mul(other.x).spec_add(self.x.spec_mul(other.w)).spec_add(
                self.y.spec_mul(other.z),
            ).spec_sub(self.z.spec_mul(other.y)),
            y: self.w.spec_mul(other.y).spec_sub(self.x.spec_mul(other.z)).spec_add(
                self.y.spec_mul(other.w),
            ).spec_add(self.z.spec_mul(other.x)),
            z: self.w.spec_mul(other.z).spec_add(self.x.spec_mul(other.y)).spec_sub(
                self.y.spec_mul(other.x),
            ).spec_add(self.z.spec_mul(other.w)),
            w: self.w.spec_mul(other.w).spec_sub(self.x.spec_mul(other.x)).spec_sub(
                self.y.spec_mul(other.y),
            ).spec_sub(self.z.spec_mul(other.z)),
        }
    }

    /// The squared length, in units of `1 / (SCALE * SCALE)`.
    pub open spec fn norm_sq(self) -> int {
        self.x.raw * self.x.raw + self.y.raw * self.y.raw + self.z.raw * self.z.raw + self.w.raw
            * self.w.raw
    }

    /// Whether the squared length is within six billionths of one.
    pub open spec fn is_unit(self) -> bool {
        SCALE * SCALE - 6 * SCALE <= self.norm_sq() <= SCALE * SCALE + 6 * SCALE
    }

    /// The magnitude of the largest component.
    pub open spec fn largest(self) -> int {
        let a = magnitude(self.x.raw as int);
        let b = magnitude(self.y.raw as int);
        let c = magnitude(self.z.raw as int);
        let d = magnitude(self.w.raw as int);
        let ab = if a >= b { a } else { b };
        let cd = if c >= d { c } else { d };
        if ab >= cd {
            ab
        } else {
            cd
        }
    }

    /// The squared integer length after [`spread`].
    pub open spec fn spread_norm_sq(self) -> int {
        let m = self.largest();
        let x = spread(self.x.raw as int, m);
        let y = spread(self.y.raw as int, m);
        let z = spread(self.z.raw as int, m);
        let w = spread(self.w.raw as int, m);
        x * x + y * y + z * z + w * w
    }

    /// The quaternion of length one that points the way `self` does; the
    /// identity when `self` is zero. Each component is spread, multiplied by
    /// `SCALE`, and divided by the integer square root of the squared length.
    pub open spec fn spec_normalize(self) -> Quat {
        let m = self.largest();
        if m == 0 {
            Quat::spec_identity()
        } else {
            let n = isqrt(self.spread_norm_sq());
            Quat {
                x: Fixed { raw: unit_component(spread(self.x.raw as int, m), n) as i64 },
                y: Fixed { raw: unit_component(spread(self.y.raw as int, m), n) as i64 },
                z: Fixed { raw: unit_component(spread(self.z.raw as int, m), n) as i64 },
                w: Fixed { raw: unit_component(spread(self.w.raw as int, m), n) as i64 },
            }
        }
    }

    /// The quaternion with the given components.
    pub fn new(x: Fixed, y: Fixed, z: Fixed, w: Fixed) -> (r: Quat)
        ensures
            r == (Quat { x, y, z, w }),
    {
        Quat { x, y, z, w }
    }

    /// The rotation that turns nothing.
    pub fn identity() -> (r: Quat)
        ensures
            r == Quat::spec_identity(),
            r.is_unit(),
    {
        assert(SCALE * SCALE == 1_000_000_000_000_000_000int) by (nonlinear_arith)
            requires
                SCALE == 1_000_000_000,
        ;
        Quat { x: Fixed::zero(), y: Fixed::zero(), z: Fixed::zero(), w: Fixed::one() }
    }

    /// The quaternion with vector part `v` and scalar part zero.
    pub fn pure(v: Vec3) -> (r: Quat)
        ensures
            r == Quat::spec_pure(v),
    {
        Quat { x: v.x, y: v.y, z: v.z, w: Fixed::zero() }
    }

    /// The vector part.
    pub fn xyz(self) -> (r: Vec3)
        ensures
            r == self.spec_xyz(),
    {
        Vec3 { x: self.x, y: self.y, z: self.z }
    }

    /// `self + other`.
    pub fn add(self, other: Quat) -> (r: Quat)
        ensures
            r == self.spec_add(other),
    {
        Quat {
            x: self.x.add(other.x),
            y: self.y.add(other.y),
            z: self.z.add(other.z),
            w: self.w.add(other.w),
        }
    }

    /// `-self`, which stands for the same rotation.
    pub fn neg(self) -> (r: Quat)
        ensures
            r == self.spec_neg(),
    {
        Quat { x: self.x.neg(), y: self.y.neg(), z: self.z.neg(), w: self.w.neg() }
    }

    /// The conjugate, which for a rotation is the inverse.
    pub fn conjugate(self) -> (r: Quat)
        ensures
            r == self.spec_conjugate(),
    {
        Quat { x: self.x.neg(), y: self.y.neg(), z: self.z.neg(), w: self.w }
    }

    /// The Hamilton product `self * other`.
    pub fn mul(self, other: Quat) -> (r: Quat)
        ensures
            r == self.spec_mul(other),
    {
        Quat {
            x: self.w.mul(other.x).add(self.x.mul(other.w)).add(self.y.mul(other.z)).sub(
                self.z.mul(other.y),
            ),
            y: self.w.mul(other.y).sub(self.x.mul(other.z)).add(self.y.mul(other.w)).add(
                self.z.mul(other.x),
            ),
            z: self.w.mul(other.z).add(self.x.mul(other.y)).sub(self.y.mul(other.x)).add(
                self.z.mul(other.w),
            ),
            w: self.w.mul(other.w).sub(self.x.mul(other.x)).sub(self.y.mul(other.y)).sub(
                self.z.mul(other.z),
            ),
        }
    }

    /// The quaternion of length one that points the way `self` does; the
    /// identity when `self` is zero. The result is a unit quaternion
    /// whatever `self` is.
    pub fn normalize(self) -> (r: Quat)
        ensures
            r == self.spec_normalize(),
            r.is_unit(),
    {
        let ax: i128 = magnitude_of(self.x.raw);
        let ay: i128 = magnitude_of(self.y.raw);
        let az: i128 = magnitude_of(self.z.raw);
        let aw: i128 = magnitude_of(self.w.raw);
        let m: i128 = greater(greater(ax, ay), greater(az, aw));
        if m == 0 {
            return Quat::identity();
        }
        let sx: i128 = spread_component(self.x.raw, m);
        let sy: i128 = spread_component(self.y.raw, m);
        let sz: i128 = spread_component(self.z.raw, m);
        let sw: i128 = spread_component(self.w.raw, m);
        proof {
            lemma_square_range(sx as int);
            lemma_square_range(sy as int);
            lemma_square_range(sz as int);
            lemma_square_range(sw as int);
        }
        let total: i128 = sx * sx + sy * sy + sz * sz + sw * sw;
        let n: i128 = integer_sqrt(total as u128) as i128;
        proof {
            lemma_root_dominates(total as int, n as int, magnitude(sx as int));
            lemma_root_dominates(total as int, n as int, magnitude(sy as int));
            lemma_root_dominates(total as int, n as int, magnitude(sz as int));
            lemma_root_dominates(total as int, n as int, magnitude(sw as int));
            assert(0x8000_0000int * 0x8000_0000int == 0x4000_0000_0000_0000int)
                by (nonlinear_arith);
            lemma_square_floor(sx as int);
            lemma_square_floor(sy as int);
            lemma_square_floor(sz as int);
            lemma_square_floor(sw as int);
            lemma_root_dominates(total as int, n as int, 0x8000_0000);
            lemma_root_dominates(
                0x4000_0000_0000_0000_0000_0000_0000_0000,
                0x8000_0000_0000_0000,
                n as int,
            );
        }
        let rx: i64 = unit_component_of(sx, n);
        let ry: i64 = unit_component_of(sy, n);
        let rz: i64 = unit_component_of(sz, n);
        let rw: i64 = unit_component_of(sw, n);
        proof {
            let s = SCALE as int;
            lemma_round_div_nat_error(magnitude(sx as int) * s, n as int);
            lemma_round_div_nat_error(magnitude(sy as int) * s, n as int);
            lemma_round_div_nat_error(magnitude(sz as int) * s, n as int);
            lemma_round_div_nat_error(magnitude(sw as int) * s, n as int);
            lemma_rounded_length(
                s,
                n as int,
                magnitude(sx as int),
                magnitude(sy as int),
                magnitude(sz as int),
                magnitude(sw as int),
                magnitude(rx as int),
                magnitude(ry as int),
                magnitude(rz as int),
                magnitude(rw as int),
            );
            lemma_square_of_magnitude(rx as int);
            lemma_square_of_magnitude(ry as int);
            lemma_square_of_magnitude(rz as int);
            lemma_square_of_magnitude(rw as int);
        }
        Quat {
            x: Fixed { raw: rx },
            y: Fixed { raw: ry },
            z: Fixed { raw: rz },
            w: Fixed { raw: rw },
        }
    }
}

/// The length of a unit quaternion is within four billionths of one, far
/// inside a millionth.
pub proof fn lemma_unit_length(q: Quat)
    requires
        q.is_unit(),
    ensures
        (SCALE - 4) * (SCALE - 4) <= q.norm_sq() <= (SCALE + 4) * (SCALE + 4),
        (SCALE - 1000) * (SCALE - 1000) <= q.norm_sq() <= (SCALE + 1000) * (SCALE + 1000),
{
    assert(SCALE * SCALE == 1_000_000_000_000_000_000int) by (nonlinear_arith)
        requires
            SCALE == 1_000_000_000,
    ;
    assert((SCALE - 4) * (SCALE - 4) == 999_999_992_000_000_016int) by (nonlinear_arith)
        requires
            SCALE == 1_000_000_000,
    ;
    assert((SCALE + 4) * (SCALE + 4) == 1_000_000_008_000_000_016int) by (nonlinear_arith)
        requires
            SCALE == 1_000_000_000,
    ;
    assert((SCALE - 1000) * (SCALE - 1000) == 999_998_000_001_000_000int) by (nonlinear_arith)
        requires
            SCALE == 1_000_000_000,
    ;
    assert((SCALE + 1000) * (SCALE + 1000) == 1_000_002_000_001_000_000int) by (nonlinear_arith)
        requires
            SCALE == 1_000_000_000,
    ;
}

/// Every number that is not negative has an integer square root.
pub proof fn lemma_root_exists(n: int)
    requires
        0 <= n,
    ensures
        is_root(n, isqrt(n)),
    decreases n,
{
    if n == 0 {
        assert(is_root(0, 0));
    } else {
        lemma_root_exists(n - 1);
        let r = isqrt(n - 1);
        assert((r + 2) * (r + 2) > (r + 1) * (r + 1)) by (nonlinear_arith)
            requires
                0 <= r,
        ;
        if n < (r + 1) * (r + 1) {
            assert(is_root(n, r));
        } else {
            assert(is_root(n, r + 1));
        }
    }
}

/// Whether no component of `a` is further than four billionths from that
/// component of `b`.
pub open spec fn spec_near(a: Quat, b: Quat) -> bool {
    &&& -4 <= a.x.raw - b.x.raw <= 4
    &&& -4 <= a.y.raw - b.y.raw <= 4
    &&& -4 <= a.z.raw - b.z.raw <= 4
    &&& -4 <= a.w.raw - b.w.raw <= 4
}

/// A magnitude `a` of a component of a unit quaternion, spread by `2^31`,
/// multiplied by `SCALE` and divided by the integer length `n` of the spread
/// quaternion, comes back within four of itself.
proof fn lemma_component_stays(a: int, n: int, rho: int)
    requires
        0 <= a <= 1_000_000_004,
        2_147_483_639_410_065_408 <= n <= 2_147_483_656_589_934_592,
        0 <= rho,
        -n <= 2 * (rho * n - a * 2_147_483_648_000_000_000) <= n,
    ensures
        a - 4 <= rho <= a + 4,
{
    if rho >= a + 5 {
        assert(rho * n >= (a + 5) * n) by (nonlinear_arith)
            requires
                rho >= a + 5,
                0 < n,
        ;
        assert(2 * ((a + 5) * n) - n == (2 * a + 9) * n) by (nonlinear_arith);
        assert((2 * a + 9) * n >= (2 * a + 9) * 2_147_483_639_410_065_408) by (nonlinear_arith)
            requires
                0 <= a,
                2_147_483_639_410_065_408 <= n,
        ;
    }
    if rho <= a - 5 {
        assert(rho * n <= (a - 5) * n) by (nonlinear_arith)
            requires
                rho <= a - 5,
                0 < n,
        ;
        assert(2 * ((a - 5) * n) + n == (2 * a - 9) * n) by (nonlinear_arith);
        assert((2 * a - 9) * n <= (2 * a - 9) * 2_147_483_656_589_934_592) by (nonlinear_arith)
            requires
                5 <= a,
                n <= 2_147_483_656_589_934_592,
        ;
    }
}

/// A component of a quaternion whose squared length is at most that of
/// `1_000_000_004` has at most that magnitude.
proof fn lemma_component_bound(c: int, rest: int)
    requires
        0 <= rest,
        c * c + rest <= 1_000_000_004 * 1_000_000_004,
    ensures
        magnitude(c) <= 1_000_000_004,
{
    if magnitude(c) > 1_000_000_004 {
        assert(c * c > 1_000_000_004 * 1_000_000_004) by (nonlinear_arith)
            requires
                c >= 1_000_000_005 || c <= -1_000_000_005,
        ;
    }
}

/// The square of a component spread by `2^31`.
proof fn lemma_spread_square(c: int)
    ensures
        (c * 0x8000_0000) * (c * 0x8000_0000) == 0x4000_0000_0000_0000 * (c * c),
{
    assert((c * 0x8000_0000) * (c * 0x8000_0000) == 0x4000_0000_0000_0000 * (c * c))
        by (nonlinear_arith);
}

/// One component of the normalized quaternion against the component `c` it
/// came from.
proof fn lemma_unit_component_stays(c: int, n: int)
    requires
        magnitude(c) <= 1_000_000_004,
        2_147_483_639_410_065_408 <= n <= 2_147_483_656_589_934_592,
    ensures
        -4 <= unit_component(c * 0x8000_0000, n) - c <= 4,
        i64::MIN <= unit_component(c * 0x8000_0000, n) <= i64::MAX,
{
    let a = magnitude(c);
    let rho = round_div_nat(a * 0x8000_0000 * SCALE, n);
    lemma_round_div_nat_error(a * 0x8000_0000 * SCALE, n);
    assert(a * 0x8000_0000 * SCALE == a * 2_147_483_648_000_000_000);
    lemma_component_stays(a, n, rho);
    if c >= 0 {
        assert(c * 0x8000_0000 * SCALE >= 0);
    } else {
        assert(-(c * 0x8000_0000 * SCALE) == a * 0x8000_0000 * SCALE);
    }
}

/// Normalizing again moves little. A unit quaternion that is normalized
/// once more keeps every component within four billionths.
pub proof fn lemma_normalize_moves_little(q: Quat)
    requires
        q.is_unit(),
    ensures
        spec_near(q.spec_normalize(), q),
{
    lemma_unit_length(q);
    let x = q.x.raw as int;
    let y = q.y.raw as int;
    let z = q.z.raw as int;
    let w = q.w.raw as int;
    let total = q.norm_sq();
    assert((SCALE + 4) * (SCALE + 4) == 1_000_000_004int * 1_000_000_004int) by (nonlinear_arith)
        requires
            SCALE == 1_000_000_000,
    ;
    assert((SCALE - 4) * (SCALE - 4) == 999_999_996int * 999_999_996int) by (nonlinear_arith)
        requires
            SCALE == 1_000_000_000,
    ;
    assert(x * x >= 0 && y * y >= 0 && z * z >= 0 && w * w >= 0) by (nonlinear_arith);
    lemma_component_bound(x, y * y + z * z + w * w);
    lemma_component_bound(y, x * x + z * z + w * w);
    lemma_component_bound(z, x * x + y * y + w * w);
    lemma_component_bound(w, x * x + y * y + z * z);
    let m = q.largest();
    assert(m <= 1_000_000_004);
    if m == 0 {
        assert(x == 0 && y == 0 && z == 0 && w == 0);
        assert(total == 0) by (nonlinear_arith)
            requires
                total == x * x + y * y + z * z + w * w,
                x == 0 && y == 0 && z == 0 && w == 0,
        ;
        assert(999_999_996int * 999_999_996int > 0) by (nonlinear_arith);
    }
    let spread_total = q.spread_norm_sq();
    lemma_spread_square(x);
    lemma_spread_square(y);
    lemma_spread_square(z);
    lemma_spread_square(w);
    assert(spread_total == 0x4000_0000_0000_0000 * total);
    lemma_root_exists(spread_total);
    let n = isqrt(spread_total);
    let low = 2_147_483_639_410_065_408int;
    let high = 2_147_483_656_589_934_592int;
    assert(low * low == 0x4000_0000_0000_0000 * (999_999_996int * 999_999_996int))
        by (nonlinear_arith)
        requires
            low == 0x8000_0000 * 999_999_996int,
    ;
    lemma_root_dominates(spread_total, n, low);
    assert(high * high == 0x4000_0000_0000_0000 * (1_000_000_004int * 1_000_000_004int))
        by (nonlinear_arith)
        requires
            high == 0x8000_0000 * 1_000_000_004int,
    ;
    if n > high {
        assert(n * n > high * high) by (nonlinear_arith)
            requires
                n > high,
                high > 0,
        ;
    }
    lemma_unit_component_stays(x, n);
    lemma_unit_component_stays(y, n);
    lemma_unit_component_stays(z, n);
    lemma_unit_component_stays(w, n);
}

} // verus!
