//! Fixed-point numbers with nine decimal places.
//!
//! A [`Fixed`] stores the integer `raw`; the number it stands for is
//! `raw / SCALE`. Every operation is total except division by zero: sums
//! and products that leave the range of `i64` stop at its ends, and products
//! and quotients are rounded to the nearest representable number, ties away
//! from zero. Where a result must not vanish, as the length of a time step
//! or an inverse mass, [`Fixed::mul_kept`] and [`Fixed::div_kept`] round as
//! the others do but never to zero. The contracts state each result over
//! mathematical integers.

use vstd::prelude::*;
use vstd::arithmetic::div_mod::lemma_fundamental_div_mod_converse;

verus! {

/// The raw value of the number one.
pub const SCALE: i64 = 1_000_000_000;

/// `x` moved to the nearest end of the range of `i64` when it lies outside.
pub open spec fn clamp(x: int) -> int {
    if x < i64::MIN {
        i64::MIN as int
    } else if x > i64::MAX {
        i64::MAX as int
    } else {
        x
    }
}

/// The quotient `a / b` of a non-negative `a` by a positive `b`, rounded to
/// the nearest integer with ties rounded up.
pub open spec fn round_div_nat(a: int, b: int) -> int {
    (2 * a + b) / (2 * b)
}

/// The quotient `a / b` by a positive `b`, rounded to the nearest integer
/// with ties rounded away from zero.
pub open spec fn round_div_pos(a: int, b: int) -> int {
    if a >= 0 {
        round_div_nat(a, b)
    } else {
        -round_div_nat(-a, b)
    }
}

/// The quotient `a / b` for `b != 0`, rounded to the nearest integer with
/// ties rounded away from zero.
pub open spec fn round_div(a: int, b: int) -> int {
    if b > 0 {
        round_div_pos(a, b)
    } else {
        round_div_pos(-a, -b)
    }
}

/// The rounded quotient lies within half a divisor of the exact one:
/// `|2 * (q * b - a)| <= b`.
pub proof fn lemma_round_div_nat_error(a: int, b: int)
    requires
        0 <= a,
        0 < b,
    ensures
        0 <= round_div_nat(a, b),
        -b <= 2 * (round_div_nat(a, b) * b - a),
        2 * (round_div_nat(a, b) * b - a) <= b,
{
    let q = round_div_nat(a, b);
    let r = (2 * a + b) % (2 * b);
    vstd::arithmetic::div_mod::lemma_fundamental_div_mod(2 * a + b, 2 * b);
    vstd::arithmetic::div_mod::lemma_mod_bound(2 * a + b, 2 * b);
    assert(2 * a + b == (2 * b) * q + r);
    assert((2 * b) * q == 2 * (q * b)) by (nonlinear_arith);
    assert(q >= 0) by (nonlinear_arith)
        requires
            2 * a + b == (2 * b) * q + r,
            0 <= r < 2 * b,
            0 <= a,
            0 < b,
    ;
}

/// A quotient that divides exactly is not changed by rounding.
pub proof fn lemma_round_div_exact(q: int, b: int)
    requires
        b != 0,
    ensures
        round_div(q * b, b) == q,
{
    let d = if b > 0 { b } else { -b };
    let m = if q >= 0 { q } else { -q };
    assert(2 * (m * d) + d == m * (2 * d) + d) by (nonlinear_arith);
    lemma_fundamental_div_mod_converse(2 * (m * d) + d, 2 * d, m, d);
    assert(round_div_nat(m * d, d) == m);
    assert(q * b == m * d || q * b == -(m * d)) by (nonlinear_arith)
        requires
            d == b || d == -b,
            m == q || m == -q,
    ;
    assert(q * b >= 0 <==> (q == 0 || (q > 0) == (b > 0))) by (nonlinear_arith)
        requires
            b != 0,
    ;
    assert(m * d == 0 <==> m == 0) by (nonlinear_arith)
        requires
            d > 0,
            m >= 0,
    ;
}

/// The rounded quotient by a positive divisor lies within half a divisor of
/// the exact one: `|2 * (q * b - a)| <= b`.
pub proof fn lemma_round_div_error(a: int, b: int)
    requires
        0 < b,
    ensures
        -b <= 2 * (round_div(a, b) * b - a) <= b,
{
    if a >= 0 {
        lemma_round_div_nat_error(a, b);
    } else {
        lemma_round_div_nat_error(-a, b);
        let q = round_div_nat(-a, b);
        assert((-q) * b == -(q * b)) by (nonlinear_arith);
    }
}

/// Zero divided by anything but zero is zero.
pub proof fn lemma_round_div_zero(b: int)
    requires
        b != 0,
    ensures
        round_div(0, b) == 0,
{
    lemma_round_div_exact(0, b);
    assert(0 * b == 0) by (nonlinear_arith);
}

/// `rounded`, or where that is zero the smallest number of the sign of
/// `exact`: what keeps a result that is not zero from being rounded to zero.
pub open spec fn keep_sign(rounded: int, exact: int) -> int {
    if rounded != 0 {
        rounded
    } else if exact > 0 {
        1
    } else if exact < 0 {
        -1
    } else {
        0
    }
}

/// Whether `a * b` is positive, said without the product.
pub open spec fn same_sign(a: int, b: int) -> bool {
    (a > 0 && b > 0) || (a < 0 && b < 0)
}

/// Whether `a * b` is negative, said without the product.
pub open spec fn opposite_sign(a: int, b: int) -> bool {
    (a > 0 && b < 0) || (a < 0 && b > 0)
}

/// The sign of a product is that of its factors.
pub proof fn lemma_product_sign(a: int, b: int)
    ensures
        a * b > 0 <==> same_sign(a, b),
        a * b < 0 <==> opposite_sign(a, b),
{
    assert(a * b > 0 <==> same_sign(a, b)) by (nonlinear_arith);
    assert(a * b < 0 <==> opposite_sign(a, b)) by (nonlinear_arith);
}

/// Rounding a quotient by a positive divisor never changes its sign to the
/// opposite one.
pub proof fn lemma_round_div_sign(a: int, b: int)
    requires
        0 < b,
    ensures
        a >= 0 ==> round_div(a, b) >= 0,
        a <= 0 ==> round_div(a, b) <= 0,
{
    if a >= 0 {
        lemma_round_div_nat_error(a, b);
    }
    if a <= 0 {
        lemma_round_div_nat_error(-a, b);
    }
    if a == 0 {
        lemma_round_div_zero(b);
    }
}

/// A fixed-point number: `raw` counts billionths.
#[derive(Clone, Copy, Debug, PartialEq, Eq, Structural)]
pub struct Fixed {
    pub raw: i64,
}

/// `a / b` rounded to nearest, ties away from zero, on machine integers.
pub(crate) fn round_quot(a: i128, b: i128) -> (q: i128)
    requires
        b > 0,
        a > i128::MIN,
    ensures
        q == round_div(a as int, b as int),
{
    let m: i128 = if a >= 0 { a } else { -a };
    let t: i128 = m / b;
    let r: i128 = m % b;
    let up: bool = r >= b - r;
    proof {
        let ai = m as int;
        let bi = b as int;
        vstd::arithmetic::div_mod::lemma_fundamental_div_mod(ai, bi);
        vstd::arithmetic::div_mod::lemma_mod_bound(ai, bi);
        vstd::arithmetic::div_mod::lemma_div_pos_is_pos(ai, bi);
        let ti = ai / bi;
        let ri = ai % bi;
        assert(ai == bi * ti + ri);
        if up {
            assert(2 * ai + bi == (ti + 1) * (2 * bi) + (2 * ri - bi)) by (nonlinear_arith)
                requires
                    ai == bi * ti + ri,
            ;
            lemma_fundamental_div_mod_converse(2 * ai + bi, 2 * bi, ti + 1, 2 * ri - bi);
            assert(ti + 1 <= ai) by (nonlinear_arith)
                requires
                    ai == bi * ti + ri,
                    2 * ri >= bi,
                    ri < bi,
                    bi > 0,
                    ti >= 0,
            ;
        } else {
            assert(2 * ai + bi == ti * (2 * bi) + (2 * ri + bi)) by (nonlinear_arith)
                requires
                    ai == bi * ti + ri,
            ;
            lemma_fundamental_div_mod_converse(2 * ai + bi, 2 * bi, ti, 2 * ri + bi);
        }
    }
    let n: i128 = if up { t + 1 } else { t };
    if a >= 0 {
        n
    } else {
        -n
    }
}

/// `x` brought into the range of `i64`.
pub(crate) fn saturate(x: i128) -> (r: i64)
    ensures
        r == clamp(x as int),
{
    if x < i64::MIN as i128 {
        i64::MIN
    } else if x > i64::MAX as i128 {
        i64::MAX
    } else {
        x as i64
    }
}

impl Fixed {
    /// The sum, stopped at the ends of the range.
    pub open spec fn spec_add(self, other: Fixed) -> Fixed {
        Fixed { raw: clamp(self.raw + other.raw) as i64 }
    }

    /// The difference, stopped at the ends of the range.
    pub open spec fn spec_sub(self, other: Fixed) -> Fixed {
        Fixed { raw: clamp(self.raw - other.raw) as i64 }
    }

    /// The negation; the least number negates to the greatest.
    pub open spec fn spec_neg(self) -> Fixed {
        Fixed { raw: clamp(-self.raw) as i64 }
    }

    /// The rounded product, stopped at the ends of the range.
    pub open spec fn spec_mul(self, other: Fixed) -> Fixed {
        Fixed { raw: clamp(round_div(self.raw * other.raw, SCALE as int)) as i64 }
    }

    /// The rounded quotient by a non-zero number, stopped at the ends of the
    /// range.
    pub open spec fn spec_div(self, other: Fixed) -> Fixed {
        Fixed { raw: clamp(round_div(self.raw * SCALE, other.raw as int)) as i64 }
    }

    /// The product as [`Fixed::spec_mul`] gives it, except that a product
    /// of two non-zero numbers is never rounded to zero: it is one billionth
    /// at least, with its sign.
    pub open spec fn spec_mul_kept(self, other: Fixed) -> Fixed {
        Fixed { raw: keep_sign(self.spec_mul(other).raw as int, self.raw * other.raw) as i64 }
    }

    /// The quotient as [`Fixed::spec_div`] gives it, except that the
    /// quotient of a non-zero number is never rounded to zero: it is one
    /// billionth at least, with its sign.
    pub open spec fn spec_div_kept(self, other: Fixed) -> Fixed {
        Fixed { raw: keep_sign(self.spec_div(other).raw as int, self.raw * other.raw) as i64 }
    }

    /// The whole number `n`, stopped at the ends of the range.
    pub open spec fn spec_from_int(n: int) -> Fixed {
        Fixed { raw: clamp(n * SCALE) as i64 }
    }

    /// The number with the given raw value.
    pub fn from_raw(raw: i64) -> (r: Fixed)
        ensures
            r.raw == raw,
    {
        Fixed { raw }
    }

    /// Zero.
    pub fn zero() -> (r: Fixed)
        ensures
            r.raw == 0,
    {
        Fixed { raw: 0 }
    }

    /// One.
    pub fn one() -> (r: Fixed)
        ensures
            r.raw == SCALE,
    {
        Fixed { raw: SCALE }
    }

    /// One half.
    pub fn half() -> (r: Fixed)
        ensures
            r.raw == SCALE / 2,
    {
        Fixed { raw: SCALE / 2 }
    }

    /// The whole number `n`, stopped at the ends of the range.
    pub fn from_int(n: i64) -> (r: Fixed)
        ensures
            r == Fixed::spec_from_int(n as int),
    {
        let wide: i128 = n as i128;
        let scale: i128 = SCALE as i128;
        assert(scale == 1_000_000_000);
        Fixed { raw: saturate(wide * scale) }
    }

    /// The whole number `n`, stopped at the upper end of the range.
    pub fn from_count(n: usize) -> (r: Fixed)
        ensures
            r == Fixed::spec_from_int(n as int),
    {
        let wide: i128 = n as u64 as i128;
        let scale: i128 = SCALE as i128;
        assert(scale == 1_000_000_000);
        Fixed { raw: saturate(wide * scale) }
    }

    /// `self + other`.
    pub fn add(self, other: Fixed) -> (r: Fixed)
        ensures
            r == self.spec_add(other),
    {
        Fixed { raw: saturate(self.raw as i128 + other.raw as i128) }
    }

    /// `self - other`.
    pub fn sub(self, other: Fixed) -> (r: Fixed)
        ensures
            r == self.spec_sub(other),
    {
        Fixed { raw: saturate(self.raw as i128 - other.raw as i128) }
    }

    /// `-self`.
    pub fn neg(self) -> (r: Fixed)
        ensures
            r == self.spec_neg(),
    {
        Fixed { raw: saturate(-(self.raw as i128)) }
    }

    /// `self * other`.
    pub fn mul(self, other: Fixed) -> (r: Fixed)
        ensures
            r == self.spec_mul(other),
    {
        let a: i128 = self.raw as i128;
        let b: i128 = other.raw as i128;
        proof {
            lemma_product_range(a as int, b as int);
        }
        let p: i128 = a * b;
        Fixed { raw: saturate(round_quot(p, SCALE as i128)) }
    }

    /// `self / other`.
    pub fn div(self, other: Fixed) -> (r: Fixed)
        requires
            other.raw != 0,
        ensures
            r == self.spec_div(other),
    {
        let scale: i128 = SCALE as i128;
        assert(scale == 1_000_000_000);
        let a: i128 = self.raw as i128 * scale;
        let b: i128 = other.raw as i128;
        if b > 0 {
            Fixed { raw: saturate(round_quot(a, b)) }
        } else {
            Fixed { raw: saturate(round_quot(-a, -b)) }
        }
    }

    /// `self * other`, never rounded to zero unless a factor is zero.
    pub fn mul_kept(self, other: Fixed) -> (r: Fixed)
        ensures
            r == self.spec_mul_kept(other),
            r.raw > 0 <==> same_sign(self.raw as int, other.raw as int),
            r.raw < 0 <==> opposite_sign(self.raw as int, other.raw as int),
    {
        proof {
            lemma_mul_kept_sign(self, other);
        }
        let rounded = self.mul(other);
        if rounded.raw != 0 {
            rounded
        } else {
            proof {
                lemma_product_sign(self.raw as int, other.raw as int);
            }
            smallest_of_sign(self.raw, other.raw)
        }
    }

    /// `self / other`, never rounded to zero unless `self` is zero.
    pub fn div_kept(self, other: Fixed) -> (r: Fixed)
        requires
            other.raw != 0,
        ensures
            r == self.spec_div_kept(other),
            r.raw > 0 <==> same_sign(self.raw as int, other.raw as int),
            r.raw < 0 <==> opposite_sign(self.raw as int, other.raw as int),
    {
        proof {
            lemma_div_kept_sign(self, other);
        }
        let rounded = self.div(other);
        if rounded.raw != 0 {
            rounded
        } else {
            proof {
                lemma_product_sign(self.raw as int, other.raw as int);
            }
            smallest_of_sign(self.raw, other.raw)
        }
    }

    /// Whether the number is zero.
    pub fn is_zero(self) -> (r: bool)
        ensures
            r == (self.raw == 0),
    {
        self.raw == 0
    }

    /// Whether the number is greater than zero.
    pub fn is_positive(self) -> (r: bool)
        ensures
            r == (self.raw > 0),
    {
        self.raw > 0
    }

    /// Whether the number is less than zero.
    pub fn is_negative(self) -> (r: bool)
        ensures
            r == (self.raw < 0),
    {
        self.raw < 0
    }
}

/// The product of two 64-bit integers has at most 126 bits.
pub proof fn lemma_product_range(a: int, b: int)
    requires
        i64::MIN <= a <= i64::MAX,
        i64::MIN <= b <= i64::MAX,
    ensures
        -0x4000_0000_0000_0000_0000_0000_0000_0000 <= a * b
            <= 0x4000_0000_0000_0000_0000_0000_0000_0000,
{
    assert(-0x4000_0000_0000_0000_0000_0000_0000_0000 <= a * b
        <= 0x4000_0000_0000_0000_0000_0000_0000_0000) by (nonlinear_arith)
        requires
            -0x8000_0000_0000_0000 <= a <= 0x8000_0000_0000_0000,
            -0x8000_0000_0000_0000 <= b <= 0x8000_0000_0000_0000,
    ;
}

/// Multiplying by one changes nothing.
pub proof fn lemma_mul_one(x: Fixed)
    ensures
        x.spec_mul(Fixed { raw: SCALE }) == x,
        (Fixed { raw: SCALE }).spec_mul(x) == x,
{
    lemma_round_div_exact(x.raw as int, SCALE as int);
    assert(SCALE * x.raw == x.raw * SCALE) by (nonlinear_arith);
}

/// A product with a factor of zero is zero.
pub proof fn lemma_mul_zero(x: Fixed)
    ensures
        x.spec_mul(Fixed { raw: 0 }) == (Fixed { raw: 0 }),
        (Fixed { raw: 0 }).spec_mul(x) == (Fixed { raw: 0 }),
{
    lemma_round_div_zero(SCALE as int);
    assert(x.raw * 0 == 0) by (nonlinear_arith);
    assert(0 * x.raw == 0) by (nonlinear_arith);
}

/// One billionth with the sign of `a * b`, or zero where that is zero.
fn smallest_of_sign(a: i64, b: i64) -> (r: Fixed)
    ensures
        r.raw == if same_sign(a as int, b as int) {
            1int
        } else if opposite_sign(a as int, b as int) {
            -1int
        } else {
            0int
        },
{
    if a == 0 || b == 0 {
        Fixed { raw: 0 }
    } else if (a > 0) == (b > 0) {
        Fixed { raw: 1 }
    } else {
        Fixed { raw: -1 }
    }
}

/// A product that is kept from zero has the sign of its factors.
pub proof fn lemma_mul_kept_sign(a: Fixed, b: Fixed)
    ensures
        a.spec_mul_kept(b).raw > 0 <==> same_sign(a.raw as int, b.raw as int),
        a.spec_mul_kept(b).raw < 0 <==> opposite_sign(a.raw as int, b.raw as int),
{
    lemma_product_sign(a.raw as int, b.raw as int);
    lemma_round_div_sign(a.raw * b.raw, SCALE as int);
}

/// A quotient that is kept from zero has the sign of its terms.
pub proof fn lemma_div_kept_sign(a: Fixed, b: Fixed)
    requires
        b.raw != 0,
    ensures
        a.spec_div_kept(b).raw > 0 <==> same_sign(a.raw as int, b.raw as int),
        a.spec_div_kept(b).raw < 0 <==> opposite_sign(a.raw as int, b.raw as int),
{
    lemma_product_sign(a.raw as int, b.raw as int);
    if b.raw > 0 {
        lemma_round_div_sign(a.raw * SCALE, b.raw as int);
    } else {
        lemma_round_div_sign(-(a.raw * SCALE), -(b.raw as int));
    }
}

/// A product never has the sign opposite to the one its factors give it.
pub proof fn lemma_mul_sign(a: Fixed, b: Fixed)
    ensures
        (a.raw >= 0 && b.raw >= 0) || (a.raw <= 0 && b.raw <= 0) ==> a.spec_mul(b).raw >= 0,
        (a.raw >= 0 && b.raw <= 0) || (a.raw <= 0 && b.raw >= 0) ==> a.spec_mul(b).raw <= 0,
{
    let p = a.raw * b.raw;
    assert((a.raw >= 0 && b.raw >= 0) || (a.raw <= 0 && b.raw <= 0) ==> p >= 0)
        by (nonlinear_arith)
        requires
            p == a.raw * b.raw,
    ;
    assert((a.raw >= 0 && b.raw <= 0) || (a.raw <= 0 && b.raw >= 0) ==> p <= 0)
        by (nonlinear_arith)
        requires
            p == a.raw * b.raw,
    ;
    lemma_round_div_sign(p, SCALE as int);
}

} // verus!
