//! The accumulator of corrective impulses.
//!
//! A body touched by several contacts in one substep is moved by the mean of
//! their impulses, not by the sum: a deep stack of bodies is then corrected
//! too little rather than too much. The accumulator keeps the exact sum of
//! what was pushed and the number of pushes, and hands out the mean.

use vstd::prelude::*;
use crate::fixed::{
    clamp, lemma_round_div_error, lemma_round_div_exact, round_div, round_quot, saturate, Fixed,
};
use crate::vector::Vec3;

verus! {

/// The greatest sum an accumulator holds; the least is its negation.
pub const SUM_MAX: i128 = i128::MAX;

/// `x` moved to the nearest end of the range of sums when it lies outside.
pub open spec fn clamp_sum(x: int) -> int {
    if x < -SUM_MAX {
        -SUM_MAX as int
    } else if x > SUM_MAX {
        SUM_MAX as int
    } else {
        x
    }
}

/// The sum `sum` of `count > 0` numbers divided by `count`, rounded, and
/// brought into the range of a fixed-point number.
pub open spec fn mean_component(sum: int, count: int) -> int {
    clamp(round_div(clamp_sum(sum), count))
}

/// [`mean_component`] on machine integers.
fn mean_of(sum: i128, count: i128) -> (r: i64)
    requires
        count > 0,
    ensures
        r == mean_component(sum as int, count as int),
{
    let bounded: i128 = if sum < -i128::MAX {
        -i128::MAX
    } else {
        sum
    };
    saturate(round_quot(bounded, count))
}

/// A sum of vectors, kept component by component as raw integers, and the
/// number of vectors in it.
#[derive(Clone, Copy, Debug, PartialEq, Eq, Structural)]
pub struct Accumulator {
    pub x: i128,
    pub y: i128,
    pub z: i128,
    pub count: usize,
}

/// `sum + term`, stopped at the ends of the range of sums.
fn extend_sum(sum: i128, term: i64) -> (r: i128)
    ensures
        r == clamp_sum(sum + term),
{
    let wide: i128 = term as i128;
    if wide >= 0 {
        if sum > i128::MAX - wide {
            i128::MAX
        } else if sum + wide < -i128::MAX {
            -i128::MAX
        } else {
            sum + wide
        }
    } else {
        if sum < -i128::MAX - wide {
            -i128::MAX
        } else {
            sum + wide
        }
    }
}

impl Accumulator {
    /// The accumulator that holds nothing.
    pub open spec fn spec_empty() -> Accumulator {
        Accumulator { x: 0, y: 0, z: 0, count: 0 }
    }

    /// The accumulator after `impulse` was added. The sums stop at the ends
    /// of their range and the count at `usize::MAX`; neither is reached by
    /// fewer than `usize::MAX` pushes.
    pub open spec fn spec_push(self, impulse: Vec3) -> Accumulator {
        Accumulator {
            x: clamp_sum(self.x + impulse.x.raw) as i128,
            y: clamp_sum(self.y + impulse.y.raw) as i128,
            z: clamp_sum(self.z + impulse.z.raw) as i128,
            count: if self.count < usize::MAX {
                (self.count + 1) as usize
            } else {
                self.count
            },
        }
    }

    /// The mean of what was pushed, for a count above zero: each sum divided
    /// by the count and rounded.
    pub open spec fn spec_mean(self) -> Vec3 {
        Vec3 {
            x: Fixed { raw: mean_component(self.x as int, self.count as int) as i64 },
            y: Fixed { raw: mean_component(self.y as int, self.count as int) as i64 },
            z: Fixed { raw: mean_component(self.z as int, self.count as int) as i64 },
        }
    }

    /// Whether two more pushes reach neither the end of the range of sums
    /// nor that of the count.
    pub open spec fn spec_roomy(self) -> bool {
        &&& self.count + 2 <= usize::MAX
        &&& -SUM_MAX + 0x1_0000_0000_0000_0000 <= self.x <= SUM_MAX - 0x1_0000_0000_0000_0000
        &&& -SUM_MAX + 0x1_0000_0000_0000_0000 <= self.y <= SUM_MAX - 0x1_0000_0000_0000_0000
        &&& -SUM_MAX + 0x1_0000_0000_0000_0000 <= self.z <= SUM_MAX - 0x1_0000_0000_0000_0000
    }

    /// Whether the sums are those of `count` vectors that lie, component by
    /// component, between `low` and `high`.
    pub open spec fn spec_bounded(self, low: Vec3, high: Vec3) -> bool {
        &&& self.count * low.x.raw <= self.x <= self.count * high.x.raw
        &&& self.count * low.y.raw <= self.y <= self.count * high.y.raw
        &&& self.count * low.z.raw <= self.z <= self.count * high.z.raw
    }

    /// The accumulator that holds nothing.
    pub fn new() -> (r: Accumulator)
        ensures
            r == Accumulator::spec_empty(),
    {
        Accumulator { x: 0, y: 0, z: 0, count: 0 }
    }

    /// Adds `impulse` to the sum and one to the count.
    pub fn push(&mut self, impulse: Vec3)
        ensures
            *final(self) == old(self).spec_push(impulse),
    {
        self.x = extend_sum(self.x, impulse.x.raw);
        self.y = extend_sum(self.y, impulse.y.raw);
        self.z = extend_sum(self.z, impulse.z.raw);
        if self.count < usize::MAX {
            self.count = self.count + 1;
        }
    }

    /// The mean of what was pushed; `None` when nothing was.
    pub fn mean(&self) -> (r: Option<Vec3>)
        ensures
            self.count == 0 ==> r.is_none(),
            self.count > 0 ==> r == Some(self.spec_mean()),
    {
        if self.count == 0 {
            None
        } else {
            let n: i128 = self.count as u64 as i128;
            Some(
                Vec3 {
                    x: Fixed { raw: mean_of(self.x, n) },
                    y: Fixed { raw: mean_of(self.y, n) },
                    z: Fixed { raw: mean_of(self.z, n) },
                },
            )
        }
    }
}

/// Pushing the same impulse `v` twice into an empty accumulator gives the
/// mean `v`, not `2 v`.
pub proof fn lemma_mean_of_two_equal(v: Vec3)
    ensures
        Accumulator::spec_empty().spec_push(v).spec_push(v).count == 2,
        Accumulator::spec_empty().spec_push(v).spec_push(v).spec_mean() == v,
{
    lemma_round_div_exact(v.x.raw as int, 2);
    lemma_round_div_exact(v.y.raw as int, 2);
    lemma_round_div_exact(v.z.raw as int, 2);
}

/// Two impulses give the same accumulator in either order.
pub proof fn lemma_push_commutes(a: Accumulator, u: Vec3, v: Vec3)
    requires
        a.spec_roomy(),
    ensures
        a.spec_push(u).spec_push(v) == a.spec_push(v).spec_push(u),
{
}

/// Impulses of zero leave the mean at zero, however many are pushed.
pub proof fn lemma_mean_of_zero_sum(a: Accumulator)
    requires
        a.x == 0,
        a.y == 0,
        a.z == 0,
        a.count > 0,
    ensures
        a.spec_mean() == Vec3::spec_zero(),
{
    lemma_round_div_exact(0, a.count as int);
    assert(0 * (a.count as int) == 0) by (nonlinear_arith);
}

/// Whether `v` lies, component by component, between `low` and `high`.
pub open spec fn spec_between(v: Vec3, low: Vec3, high: Vec3) -> bool {
    &&& low.x.raw <= v.x.raw <= high.x.raw
    &&& low.y.raw <= v.y.raw <= high.y.raw
    &&& low.z.raw <= v.z.raw <= high.z.raw
}

/// One sum of `count` numbers between `low` and `high`, and one more.
proof fn lemma_sum_keeps_bounds(sum: int, count: int, term: int, low: int, high: int)
    requires
        0 <= count < usize::MAX,
        i64::MIN <= low <= term <= high <= i64::MAX,
        count * low <= sum <= count * high,
    ensures
        (count + 1) * low <= clamp_sum(sum + term) <= (count + 1) * high,
{
    assert((count + 1) * low == count * low + low && (count + 1) * high == count * high + high)
        by (nonlinear_arith);
    assert(-SUM_MAX <= (count + 1) * low && (count + 1) * high <= SUM_MAX) by (nonlinear_arith)
        requires
            0 <= count + 1 <= 0xFFFF_FFFF_FFFF_FFFF,
            -0x8000_0000_0000_0000 <= low <= high <= 0x7FFF_FFFF_FFFF_FFFF,
            SUM_MAX == 0x7FFF_FFFF_FFFF_FFFF_FFFF_FFFF_FFFF_FFFF,
    ;
}

/// The mean of `count` numbers between `low` and `high` lies between them.
proof fn lemma_mean_keeps_bounds(sum: int, count: int, low: int, high: int)
    requires
        0 < count <= usize::MAX,
        i64::MIN <= low <= i64::MAX,
        i64::MIN <= high <= i64::MAX,
        count * low <= sum <= count * high,
    ensures
        low <= mean_component(sum, count) <= high,
{
    assert(-SUM_MAX <= count * low && count * high <= SUM_MAX) by (nonlinear_arith)
        requires
            0 < count <= 0xFFFF_FFFF_FFFF_FFFF,
            -0x8000_0000_0000_0000 <= low <= 0x7FFF_FFFF_FFFF_FFFF,
            -0x8000_0000_0000_0000 <= high <= 0x7FFF_FFFF_FFFF_FFFF,
            SUM_MAX == 0x7FFF_FFFF_FFFF_FFFF_FFFF_FFFF_FFFF_FFFF,
    ;
    let q = round_div(sum, count);
    lemma_round_div_error(sum, count);
    assert(q <= high) by (nonlinear_arith)
        requires
            2 * (q * count - sum) <= count,
            sum <= count * high,
            0 < count,
    ;
    assert(low <= q) by (nonlinear_arith)
        requires
            -count <= 2 * (q * count - sum),
            count * low <= sum,
            0 < count,
    ;
}

/// An accumulator of vectors between `low` and `high` stays one when another
/// such vector is pushed.
pub proof fn lemma_push_keeps_bounds(a: Accumulator, v: Vec3, low: Vec3, high: Vec3)
    requires
        a.spec_bounded(low, high),
        spec_between(v, low, high),
        a.count < usize::MAX,
    ensures
        a.spec_push(v).spec_bounded(low, high),
        a.spec_push(v).count == a.count + 1,
{
    let n = a.count as int;
    lemma_sum_keeps_bounds(a.x as int, n, v.x.raw as int, low.x.raw as int, high.x.raw as int);
    lemma_sum_keeps_bounds(a.y as int, n, v.y.raw as int, low.y.raw as int, high.y.raw as int);
    lemma_sum_keeps_bounds(a.z as int, n, v.z.raw as int, low.z.raw as int, high.z.raw as int);
}

/// No overshoot. The mean of impulses that lie, component by component,
/// between `low` and `high` lies between them too: a body is never corrected
/// by more than the strongest of its contacts asks for.
pub proof fn lemma_mean_within_bounds(a: Accumulator, low: Vec3, high: Vec3)
    requires
        a.count > 0,
        a.spec_bounded(low, high),
    ensures
        spec_between(a.spec_mean(), low, high),
{
    lemma_mean_keeps_bounds(a.x as int, a.count as int, low.x.raw as int, high.x.raw as int);
    lemma_mean_keeps_bounds(a.y as int, a.count as int, low.y.raw as int, high.y.raw as int);
    lemma_mean_keeps_bounds(a.z as int, a.count as int, low.z.raw as int, high.z.raw as int);
}

} // verus!
