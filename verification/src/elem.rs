//! The element trait: a bitwise-copyable numeric scalar with the arithmetic
//! the element-wise kernels need, each operation pinned by a spec function.

use vstd::prelude::*;
use vstd::arithmetic::div_mod::{
    lemma_div_pos_is_pos,
    lemma_div_nonincreasing,
    lemma_div_is_ordered_by_denominator,
};

verus! {

/// A tensor element: a copyable scalar with zero, one, and the four
/// arithmetic operations. Each operation carries a spec-level twin, and a
/// predicate saying on which operands it is defined.
pub trait Elem: Copy + Sized {
    spec fn zero_spec() -> Self;

    spec fn one_spec() -> Self;

    spec fn add_spec(self, rhs: Self) -> Self;

    spec fn sub_spec(self, rhs: Self) -> Self;

    spec fn mul_spec(self, rhs: Self) -> Self;

    spec fn div_spec(self, rhs: Self) -> Self;

    /// The operand pairs on which addition is defined (no overflow).
    spec fn add_ok(self, rhs: Self) -> bool;

    spec fn sub_ok(self, rhs: Self) -> bool;

    spec fn mul_ok(self, rhs: Self) -> bool;

    /// The operand pairs on which division is defined (divisor non-zero, no
    /// overflow).
    spec fn div_ok(self, rhs: Self) -> bool;

    fn zero() -> (r: Self)
        ensures
            r == Self::zero_spec(),
    ;

    fn one() -> (r: Self)
        ensures
            r == Self::one_spec(),
    ;

    fn add(self, rhs: Self) -> (r: Self)
        requires
            self.add_ok(rhs),
        ensures
            r == self.add_spec(rhs),
    ;

    fn sub(self, rhs: Self) -> (r: Self)
        requires
            self.sub_ok(rhs),
        ensures
            r == self.sub_spec(rhs),
    ;

    fn mul(self, rhs: Self) -> (r: Self)
        requires
            self.mul_ok(rhs),
        ensures
            r == self.mul_spec(rhs),
    ;

    fn div(self, rhs: Self) -> (r: Self)
        requires
            self.div_ok(rhs),
        ensures
            r == self.div_spec(rhs),
    ;
}

/// Truncating signed division stays inside a two's-complement range whenever
/// the divisor is non-zero and the pair is not the most negative value
/// divided by minus one.
proof fn lemma_trunc_div_bounds(x: int, d: int, min: int, max: int)
    requires
        min < 0,
        max == -min - 1,
        min <= x <= max,
        min <= d <= max,
        d != 0,
        !(x == min && d == -1),
    ensures
        ({
            let output = if x == 0 {
                0int
            } else if x > 0 && d > 0 {
                x / d
            } else if x < 0 && d < 0 {
                (x * -1) / (d * -1)
            } else if x < 0 {
                ((x * -1) / d) * -1
            } else {
                (x / (d * -1)) * -1
            };
            min <= output <= max
        }),
        ({
            let output = if x == 0 {
                0int
            } else if x > 0 && d > 0 {
                x / d
            } else if x < 0 && d < 0 {
                (x * -1) / (d * -1)
            } else if x < 0 {
                ((x * -1) / d) * -1
            } else {
                (x / (d * -1)) * -1
            };
            let q: int = vstd::math::abs(x) as int / vstd::math::abs(d) as int;
            output == if x * d >= 0 {
                q
            } else {
                -q
            }
        }),
{
    assert(x * d >= 0 <==> ((x >= 0 && d >= 0) || (x <= 0 && d <= 0))) by (nonlinear_arith)
        requires d != 0;
    if x == 0 {
        vstd::arithmetic::div_mod::lemma_div_of0(vstd::math::abs(d) as int);
    } else if x > 0 && d > 0 {
        lemma_div_pos_is_pos(x, d);
        lemma_div_nonincreasing(x, d);
    } else if x < 0 && d < 0 {
        let p = x * -1;
        let q = d * -1;
        lemma_div_pos_is_pos(p, q);
        if x == min {
            assert(q >= 2);
            lemma_div_is_ordered_by_denominator(p, 2, q);
            assert(p / 2 <= max);
        } else {
            lemma_div_nonincreasing(p, q);
        }
    } else if x < 0 {
        let p = x * -1;
        lemma_div_pos_is_pos(p, d);
        lemma_div_nonincreasing(p, d);
        assert(p / d <= p);
    } else {
        let q = d * -1;
        lemma_div_pos_is_pos(x, q);
        lemma_div_nonincreasing(x, q);
    }
}

impl Elem for i64 {
    open spec fn zero_spec() -> Self {
        0
    }

    open spec fn one_spec() -> Self {
        1
    }

    open spec fn add_spec(self, rhs: Self) -> Self {
        (self + rhs) as i64
    }

    open spec fn sub_spec(self, rhs: Self) -> Self {
        (self - rhs) as i64
    }

    open spec fn mul_spec(self, rhs: Self) -> Self {
        (self * rhs) as i64
    }

    open spec fn div_spec(self, rhs: Self) -> Self {
        let q: int = vstd::math::abs(self as int) as int / vstd::math::abs(rhs as int) as int;
        (if (self as int) * (rhs as int) >= 0 {
            q
        } else {
            -q
        }) as i64
    }

    open spec fn add_ok(self, rhs: Self) -> bool {
        i64::MIN <= self + rhs <= i64::MAX
    }

    open spec fn sub_ok(self, rhs: Self) -> bool {
        i64::MIN <= self - rhs <= i64::MAX
    }

    open spec fn mul_ok(self, rhs: Self) -> bool {
        i64::MIN <= self * rhs <= i64::MAX
    }

    open spec fn div_ok(self, rhs: Self) -> bool {
        rhs != 0 && !(self == i64::MIN && rhs == -1)
    }

    fn zero() -> (r: Self) {
        0
    }

    fn one() -> (r: Self) {
        1
    }

    fn add(self, rhs: Self) -> (r: Self) {
        self + rhs
    }

    fn sub(self, rhs: Self) -> (r: Self) {
        self - rhs
    }

    fn mul(self, rhs: Self) -> (r: Self) {
        self * rhs
    }

    fn div(self, rhs: Self) -> (r: Self) {
        proof {
            lemma_trunc_div_bounds(self as int, rhs as int, i64::MIN as int, i64::MAX as int);
        }
        match self.checked_div(rhs) {
            Some(v) => v,
            None => 0,
        }
    }
}

impl Elem for i32 {
    open spec fn zero_spec() -> Self {
        0
    }

    open spec fn one_spec() -> Self {
        1
    }

    open spec fn add_spec(self, rhs: Self) -> Self {
        (self + rhs) as i32
    }

    open spec fn sub_spec(self, rhs: Self) -> Self {
        (self - rhs) as i32
    }

    open spec fn mul_spec(self, rhs: Self) -> Self {
        (self * rhs) as i32
    }

    open spec fn div_spec(self, rhs: Self) -> Self {
        let q: int = vstd::math::abs(self as int) as int / vstd::math::abs(rhs as int) as int;
        (if (self as int) * (rhs as int) >= 0 {
            q
        } else {
            -q
        }) as i32
    }

    open spec fn add_ok(self, rhs: Self) -> bool {
        i32::MIN <= self + rhs <= i32::MAX
    }

    open spec fn sub_ok(self, rhs: Self) -> bool {
        i32::MIN <= self - rhs <= i32::MAX
    }

    open spec fn mul_ok(self, rhs: Self) -> bool {
        i32::MIN <= self * rhs <= i32::MAX
    }

    open spec fn div_ok(self, rhs: Self) -> bool {
        rhs != 0 && !(self == i32::MIN && rhs == -1)
    }

    fn zero() -> (r: Self) {
        0
    }

    fn one() -> (r: Self) {
        1
    }

    fn add(self, rhs: Self) -> (r: Self) {
        self + rhs
    }

    fn sub(self, rhs: Self) -> (r: Self) {
        self - rhs
    }

    fn mul(self, rhs: Self) -> (r: Self) {
        self * rhs
    }

    fn div(self, rhs: Self) -> (r: Self) {
        proof {
            lemma_trunc_div_bounds(self as int, rhs as int, i32::MIN as int, i32::MAX as int);
        }
        match self.checked_div(rhs) {
            Some(v) => v,
            None => 0,
        }
    }
}

} // verus!
