//! Fixed-point scalars: an `i64` holding a real number scaled by 2^16.
//!
//! All arithmetic saturates at the `i64` range and truncates quotients
//! toward zero, so every operation is total and has an exact
//! mathematical description, given by the `spec_*` functions below.

use vstd::prelude::*;

verus! {

use vstd::arithmetic::div_mod::lemma_div_nonincreasing;
use vstd::arithmetic::div_mod::lemma_div_decreases;
use vstd::arithmetic::div_mod::lemma_div_is_ordered;

/// Number of raw units per 1.0: the scale of the representation.
pub const SCALE: i64 = 65536;

/// Clamp an unbounded integer into the `i64` range.
pub open spec fn sat64(x: int) -> int {
    if x > i64::MAX {
        i64::MAX as int
    } else if x < i64::MIN {
        i64::MIN as int
    } else {
        x
    }
}

/// Absolute value on unbounded integers.
pub open spec fn abs_i(x: int) -> int {
    if x >= 0 {
        x
    } else {
        -x
    }
}

/// Division truncating toward zero, as Rust's `/` on machine integers
/// computes it (spec-level `/` alone is Euclidean).
pub open spec fn tdiv(a: int, b: int) -> int
    recommends
        b != 0,
{
    if (a >= 0) == (b >= 0) {
        abs_i(a) / abs_i(b)
    } else {
        -(abs_i(a) / abs_i(b))
    }
}

/// Largest square root of any fixed-point square: floor of the real
/// square root of n, defined by counting up from 0.
pub open spec fn sqrt_floor(n: nat) -> nat
    decreases n,
{
    if n == 0 {
        0
    } else {
        let r = sqrt_floor((n - 1) as nat);
        if (r + 1) * (r + 1) <= n {
            (r + 1) as nat
        } else {
            r
        }
    }
}

/// `sqrt_floor(n)` really is the floor of the square root of `n`.
pub proof fn lemma_sqrt_floor(n: nat)
    ensures
        sqrt_floor(n) * sqrt_floor(n) <= n,
        n < (sqrt_floor(n) + 1) * (sqrt_floor(n) + 1),
    decreases n,
{
    if n > 0 {
        let r = sqrt_floor((n - 1) as nat);
        lemma_sqrt_floor((n - 1) as nat);
        let s = sqrt_floor(n);
        if (r + 1) * (r + 1) <= n {
            assert(s == r + 1);
            assert(n <= (r + 1) * (r + 1));
            assert(n <= s * s);
            assert(n < (s + 1) * (s + 1)) by (nonlinear_arith)
                requires
                    n <= s * s,
                    s >= 0,
            ;
        } else {
            assert(s == r);
            assert(n < (s + 1) * (s + 1));
        }
    } else {
        let s = sqrt_floor(n);
        assert(s == 0);
        assert(n < (s + 1) * (s + 1)) by (nonlinear_arith)
            requires
                n == 0,
                s == 0,
        ;
    }
}

/// Any number bracketed by consecutive squares is the floor square root.
pub proof fn lemma_sqrt_floor_unique(n: nat, r: nat)
    requires
        r * r <= n,
        n < (r + 1) * (r + 1),
    ensures
        r == sqrt_floor(n),
{
    let s = sqrt_floor(n);
    lemma_sqrt_floor(n);
    if r < s {
        assert((r + 1) * (r + 1) <= s * s) by (nonlinear_arith)
            requires
                r < s,
            ;
    } else if s < r {
        assert((s + 1) * (s + 1) <= r * r) by (nonlinear_arith)
            requires
                s < r,
            ;
    }
}

/// Squaring is strictly monotone on nonnegative integers.
pub proof fn lemma_square_lt(x: int, b: int) by (nonlinear_arith)
    requires
        0 <= x,
        x < b,
    ensures
        x * x < b * b,
{
}

/// A product is bounded by the product of bounds on its factors.
pub proof fn lemma_mul_bounds(x: int, y: int, a: int, b: int) by (nonlinear_arith)
    requires
        -a <= x,
        x <= a,
        -b <= y,
        y <= b,
        0 <= a,
        0 <= b,
    ensures
        -(a * b) <= x * y,
        x * y <= a * b,
{
}

/// Scaling by 2^16 and truncating the quotient by 2^16 cancel.
pub proof fn lemma_tdiv_scale_cancel(a: int)
    ensures
        tdiv(a * 65536, 65536) == a,
{
    if a >= 0 {
        vstd::arithmetic::div_mod::lemma_div_by_multiple(a, 65536);
    } else {
        assert(abs_i(a * 65536) == (-a) * 65536);
        vstd::arithmetic::div_mod::lemma_div_by_multiple(-a, 65536);
    }
}

/// Between multiples of 2^16, strict order survives the division.
pub proof fn lemma_div_strict_of_multiples(a: int, b: int)
    requires
        0 <= a < b,
        a % 65536 == 0,
        b % 65536 == 0,
    ensures
        a / 65536 < b / 65536,
{
    vstd::arithmetic::div_mod::lemma_fundamental_div_mod(a, 65536);
    vstd::arithmetic::div_mod::lemma_fundamental_div_mod(b, 65536);
    if a / 65536 >= b / 65536 {
        vstd::arithmetic::mul::lemma_mul_inequality(b / 65536, a / 65536, 65536);
        vstd::arithmetic::mul::lemma_mul_is_commutative(b / 65536, 65536);
        vstd::arithmetic::mul::lemma_mul_is_commutative(a / 65536, 65536);
        assert(false);
    }
}

/// A fixed-point number; the real value represented is `bits` / 2^16.
#[derive(Clone, Copy, PartialEq, Eq, Structural, Debug)]
pub struct Fx {
    pub bits: i64,
}

/// Saturate an `i128` into the `i64` range.
fn clamp_to_i64(s: i128) -> (r: i64)
    ensures
        r as int == sat64(s as int),
{
    if s > i64::MAX as i128 {
        i64::MAX
    } else if s < i64::MIN as i128 {
        i64::MIN
    } else {
        s as i64
    }
}

/// Truncating signed division on `i128`, through unsigned division on
/// the absolute values.
fn tdiv_i128(a: i128, b: i128) -> (r: i128)
    requires
        b != 0,
        a != i128::MIN,
        b != i128::MIN,
    ensures
        r as int == tdiv(a as int, b as int),
{
    let ua: u128 = if a < 0 {
        (-a) as u128
    } else {
        a as u128
    };
    let ub: u128 = if b < 0 {
        (-b) as u128
    } else {
        b as u128
    };
    let uq: u128 = ua / ub;
    proof {
        assert(ua as int == abs_i(a as int));
        assert(ub as int == abs_i(b as int));
        lemma_div_nonincreasing(ua as int, ub as int);
    }
    if (a < 0) != (b < 0) {
        -(uq as i128)
    } else {
        uq as i128
    }
}

/// Floor square root on `u128`, by binary search between 0 and 2^50.
fn isqrt_u128(n: u128) -> (r: u128)
    requires
        n < 0x10000000000000000000000000u128,
    ensures
        r as nat == sqrt_floor(n as nat),
{
    let mut lo: u128 = 0;
    let mut hi: u128 = 0x4000000000000u128;
    proof {
        assert((0x4000000000000 as int) * (0x4000000000000 as int)
            == 0x10000000000000000000000000) by (nonlinear_arith);
    }
    while lo + 1 < hi
        invariant
            lo < hi <= 0x4000000000000u128,
            (lo as int) * (lo as int) <= n as int,
            (hi as int) * (hi as int) > n as int,
        decreases hi - lo,
    {
        let gap: u128 = hi - lo;
        proof {
            lemma_div_is_ordered(2, gap as int, 2);
            lemma_div_decreases(gap as int, 2);
        }
        let mid: u128 = lo + gap / 2;
        proof {
            lemma_square_lt(mid as int, 0x4000000000000);
            assert((0x4000000000000 as int) * (0x4000000000000 as int)
                == 0x10000000000000000000000000) by (nonlinear_arith);
        }
        if mid * mid <= n {
            lo = mid;
        } else {
            hi = mid;
        }
    }
    proof {
        lemma_sqrt_floor_unique(n as nat, lo as nat);
    }
    lo
}

impl Fx {
    /// The fixed-point number 0.
    pub open spec fn spec_zero() -> Fx {
        Fx { bits: 0 }
    }

    /// The fixed-point number 1.
    pub open spec fn spec_one() -> Fx {
        Fx { bits: SCALE as i64 }
    }

    pub open spec fn spec_add(self, other: Fx) -> Fx {
        Fx { bits: sat64(self.bits + other.bits) as i64 }
    }

    pub open spec fn spec_sub(self, other: Fx) -> Fx {
        Fx { bits: sat64(self.bits - other.bits) as i64 }
    }

    pub open spec fn spec_neg(self) -> Fx {
        Fx { bits: sat64(-self.bits) as i64 }
    }

    /// Saturating fixed-point sum.
    pub fn add(self, other: Fx) -> (r: Fx)
        ensures
            r == self.spec_add(other),
    {
        let s: i128 = self.bits as i128 + other.bits as i128;
        Fx { bits: clamp_to_i64(s) }
    }

    /// Saturating fixed-point difference.
    pub fn sub(self, other: Fx) -> (r: Fx)
        ensures
            r == self.spec_sub(other),
    {
        let s: i128 = self.bits as i128 - other.bits as i128;
        Fx { bits: clamp_to_i64(s) }
    }

    /// Saturating fixed-point negation.
    pub fn neg(self) -> (r: Fx)
        ensures
            r == self.spec_neg(),
    {
        let s: i128 = -(self.bits as i128);
        Fx { bits: clamp_to_i64(s) }
    }

    pub open spec fn spec_mul(self, other: Fx) -> Fx {
        Fx { bits: sat64(tdiv(self.bits * other.bits, SCALE as int)) as i64 }
    }

    pub open spec fn spec_div(self, other: Fx) -> Fx {
        if other.bits == 0 {
            Fx { bits: 0 }
        } else {
            Fx { bits: sat64(tdiv(self.bits * (SCALE as int), other.bits as int)) as i64 }
        }
    }

    pub open spec fn spec_sqrt(self) -> Fx {
        if self.bits < 0 {
            Fx { bits: 0 }
        } else {
            Fx { bits: sqrt_floor((self.bits * (SCALE as int)) as nat) as i64 }
        }
    }

    /// Saturating fixed-point product, truncated toward zero.
    pub fn mul(self, other: Fx) -> (r: Fx)
        ensures
            r == self.spec_mul(other),
    {
        proof {
            lemma_mul_bounds(
                self.bits as int,
                other.bits as int,
                0x8000000000000000,
                0x8000000000000000,
            );
            assert((0x8000000000000000 as int) * (0x8000000000000000 as int)
                == 0x40000000000000000000000000000000) by (nonlinear_arith);
        }
        let p: i128 = (self.bits as i128) * (other.bits as i128);
        let q: i128 = tdiv_i128(p, SCALE as i128);
        Fx { bits: clamp_to_i64(q) }
    }

    /// Saturating fixed-point quotient, truncated toward zero; division
    /// by zero yields zero.
    pub fn div(self, other: Fx) -> (r: Fx)
        ensures
            r == self.spec_div(other),
    {
        if other.bits == 0 {
            Fx { bits: 0 }
        } else {
            let p: i128 = (self.bits as i128) * 65536i128;
            let q: i128 = tdiv_i128(p, other.bits as i128);
            Fx { bits: clamp_to_i64(q) }
        }
    }

    /// Multiplying a value by one gives the value back.
    pub proof fn lemma_mul_one(self)
        ensures
            self.spec_mul(Fx { bits: SCALE }) == self,
    {
        assert(self.bits * (Fx { bits: SCALE }).bits == self.bits * 65536);
        lemma_tdiv_scale_cancel(self.bits as int);
    }

    /// Multiplying a value by zero gives zero.
    pub proof fn lemma_mul_zero(self)
        ensures
            self.spec_mul(Fx { bits: 0 }) == (Fx { bits: 0 }),
    {
        vstd::arithmetic::mul::lemma_mul_by_zero_is_zero(self.bits as int);
        vstd::arithmetic::div_mod::lemma_div_of0(65536);
    }

    /// Adding zero gives the value back.
    pub proof fn lemma_add_zero(self)
        ensures
            self.spec_add(Fx { bits: 0 }) == self,
    {
    }

    /// Dividing a value by one gives the value back.
    pub proof fn lemma_div_by_one(self)
        ensures
            self.spec_div(Fx { bits: SCALE }) == self,
    {
        assert(self.bits * (SCALE as int) == 65536 * self.bits) by (nonlinear_arith)
            requires
                (SCALE as int) == 65536,
        ;
        lemma_tdiv_scale_cancel(self.bits as int);
    }

    /// Fixed-point square root, rounded down; negative inputs yield zero.
    pub fn sqrt(self) -> (r: Fx)
        ensures
            r == self.spec_sqrt(),
    {
        if self.bits < 0 {
            Fx { bits: 0 }
        } else {
            let n: u128 = (self.bits as u128) * 65536u128;
            let root: u128 = isqrt_u128(n);
            proof {
                lemma_sqrt_floor(n as nat);
                if root as int > 0x10000000000 {
                    lemma_square_lt(0x10000000000, root as int);
                    assert((0x10000000000 as int) * (0x10000000000 as int)
                        == 0x100000000000000000000) by (nonlinear_arith);
                }
            }
            Fx { bits: root as i64 }
        }
    }
}

} // verus!
