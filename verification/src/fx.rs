//! Fixed-point real scalars.
//!
//! A scalar is an `i64` holding the value times `2^32` (Q32.32).  Products
//! and quotients are computed exactly in `i128` and truncated toward zero;
//! results outside the `i64` range saturate.  Division by zero saturates in
//! the direction of the numerator's sign (and gives 0 for a 0 numerator), so
//! every operation is a total function of its arguments and the contracts
//! below pin each result down exactly.

use vstd::prelude::*;

verus! {

/// One whole unit: the raw representation of the real number 1.
pub const FX_ONE: i64 = 4294967296;

/// Raw representation of one half.
pub const FX_HALF: i64 = 2147483648;

/// Raw representation of -1, the "unset" sentinel of the optional
/// presentation and constraint fields of a body.
pub const FX_UNSET: i64 = -4294967296;

/// The scale factor `2^32` as a mathematical integer.
pub open spec fn scale() -> int {
    4294967296
}

/// Clamp an unbounded integer into the `i64` range.
pub open spec fn clamp64(x: int) -> int {
    if x > i64::MAX {
        i64::MAX as int
    } else if x < i64::MIN {
        i64::MIN as int
    } else {
        x
    }
}

/// Division truncated toward zero (the rounding of the underlying machine
/// arithmetic), defined for any `d != 0`.
pub open spec fn tdiv(n: int, d: int) -> int {
    let q = vstd::math::abs(n) as int / vstd::math::abs(d) as int;
    if (n < 0) == (d < 0) {
        q
    } else {
        -q
    }
}

/// Saturating fixed-point addition.
pub open spec fn fx_add_spec(a: int, b: int) -> int {
    clamp64(a + b)
}

/// Saturating fixed-point subtraction.
pub open spec fn fx_sub_spec(a: int, b: int) -> int {
    clamp64(a - b)
}

/// Saturating fixed-point multiplication: the exact product, rescaled by
/// `2^-32` with truncation toward zero.
pub open spec fn fx_mul_spec(a: int, b: int) -> int {
    clamp64(tdiv(a * b, scale()))
}

/// Saturating fixed-point division.  A zero divisor saturates in the
/// direction of the numerator's sign; 0/0 is 0.
pub open spec fn fx_div_spec(a: int, b: int) -> int {
    if b == 0 {
        if a > 0 {
            i64::MAX as int
        } else if a < 0 {
            i64::MIN as int
        } else {
            0
        }
    } else {
        clamp64(tdiv(a * scale(), b))
    }
}

/// `r` is the integer square root (floor) of `n`.
pub open spec fn is_sqrt_floor(n: int, r: int) -> bool {
    r >= 0 && r * r <= n && n < (r + 1) * (r + 1)
}

/// The integer square root (floor) of `n`, for `n >= 0`.
pub open spec fn sqrt_floor(n: int) -> int {
    choose|r: int| is_sqrt_floor(n, r)
}

/// Fixed-point square root: the square root of the value, rounded down to
/// the nearest representable value.  Negative arguments give 0.
pub open spec fn fx_sqrt_spec(a: int) -> int {
    if a <= 0 {
        0
    } else {
        sqrt_floor(a * scale())
    }
}

/// The raw fixed-point representation of the integer `n`, saturated.
pub open spec fn fx_of_int_spec(n: int) -> int {
    clamp64(n * scale())
}

/// Saturating fixed-point absolute value.
pub open spec fn fx_abs_spec(a: int) -> int {
    clamp64(vstd::math::abs(a) as int)
}

/// Any witness of `is_sqrt_floor` is the unique square root floor.
pub proof fn lemma_sqrt_floor_unique(n: int, r: int)
    requires
        is_sqrt_floor(n, r),
    ensures
        sqrt_floor(n) == r,
{
    assert(exists|x: int| is_sqrt_floor(n, x)) by {
        assert(is_sqrt_floor(n, r));
    }
    let c = choose|x: int| is_sqrt_floor(n, x);
    assert(c == r) by (nonlinear_arith)
        requires
            c >= 0,
            r >= 0,
            c * c <= n,
            n < (c + 1) * (c + 1),
            r * r <= n,
            n < (r + 1) * (r + 1),
    ;
}

/// Apply a sign to a non-negative magnitude and clamp into `i64`.
pub(crate) fn signed_clamp(q: u128, neg: bool) -> (r: i64)
    ensures
        r as int == clamp64(if neg { -(q as int) } else { q as int }),
{
    if neg {
        if q >= 9223372036854775808u128 {
            i64::MIN
        } else {
            -(q as i64)
        }
    } else {
        if q > i64::MAX as u128 {
            i64::MAX
        } else {
            q as i64
        }
    }
}

/// Saturating fixed-point addition.
pub fn fx_add(a: i64, b: i64) -> (r: i64)
    ensures
        r as int == fx_add_spec(a as int, b as int),
{
    let s: i128 = a as i128 + b as i128;
    if s > i64::MAX as i128 {
        i64::MAX
    } else if s < i64::MIN as i128 {
        i64::MIN
    } else {
        s as i64
    }
}

/// Saturating fixed-point subtraction.
pub fn fx_sub(a: i64, b: i64) -> (r: i64)
    ensures
        r as int == fx_sub_spec(a as int, b as int),
{
    let s: i128 = a as i128 - b as i128;
    if s > i64::MAX as i128 {
        i64::MAX
    } else if s < i64::MIN as i128 {
        i64::MIN
    } else {
        s as i64
    }
}

/// Saturating fixed-point multiplication.
pub fn fx_mul(a: i64, b: i64) -> (r: i64)
    ensures
        r as int == fx_mul_spec(a as int, b as int),
{
    proof {
        assert((a as int) * (b as int) <= 0x40000000000000000000000000000000
            && (a as int) * (b as int) >= -0x40000000000000000000000000000000) by (nonlinear_arith)
            requires
                -0x8000000000000000 <= a as int <= 0x7fffffffffffffff,
                -0x8000000000000000 <= b as int <= 0x7fffffffffffffff,
        ;
    }
    let p: i128 = (a as i128) * (b as i128);
    let neg: bool = p < 0;
    let mag: u128 = if p < 0 {
        (-p) as u128
    } else {
        p as u128
    };
    let q: u128 = mag / 4294967296u128;
    signed_clamp(q, neg)
}

/// Saturating fixed-point division.
pub fn fx_div(a: i64, b: i64) -> (r: i64)
    ensures
        r as int == fx_div_spec(a as int, b as int),
{
    if b == 0 {
        if a > 0 {
            i64::MAX
        } else if a < 0 {
            i64::MIN
        } else {
            0
        }
    } else {
        let p: i128 = (a as i128) * 4294967296i128;
        let neg: bool = (p < 0) != (b < 0);
        let magp: u128 = if p < 0 {
            (-p) as u128
        } else {
            p as u128
        };
        let magb: u128 = if b < 0 {
            (-(b as i128)) as u128
        } else {
            b as u128
        };
        let q: u128 = magp / magb;
        signed_clamp(q, neg)
    }
}

/// Fixed-point square root, by binary search for the integer square root of
/// the rescaled argument.
pub fn fx_sqrt(a: i64) -> (r: i64)
    ensures
        r as int == fx_sqrt_spec(a as int),
{
    if a <= 0 {
        return 0;
    }
    let n: u128 = (a as u128) * 4294967296u128;
    let mut lo: u128 = 0;
    let mut hi: u128 = 281474976710656u128;
    proof {
        assert((n as int) < 281474976710656 * 281474976710656);
    }
    while lo + 1 < hi
        invariant
            lo < hi,
            hi <= 281474976710656,
            (lo as int) * (lo as int) <= n as int,
            (n as int) < (hi as int) * (hi as int),
        decreases hi - lo,
    {
        let mid: u128 = lo + (hi - lo) / 2;
        proof {
            assert((mid as int) * (mid as int) < 0x1000000000000000000000000) by (nonlinear_arith)
                requires
                    0 <= (mid as int) && (mid as int) < 0x1000000000000,
            ;
        }
        if mid * mid <= n {
            lo = mid;
        } else {
            hi = mid;
        }
    }
    proof {
        assert(is_sqrt_floor(n as int, lo as int));
        lemma_sqrt_floor_unique(n as int, lo as int);
    }
    lo as i64
}

/// Saturating fixed-point absolute value.
pub fn fx_abs(a: i64) -> (r: i64)
    ensures
        r as int == fx_abs_spec(a as int),
{
    if a == i64::MIN {
        i64::MAX
    } else if a < 0 {
        -a
    } else {
        a
    }
}

/// The raw fixed-point representation of the integer `n`, saturated.
pub fn fx_of_int(n: i64) -> (r: i64)
    ensures
        r as int == fx_of_int_spec(n as int),
{
    let p: i128 = (n as i128) * 4294967296i128;
    if p > i64::MAX as i128 {
        i64::MAX
    } else if p < i64::MIN as i128 {
        i64::MIN
    } else {
        p as i64
    }
}

} // verus!
