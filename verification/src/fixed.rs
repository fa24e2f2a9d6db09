//! Fixed-point scalars: the library's model of the real line.
//!
//! A real number is represented by an `i64` holding its value scaled by
//! `SCALE`, so one unit is `1/SCALE` and the representable step is fine
//! enough for the default convergence tolerance. Every quantity a solver
//! iterates on is kept inside `[-RANGE_BOUND, RANGE_BOUND]`, which leaves
//! room in `i64` for sums and differences of two such values; intermediate
//! products and quotients are taken in `i128`, where they cannot overflow.

use vstd::prelude::*;

verus! {

/// Number of raw units per 1.0: raw values carry 12 fractional decimal digits.
pub const SCALE: i64 = 1_000_000_000_000;

/// Largest magnitude a scalar may take, leaving `i64` headroom for a sum or
/// difference of two scalars.
pub const RANGE_BOUND: i64 = 1_000_000_000_000_000_000;

/// The convergence threshold a solver uses when none is given: `1e-6` as a
/// fixed-point scalar.
pub const DEFAULT_TOLERANCE: i64 = 1_000_000;

/// The number of refinement steps a solver takes before giving up, when no
/// limit is given.
pub const DEFAULT_LIMIT: u32 = 100;

/// Whether `x` lies within the representable scalar range.
pub open spec fn in_range(x: int) -> bool {
    -RANGE_BOUND <= x <= RANGE_BOUND
}

/// Absolute value.
pub open spec fn abs_of(x: int) -> int {
    if x < 0 {
        -x
    } else {
        x
    }
}

/// Division rounding toward zero, as Rust's `/` computes it; Verus's own `/`
/// on `int` is Euclidean, which differs on negative operands.
pub open spec fn div_trunc(a: int, b: int) -> int {
    if a >= 0 {
        if b >= 0 {
            a / b
        } else {
            -(a / -b)
        }
    } else {
        if b >= 0 {
            -(-a / b)
        } else {
            -a / -b
        }
    }
}

/// `x` pulled back into the representable range.
pub open spec fn clamp_to_range(x: int) -> int {
    if x < -RANGE_BOUND {
        -RANGE_BOUND as int
    } else if x > RANGE_BOUND {
        RANGE_BOUND as int
    } else {
        x
    }
}

/// Taking the midpoint at most halves a bracket, rounded up: each of the
/// two halves spans at most one more than half the original interval.
pub proof fn lemma_midpoint_halves(l: int, r: int)
    ensures
        abs_of(div_trunc(l + r, 2) - l) <= (abs_of(r - l) + 1) / 2,
        abs_of(r - div_trunc(l + r, 2)) <= (abs_of(r - l) + 1) / 2,
{
    let s = l + r;
    if s >= 0 {
        assert(s == 2 * (s / 2) + s % 2);
    } else {
        assert(-s == 2 * ((-s) / 2) + (-s) % 2);
    }
    let i = abs_of(r - l);
    assert(i + 1 == 2 * ((i + 1) / 2) + (i + 1) % 2);
}

/// Truncating division on `i128`, branched so that every machine division
/// has nonnegative operands, where truncating and Euclidean division agree.
pub fn div_trunc_i128(a: i128, b: i128) -> (r: i128)
    requires
        b != 0,
        a != i128::MIN,
        b != i128::MIN,
    ensures
        r as int == div_trunc(a as int, b as int),
        abs_of(r as int) <= abs_of(a as int),
{
    if a >= 0 {
        if b >= 0 {
            proof {
                vstd::arithmetic::div_mod::lemma_div_pos_is_pos(a as int, b as int);
                vstd::arithmetic::div_mod::lemma_div_nonincreasing(a as int, b as int);
            }
            a / b
        } else {
            proof {
                vstd::arithmetic::div_mod::lemma_div_pos_is_pos(a as int, -b as int);
                vstd::arithmetic::div_mod::lemma_div_nonincreasing(a as int, -b as int);
            }
            -(a / -b)
        }
    } else {
        if b >= 0 {
            proof {
                vstd::arithmetic::div_mod::lemma_div_pos_is_pos(-a as int, b as int);
                vstd::arithmetic::div_mod::lemma_div_nonincreasing(-a as int, b as int);
            }
            -(-a / b)
        } else {
            proof {
                vstd::arithmetic::div_mod::lemma_div_pos_is_pos(-a as int, -b as int);
                vstd::arithmetic::div_mod::lemma_div_nonincreasing(-a as int, -b as int);
            }
            -a / -b
        }
    }
}

/// Clamps a wide intermediate value back into the scalar range.
pub fn clamp_i128(x: i128) -> (r: i64)
    ensures
        r as int == clamp_to_range(x as int),
        in_range(r as int),
{
    if x < -(RANGE_BOUND as i128) {
        -RANGE_BOUND
    } else if x > RANGE_BOUND as i128 {
        RANGE_BOUND
    } else {
        x as i64
    }
}

/// Absolute value of a difference of in-range scalars.
pub fn abs_i64(x: i64) -> (r: i64)
    requires
        x != i64::MIN,
    ensures
        r as int == abs_of(x as int),
{
    if x < 0 {
        -x
    } else {
        x
    }
}

/// The arithmetic average of a bracket's endpoints, rounded toward zero.
pub fn midpoint(left: i64, right: i64) -> (m: i64)
    requires
        in_range(left as int),
        in_range(right as int),
    ensures
        m as int == div_trunc(left + right, 2),
        in_range(m as int),
{
    let s: i64 = left + right;
    if s >= 0 {
        s / 2
    } else {
        -(-s / 2)
    }
}

} // verus!
