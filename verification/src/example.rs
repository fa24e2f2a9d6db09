//! Ready-made functions for the solvers: the classic demonstration
//! function `f(x) = x^2 - 4` with roots at `2` and `-2`, its derivative,
//! and two degenerate functions that exercise the failure paths.

use vstd::prelude::*;
use crate::fixed::SCALE;
use crate::fixed::div_trunc;
use crate::fixed::clamp_to_range;
use crate::fixed::clamp_i128;
use crate::roots::RealFn;

verus! {

/// The function `f(x) = x^2 - 4`, with its value pulled back into the
/// scalar range where the true square would leave it.
pub struct Parabola;

impl RealFn for Parabola {
    open spec fn spec_eval(&self, x: int) -> Result<int, Seq<char>> {
        Ok(clamp_to_range(div_trunc(x * x, SCALE as int) - 4 * SCALE))
    }

    fn eval(&self, x: i64) -> (r: Result<i64, String>) {
        proof {
            assert(0 <= (x as int) * (x as int)
                <= 1_000_000_000_000_000_000int * 1_000_000_000_000_000_000int) by (nonlinear_arith)
                requires
                    -1_000_000_000_000_000_000 <= x as int <= 1_000_000_000_000_000_000,
            ;
        }
        let sq: i128 = (x as i128) * (x as i128);
        let scaled: i128 = sq / (SCALE as i128);
        proof {
            vstd::arithmetic::div_mod::lemma_div_pos_is_pos(sq as int, SCALE as int);
            vstd::arithmetic::div_mod::lemma_div_nonincreasing(sq as int, SCALE as int);
        }
        Ok(clamp_i128(scaled - 4 * (SCALE as i128)))
    }
}

/// The derivative of `Parabola`: `df(x) = 2x`, clamped to the scalar range.
pub struct ParabolaDeriv;

impl RealFn for ParabolaDeriv {
    open spec fn spec_eval(&self, x: int) -> Result<int, Seq<char>> {
        Ok(clamp_to_range(2 * x))
    }

    fn eval(&self, x: i64) -> (r: Result<i64, String>) {
        Ok(clamp_i128(2 * (x as i128)))
    }
}

/// The constant zero function: a derivative that is zero everywhere, so
/// Newton's method must report a degenerate failure at once.
pub struct ZeroFn;

impl RealFn for ZeroFn {
    open spec fn spec_eval(&self, x: int) -> Result<int, Seq<char>> {
        Ok(0)
    }

    fn eval(&self, x: i64) -> (r: Result<i64, String>) {
        Ok(0)
    }
}

/// A function that cannot be evaluated anywhere: every solver must surface
/// its message as an evaluation failure.
pub struct FailingFn;

impl RealFn for FailingFn {
    open spec fn spec_eval(&self, x: int) -> Result<int, Seq<char>> {
        Err("no value at this point"@)
    }

    fn eval(&self, x: i64) -> (r: Result<i64, String>) {
        Err(String::from_str("no value at this point"))
    }
}

} // verus!
