//! The three root-finding solvers and their shared result and failure types.
//!
//! Each solver's behaviour is pinned down by a recursive specification of
//! its iteration, written directly from the method's definition; the
//! executable solver is verified to return exactly the outcome of that
//! specification. Since each specification is a function of the starting
//! values alone, every solver is deterministic by construction.

use vstd::prelude::*;
use crate::fixed::SCALE;
use crate::fixed::DEFAULT_TOLERANCE;
use crate::fixed::DEFAULT_LIMIT;
use crate::fixed::in_range;
use crate::fixed::abs_of;
use crate::fixed::div_trunc;
use crate::fixed::clamp_to_range;
use crate::fixed::div_trunc_i128;
use crate::fixed::clamp_i128;
use crate::fixed::midpoint;

verus! {

/// A successful solver outcome: the best root estimate and a nonnegative
/// bound on its error, both fixed-point scalars.
#[derive(Clone, Copy, PartialEq, Eq, Structural, Debug)]
pub struct Answer {
    pub value: i64,
    pub uncertainty: i64,
}

/// Why a solver gave up: the supplied function failed at a sampled point,
/// the iteration limit was reached before the tolerance was met, or the
/// next iterate was undefined (zero derivative or zero secant slope).
#[derive(Clone, PartialEq, Eq, Debug)]
pub enum Failure {
    Evaluation(String),
    Convergence { limit: u32 },
    Degenerate,
}

/// A solver call's outcome at the specification level.
pub enum Outcome {
    Root { value: int, uncertainty: int },
    EvalFailed { message: Seq<char> },
    NoConvergence { limit: int },
    Degenerate,
}

/// The outcome a concrete solver result stands for.
pub open spec fn outcome_of(r: Result<Answer, Failure>) -> Outcome {
    match r {
        Ok(a) => (Outcome::Root { value: a.value as int, uncertainty: a.uncertainty as int }),
        Err(Failure::Evaluation(m)) => (Outcome::EvalFailed { message: m@ }),
        Err(Failure::Convergence { limit }) => (Outcome::NoConvergence { limit: limit as int }),
        Err(Failure::Degenerate) => Outcome::Degenerate,
    }
}

/// A user-supplied function from scalar to scalar that may fail with a
/// message. `spec_eval` is the mathematical account of the function; since
/// it is a function of the argument alone, an implementation is stateless
/// and deterministic by contract, and `eval` must return exactly what
/// `spec_eval` says.
pub trait RealFn {
    spec fn spec_eval(&self, x: int) -> Result<int, Seq<char>>;

    fn eval(&self, x: i64) -> (r: Result<i64, String>)
        requires
            in_range(x as int),
        ensures
            (match r {
                Ok(v) => self.spec_eval(x as int) == Ok::<int, Seq<char>>(v as int),
                Err(m) => self.spec_eval(x as int) == Err::<int, Seq<char>>(m@),
            }),
    ;
}

/// The tolerance a call runs with: the given one, or the default.
pub open spec fn tol_of(tolerance: Option<i64>) -> int {
    match tolerance {
        Some(t) => t as int,
        None => DEFAULT_TOLERANCE as int,
    }
}

/// The iteration limit a call runs with: the given one, or the default.
pub open spec fn limit_of(limit: Option<u32>) -> int {
    match limit {
        Some(n) => n as int,
        None => DEFAULT_LIMIT as int,
    }
}

/// One run of the bisection iteration with `rem` refinement steps left:
/// take the midpoint of the bracket, keep whichever half shows a sign
/// change between the left endpoint and the midpoint, and stop once the
/// bracket is narrower than the tolerance.
pub open spec fn bisect_rec<F: RealFn>(
    f: &F,
    left: int,
    right: int,
    tol: int,
    limit: int,
    rem: nat,
) -> Outcome
    decreases rem,
{
    let mid = div_trunc(left + right, 2);
    match f.spec_eval(left) {
        Err(m) => (Outcome::EvalFailed { message: m }),
        Ok(fl) => match f.spec_eval(mid) {
            Err(m) => (Outcome::EvalFailed { message: m }),
            Ok(fm) => {
                let l2 = if fl * fm < 0 { left } else { mid };
                let r2 = if fl * fm < 0 { mid } else { right };
                let interval = abs_of(r2 - l2);
                if interval < tol {
                    Outcome::Root { value: mid, uncertainty: interval / 2 }
                } else if rem <= 1 {
                    Outcome::NoConvergence { limit }
                } else {
                    bisect_rec(f, l2, r2, tol, limit, (rem - 1) as nat)
                }
            },
        },
    }
}

/// What a bisection call on the given bracket must return.
pub open spec fn bisect_model<F: RealFn>(
    f: &F,
    left: int,
    right: int,
    tol: int,
    limit: int,
) -> Outcome {
    bisect_rec(f, left, right, tol, limit, limit as nat)
}

/// Finds a root of `func` by bisection of the bracket `[left, right]`.
///
/// The caller is responsible for supplying a bracket across which `func`
/// changes sign; the bracket is not checked up front, and without a sign
/// change the iteration still runs but need not near a root. On success the
/// returned interval is narrower than the tolerance and the uncertainty is
/// half of it. With the default tolerance and limit the iteration limit is
/// out of reach for every representable bracket
/// (`lemma_bisection_defaults_converge`).
pub fn bisection<F: RealFn>(
    func: &F,
    left: i64,
    right: i64,
    tolerance: Option<i64>,
    limit: Option<u32>,
) -> (r: Result<Answer, Failure>)
    requires
        in_range(left as int),
        in_range(right as int),
        (tolerance matches Some(t) ==> t > 0),
        (limit matches Some(n) ==> n > 0),
    ensures
        outcome_of(r) == bisect_model(func, left as int, right as int, tol_of(tolerance), limit_of(limit)),
        (r matches Ok(a) ==> 0 <= a.uncertainty && 2 * a.uncertainty < tol_of(tolerance)),
        (r matches Ok(a) ==> in_range(a.value as int)),
        (r matches Ok(a) ==> vstd::math::min(left as int, right as int) <= a.value
            <= vstd::math::max(left as int, right as int)),
{
    let tol: i64 = match tolerance {
        Some(t) => t,
        None => DEFAULT_TOLERANCE,
    };
    let lim: u32 = match limit {
        Some(n) => n,
        None => DEFAULT_LIMIT,
    };
    let mut lo: i64 = left;
    let mut hi: i64 = right;
    let mut rem: u32 = lim;
    loop
        invariant
            1 <= rem <= lim,
            in_range(lo as int),
            in_range(hi as int),
            tol as int == tol_of(tolerance),
            lim as int == limit_of(limit),
            tol > 0,
            bisect_rec(func, lo as int, hi as int, tol as int, lim as int, rem as nat)
                == bisect_model(func, left as int, right as int, tol_of(tolerance), limit_of(limit)),
        decreases rem,
    {
        let ghost lo0: int = lo as int;
        let ghost hi0: int = hi as int;
        let ghost rem0: nat = rem as nat;
        let mid: i64 = midpoint(lo, hi);
        let fl: i64 = match func.eval(lo) {
            Ok(v) => v,
            Err(m) => {
                return Err(Failure::Evaluation(m));
            },
        };
        let fm: i64 = match func.eval(mid) {
            Ok(v) => v,
            Err(m) => {
                return Err(Failure::Evaluation(m));
            },
        };
        proof {
            assert(-0x40000000000000000000000000000000int <= (fl as int) * (fm as int)
                <= 0x40000000000000000000000000000000int) by (nonlinear_arith)
                requires
                    -0x8000000000000000 <= fl as int <= 0x7FFFFFFFFFFFFFFF,
                    -0x8000000000000000 <= fm as int <= 0x7FFFFFFFFFFFFFFF,
            ;
        }
        if (fl as i128) * (fm as i128) < 0 {
            hi = mid;
        } else {
            lo = mid;
        }
        let d: i64 = hi - lo;
        let interval: i64 = if d < 0 { -d } else { d };
        proof {
            assert(bisect_rec(func, lo0, hi0, tol as int, lim as int, rem0)
                == if interval < tol {
                    Outcome::Root { value: mid as int, uncertainty: interval as int / 2 }
                } else if rem0 <= 1 {
                    Outcome::NoConvergence { limit: lim as int }
                } else {
                    bisect_rec(func, lo as int, hi as int, tol as int, lim as int, (rem0 - 1) as nat)
                });
        }
        if interval < tol {
            proof {
                lemma_bisect_rec_value_in_bracket(
                    func,
                    left as int,
                    right as int,
                    tol as int,
                    lim as int,
                    lim as nat,
                );
            }
            return Ok(Answer { value: mid, uncertainty: interval / 2 });
        }
        if rem <= 1 {
            return Err(Failure::Convergence { limit: lim });
        }
        rem = rem - 1;
    }
}

/// One run of the Newton-Raphson iteration with `rem` steps left: move from
/// the current point to the intercept of the tangent line, stop once the
/// step taken is smaller than the tolerance, and report a degenerate
/// failure where the derivative is zero. The intercept is pulled back into
/// the scalar range where the tangent would leave it.
pub open spec fn newton_rec<F: RealFn, D: RealFn>(
    f: &F,
    df: &D,
    point: int,
    tol: int,
    limit: int,
    rem: nat,
) -> Outcome
    decreases rem,
{
    match f.spec_eval(point) {
        Err(m) => (Outcome::EvalFailed { message: m }),
        Ok(fp) => match df.spec_eval(point) {
            Err(m) => (Outcome::EvalFailed { message: m }),
            Ok(dp) => {
                if dp == 0 {
                    Outcome::Degenerate
                } else {
                    let next = clamp_to_range(point - div_trunc(fp * SCALE, dp));
                    let step = abs_of(point - next);
                    if step < tol {
                        Outcome::Root { value: next, uncertainty: step / 2 }
                    } else if rem <= 1 {
                        Outcome::NoConvergence { limit }
                    } else {
                        newton_rec(f, df, next, tol, limit, (rem - 1) as nat)
                    }
                }
            },
        },
    }
}

/// What a Newton-Raphson call from the given initial guess must return.
pub open spec fn newton_model<F: RealFn, D: RealFn>(
    f: &F,
    df: &D,
    initial: int,
    tol: int,
    limit: int,
) -> Outcome {
    newton_rec(f, df, initial, tol, limit, limit as nat)
}

/// Finds a root of `func` by Newton-Raphson iteration from `initial`,
/// using the caller-supplied derivative `deriv_func`.
///
/// A zero derivative at any iterate is reported as a degenerate failure,
/// never divided by. On success the final step was smaller than the
/// tolerance and the uncertainty is half of it.
pub fn newton<F: RealFn, D: RealFn>(
    func: &F,
    deriv_func: &D,
    initial: i64,
    tolerance: Option<i64>,
    limit: Option<u32>,
) -> (r: Result<Answer, Failure>)
    requires
        in_range(initial as int),
        (tolerance matches Some(t) ==> t > 0),
        (limit matches Some(n) ==> n > 0),
    ensures
        outcome_of(r) == newton_model(func, deriv_func, initial as int, tol_of(tolerance), limit_of(limit)),
        (r matches Ok(a) ==> 0 <= a.uncertainty && 2 * a.uncertainty < tol_of(tolerance)),
        (r matches Ok(a) ==> in_range(a.value as int)),
{
    let tol: i64 = match tolerance {
        Some(t) => t,
        None => DEFAULT_TOLERANCE,
    };
    let lim: u32 = match limit {
        Some(n) => n,
        None => DEFAULT_LIMIT,
    };
    let mut point: i64 = initial;
    let mut rem: u32 = lim;
    loop
        invariant
            1 <= rem <= lim,
            in_range(point as int),
            tol as int == tol_of(tolerance),
            lim as int == limit_of(limit),
            tol > 0,
            newton_rec(func, deriv_func, point as int, tol as int, lim as int, rem as nat)
                == newton_model(func, deriv_func, initial as int, tol_of(tolerance), limit_of(limit)),
        decreases rem,
    {
        let ghost p0: int = point as int;
        let ghost rem0: nat = rem as nat;
        let fp: i64 = match func.eval(point) {
            Ok(v) => v,
            Err(m) => {
                return Err(Failure::Evaluation(m));
            },
        };
        let dp: i64 = match deriv_func.eval(point) {
            Ok(v) => v,
            Err(m) => {
                return Err(Failure::Evaluation(m));
            },
        };
        if dp == 0 {
            return Err(Failure::Degenerate);
        }
        let q: i128 = div_trunc_i128((fp as i128) * (SCALE as i128), dp as i128);
        let next: i64 = clamp_i128((point as i128) - q);
        let d: i64 = point - next;
        let step: i64 = if d < 0 { -d } else { d };
        point = next;
        proof {
            assert(newton_rec(func, deriv_func, p0, tol as int, lim as int, rem0)
                == if step < tol {
                    Outcome::Root { value: next as int, uncertainty: step as int / 2 }
                } else if rem0 <= 1 {
                    Outcome::NoConvergence { limit: lim as int }
                } else {
                    newton_rec(func, deriv_func, next as int, tol as int, lim as int, (rem0 - 1) as nat)
                });
        }
        if step < tol {
            return Ok(Answer { value: point, uncertainty: step / 2 });
        }
        if rem <= 1 {
            return Err(Failure::Convergence { limit: lim });
        }
        rem = rem - 1;
    }
}

/// One run of the secant iteration with `rem` steps left: take the slope of
/// the chord through the two iterates, move to the chord's x-intercept,
/// and keep, beside the intercept, whichever old iterate lies closer to it.
/// A zero chord slope - equal iterates, or a chord too flat for the scalar
/// resolution - leaves the intercept undefined and is reported as a
/// degenerate failure. The intercept is pulled back into the scalar range
/// where the chord would leave it.
pub open spec fn secant_rec<F: RealFn>(
    f: &F,
    first: int,
    second: int,
    tol: int,
    limit: int,
    rem: nat,
) -> Outcome
    decreases rem,
{
    match f.spec_eval(second) {
        Err(m) => (Outcome::EvalFailed { message: m }),
        Ok(fs) => match f.spec_eval(first) {
            Err(m) => (Outcome::EvalFailed { message: m }),
            Ok(ff) => {
                if second - first == 0 {
                    Outcome::Degenerate
                } else {
                    let slope = div_trunc((fs - ff) * SCALE, second - first);
                    if slope == 0 {
                        Outcome::Degenerate
                    } else {
                        let xint = clamp_to_range(first - div_trunc(ff * SCALE, slope));
                        let step = abs_of(first - xint);
                        if step < tol {
                            Outcome::Root { value: xint, uncertainty: step / 2 }
                        } else if rem <= 1 {
                            Outcome::NoConvergence { limit }
                        } else {
                            let second2 = if step < abs_of(second - xint) { first } else { second };
                            secant_rec(f, xint, second2, tol, limit, (rem - 1) as nat)
                        }
                    }
                }
            },
        },
    }
}

/// What a secant call on the given pair of starting iterates must return.
pub open spec fn secant_model<F: RealFn>(
    f: &F,
    first: int,
    second: int,
    tol: int,
    limit: int,
) -> Outcome {
    secant_rec(f, first, second, tol, limit, limit as nat)
}

/// Finds a root of `func` by the secant method from the two starting
/// iterates `first` and `second`.
///
/// Equal iterates, or a chord so flat that its slope vanishes at the
/// scalar resolution, are reported as a degenerate failure, never divided
/// by. On success the final step was smaller than the tolerance and the
/// uncertainty is half of it.
pub fn secant<F: RealFn>(
    func: &F,
    first: i64,
    second: i64,
    tolerance: Option<i64>,
    limit: Option<u32>,
) -> (r: Result<Answer, Failure>)
    requires
        in_range(first as int),
        in_range(second as int),
        (tolerance matches Some(t) ==> t > 0),
        (limit matches Some(n) ==> n > 0),
    ensures
        outcome_of(r) == secant_model(func, first as int, second as int, tol_of(tolerance), limit_of(limit)),
        (r matches Ok(a) ==> 0 <= a.uncertainty && 2 * a.uncertainty < tol_of(tolerance)),
        (r matches Ok(a) ==> in_range(a.value as int)),
{
    let tol: i64 = match tolerance {
        Some(t) => t,
        None => DEFAULT_TOLERANCE,
    };
    let lim: u32 = match limit {
        Some(n) => n,
        None => DEFAULT_LIMIT,
    };
    let mut a: i64 = first;
    let mut b: i64 = second;
    let mut rem: u32 = lim;
    loop
        invariant
            1 <= rem <= lim,
            in_range(a as int),
            in_range(b as int),
            tol as int == tol_of(tolerance),
            lim as int == limit_of(limit),
            tol > 0,
            secant_rec(func, a as int, b as int, tol as int, lim as int, rem as nat)
                == secant_model(func, first as int, second as int, tol_of(tolerance), limit_of(limit)),
        decreases rem,
    {
        let ghost a0: int = a as int;
        let ghost b0: int = b as int;
        let ghost rem0: nat = rem as nat;
        let fs: i64 = match func.eval(b) {
            Ok(v) => v,
            Err(m) => {
                return Err(Failure::Evaluation(m));
            },
        };
        let ff: i64 = match func.eval(a) {
            Ok(v) => v,
            Err(m) => {
                return Err(Failure::Evaluation(m));
            },
        };
        let xdiff: i64 = b - a;
        if xdiff == 0 {
            return Err(Failure::Degenerate);
        }
        let ydiff: i128 = (fs as i128) - (ff as i128);
        let slope: i128 = div_trunc_i128(ydiff * (SCALE as i128), xdiff as i128);
        if slope == 0 {
            return Err(Failure::Degenerate);
        }
        let q: i128 = div_trunc_i128((ff as i128) * (SCALE as i128), slope);
        let xint: i64 = clamp_i128((a as i128) - q);
        let d1: i64 = a - xint;
        let step: i64 = if d1 < 0 { -d1 } else { d1 };
        let d2: i64 = b - xint;
        let dist2: i64 = if d2 < 0 { -d2 } else { d2 };
        if step < dist2 {
            b = a;
        }
        a = xint;
        proof {
            assert(secant_rec(func, a0, b0, tol as int, lim as int, rem0)
                == if step < tol {
                    Outcome::Root { value: xint as int, uncertainty: step as int / 2 }
                } else if rem0 <= 1 {
                    Outcome::NoConvergence { limit: lim as int }
                } else {
                    secant_rec(func, a as int, b as int, tol as int, lim as int, (rem0 - 1) as nat)
                });
        }
        if step < tol {
            return Ok(Answer { value: xint, uncertainty: step / 2 });
        }
        if rem <= 1 {
            return Err(Failure::Convergence { limit: lim });
        }
        rem = rem - 1;
    }
}

/// A successful bisection outcome lies inside the hull of the starting
/// bracket: every midpoint taken stays between the endpoints, whichever
/// way round they were given.
pub proof fn lemma_bisect_rec_value_in_bracket<F: RealFn>(
    f: &F,
    left: int,
    right: int,
    tol: int,
    limit: int,
    rem: nat,
)
    ensures
        (bisect_rec(f, left, right, tol, limit, rem) matches Outcome::Root { value, .. }
            ==> vstd::math::min(left, right) <= value <= vstd::math::max(left, right)),
    decreases rem,
{
    let mid = div_trunc(left + right, 2);
    assert(vstd::math::min(left, right) <= mid <= vstd::math::max(left, right));
    if f.spec_eval(left) is Ok && f.spec_eval(mid) is Ok {
        let fl = f.spec_eval(left)->Ok_0;
        let fm = f.spec_eval(mid)->Ok_0;
        let l2 = if fl * fm < 0 { left } else { mid };
        let r2 = if fl * fm < 0 { mid } else { right };
        if abs_of(r2 - l2) >= tol && rem > 1 {
            lemma_bisect_rec_value_in_bracket(f, l2, r2, tol, limit, (rem - 1) as nat);
        }
    }
}

/// Bisection cannot run out of iterations on a bracket that its halvings
/// exhaust: where `rem` halvings bring the interval below the tolerance,
/// the outcome is never a convergence failure - only a root, or an
/// evaluation failure of the supplied function.
pub proof fn lemma_bisect_rec_converges<F: RealFn>(
    f: &F,
    left: int,
    right: int,
    tol: int,
    limit: int,
    rem: nat,
)
    requires
        1 <= tol,
        1 <= rem,
        abs_of(right - left) <= (tol - 1) * vstd::arithmetic::power2::pow2((rem - 1) as nat),
    ensures
        !(bisect_rec(f, left, right, tol, limit, rem) is NoConvergence),
    decreases rem,
{
    let mid = div_trunc(left + right, 2);
    crate::fixed::lemma_midpoint_halves(left, right);
    if f.spec_eval(left) is Ok && f.spec_eval(mid) is Ok {
        let fl = f.spec_eval(left)->Ok_0;
        let fm = f.spec_eval(mid)->Ok_0;
        let l2 = if fl * fm < 0 { left } else { mid };
        let r2 = if fl * fm < 0 { mid } else { right };
        let interval = abs_of(r2 - l2);
        let i0 = abs_of(right - left);
        if interval >= tol {
            vstd::arithmetic::power2::lemma_pow2_pos((rem - 1) as nat);
            vstd::arithmetic::div_mod::lemma_div_is_ordered(
                interval + 1,
                i0 + 1,
                2,
            );
            if rem == 1 {
                assert(vstd::arithmetic::power2::pow2(0) == 1) by {
                    vstd::arithmetic::power2::lemma2_to64();
                }
                let p0 = vstd::arithmetic::power2::pow2((rem - 1) as nat) as int;
                assert(p0 == 1);
                assert((tol - 1) * p0 == tol - 1) by (nonlinear_arith)
                    requires
                        p0 == 1,
                ;
                assert(i0 <= tol - 1);
                assert(interval <= (i0 + 1) / 2);
                vstd::arithmetic::div_mod::lemma_div_is_ordered(i0 + 1, tol, 2);
                vstd::arithmetic::div_mod::lemma_div_decreases(tol, 2);
                assert(false);
            } else {
                let p = vstd::arithmetic::power2::pow2((rem - 2) as nat);
                vstd::arithmetic::power2::lemma_pow2_unfold((rem - 1) as nat);
                vstd::arithmetic::power2::lemma_pow2_pos((rem - 2) as nat);
                assert((tol - 1) * (2 * p) == 2 * ((tol - 1) * p)) by (nonlinear_arith);
                vstd::arithmetic::div_mod::lemma_div_is_ordered(
                    i0 + 1,
                    2 * ((tol - 1) * p) + 1,
                    2,
                );
                vstd::arithmetic::div_mod::lemma_div_multiples_vanish_fancy((tol - 1) * p, 1, 2);
                assert(interval <= (tol - 1) * p);
                lemma_bisect_rec_converges(f, l2, r2, tol, limit, (rem - 1) as nat);
            }
        }
    }
}

/// With the default tolerance and iteration limit, a bisection call on any
/// representable bracket never fails to converge: one hundred halvings
/// bring every in-range interval below the default tolerance.
pub proof fn lemma_bisection_defaults_converge<F: RealFn>(f: &F, left: int, right: int)
    requires
        in_range(left),
        in_range(right),
    ensures
        !(bisect_model(f, left, right, DEFAULT_TOLERANCE as int, DEFAULT_LIMIT as int)
            is NoConvergence),
{
    vstd::arithmetic::power2::lemma2_to64();
    vstd::arithmetic::power2::lemma_pow2_strictly_increases(64, 99);
    vstd::arithmetic::mul::lemma_mul_inequality(
        1,
        DEFAULT_TOLERANCE as int - 1,
        vstd::arithmetic::power2::pow2(99) as int,
    );
    lemma_bisect_rec_converges(
        f,
        left,
        right,
        DEFAULT_TOLERANCE as int,
        DEFAULT_LIMIT as int,
        100,
    );
}

/// An outcome determines a successful answer: two results that stand for
/// the same outcome and both succeed hold equal answers, so the
/// determinism of the solvers pins their returned values exactly.
pub proof fn lemma_outcome_determines_answer(r1: Result<Answer, Failure>, r2: Result<
    Answer,
    Failure,
>)
    requires
        outcome_of(r1) == outcome_of(r2),
        r1 is Ok,
        r2 is Ok,
    ensures
        r1->Ok_0 == r2->Ok_0,
{
}

/// Determinism: two bisection calls on identical inputs return results
/// standing for the same outcome.
pub proof fn lemma_bisection_deterministic<F: RealFn>(
    f: &F,
    left: int,
    right: int,
    tol: int,
    limit: int,
    r1: Result<Answer, Failure>,
    r2: Result<Answer, Failure>,
)
    requires
        outcome_of(r1) == bisect_model(f, left, right, tol, limit),
        outcome_of(r2) == bisect_model(f, left, right, tol, limit),
    ensures
        outcome_of(r1) == outcome_of(r2),
{
}

/// Determinism: two Newton-Raphson calls on identical inputs return
/// results standing for the same outcome.
pub proof fn lemma_newton_deterministic<F: RealFn, D: RealFn>(
    f: &F,
    df: &D,
    initial: int,
    tol: int,
    limit: int,
    r1: Result<Answer, Failure>,
    r2: Result<Answer, Failure>,
)
    requires
        outcome_of(r1) == newton_model(f, df, initial, tol, limit),
        outcome_of(r2) == newton_model(f, df, initial, tol, limit),
    ensures
        outcome_of(r1) == outcome_of(r2),
{
}

/// Determinism: two secant calls on identical inputs return results
/// standing for the same outcome.
pub proof fn lemma_secant_deterministic<F: RealFn>(
    f: &F,
    first: int,
    second: int,
    tol: int,
    limit: int,
    r1: Result<Answer, Failure>,
    r2: Result<Answer, Failure>,
)
    requires
        outcome_of(r1) == secant_model(f, first, second, tol, limit),
        outcome_of(r2) == secant_model(f, first, second, tol, limit),
    ensures
        outcome_of(r1) == outcome_of(r2),
{
}

/// With an iteration limit of one, a bisection call whose single step does
/// not converge reports that the limit of one was reached - it never hands
/// back a value.
pub proof fn lemma_bisection_limit_one<F: RealFn>(f: &F, left: int, right: int, tol: int)
    requires
        f.spec_eval(left) is Ok,
        f.spec_eval(div_trunc(left + right, 2)) is Ok,
        !(bisect_model(f, left, right, tol, 1) is Root),
    ensures
        bisect_model(f, left, right, tol, 1) == (Outcome::NoConvergence { limit: 1 }),
{
}

/// With an iteration limit of one, a Newton-Raphson call whose single step
/// does not converge reports that the limit of one was reached - it never
/// hands back a value.
pub proof fn lemma_newton_limit_one<F: RealFn, D: RealFn>(f: &F, df: &D, initial: int, tol: int)
    requires
        f.spec_eval(initial) is Ok,
        df.spec_eval(initial) is Ok,
        df.spec_eval(initial)->Ok_0 != 0,
        !(newton_model(f, df, initial, tol, 1) is Root),
    ensures
        newton_model(f, df, initial, tol, 1) == (Outcome::NoConvergence { limit: 1 }),
{
}

/// With an iteration limit of one, a secant call whose single step does
/// not converge reports that the limit of one was reached - it never hands
/// back a value.
pub proof fn lemma_secant_limit_one<F: RealFn>(f: &F, first: int, second: int, tol: int)
    requires
        f.spec_eval(first) is Ok,
        f.spec_eval(second) is Ok,
        second != first,
        div_trunc((f.spec_eval(second)->Ok_0 - f.spec_eval(first)->Ok_0) * SCALE, second - first)
            != 0,
        !(secant_model(f, first, second, tol, 1) is Root),
    ensures
        secant_model(f, first, second, tol, 1) == (Outcome::NoConvergence { limit: 1 }),
{
}

/// A zero derivative at the initial guess makes the Newton-Raphson outcome
/// a degenerate failure at once - never a division result.
pub proof fn lemma_newton_degenerate<F: RealFn, D: RealFn>(
    f: &F,
    df: &D,
    initial: int,
    tol: int,
    limit: int,
)
    requires
        f.spec_eval(initial) is Ok,
        df.spec_eval(initial) == Ok::<int, Seq<char>>(0),
    ensures
        newton_model(f, df, initial, tol, limit) == Outcome::Degenerate,
{
}

/// Equal starting iterates make the secant outcome a degenerate failure at
/// once: the chord through them has no defined slope.
pub proof fn lemma_secant_equal_iterates<F: RealFn>(f: &F, x: int, tol: int, limit: int)
    requires
        f.spec_eval(x) is Ok,
    ensures
        secant_model(f, x, x, tol, limit) == Outcome::Degenerate,
{
}

} // verus!
