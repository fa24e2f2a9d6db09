use rootfind::example::Parabola;
use rootfind::example::ParabolaDeriv;
use rootfind::fixed::abs_i64;
use rootfind::fixed::clamp_i128;
use rootfind::fixed::div_trunc_i128;
use rootfind::fixed::midpoint;
use rootfind::fixed::RANGE_BOUND;
use rootfind::fixed::SCALE;
use rootfind::roots::RealFn;

#[test]
fn division_truncates_toward_zero() {
    assert_eq!(div_trunc_i128(7, 2), 3);
    assert_eq!(div_trunc_i128(-7, 2), -3);
    assert_eq!(div_trunc_i128(7, -2), -3);
    assert_eq!(div_trunc_i128(-7, -2), 3);
    assert_eq!(div_trunc_i128(6, 3), 2);
    assert_eq!(div_trunc_i128(0, 5), 0);
}

#[test]
fn clamping_holds_the_range() {
    assert_eq!(clamp_i128(0), 0);
    assert_eq!(clamp_i128(RANGE_BOUND as i128), RANGE_BOUND);
    assert_eq!(clamp_i128(RANGE_BOUND as i128 + 1), RANGE_BOUND);
    assert_eq!(clamp_i128(-(RANGE_BOUND as i128) - 1), -RANGE_BOUND);
    assert_eq!(clamp_i128(42), 42);
}

#[test]
fn absolute_value() {
    assert_eq!(abs_i64(-5), 5);
    assert_eq!(abs_i64(5), 5);
    assert_eq!(abs_i64(0), 0);
}

#[test]
fn midpoint_is_the_average() {
    assert_eq!(midpoint(0, 6 * SCALE), 3 * SCALE);
    assert_eq!(midpoint(-4, 4), 0);
    assert_eq!(midpoint(1, 2), 1);
    assert_eq!(midpoint(-1, -2), -1);
}

#[test]
fn parabola_values() {
    // f(x) = x^2 - 4 at x = 0, 2, 3, -2 in fixed point.
    assert_eq!(Parabola.eval(0), Ok(-4 * SCALE));
    assert_eq!(Parabola.eval(2 * SCALE), Ok(0));
    assert_eq!(Parabola.eval(3 * SCALE), Ok(5 * SCALE));
    assert_eq!(Parabola.eval(-2 * SCALE), Ok(0));
}

#[test]
fn parabola_derivative_values() {
    assert_eq!(ParabolaDeriv.eval(3 * SCALE), Ok(6 * SCALE));
    assert_eq!(ParabolaDeriv.eval(-SCALE), Ok(-2 * SCALE));
    assert_eq!(ParabolaDeriv.eval(0), Ok(0));
}
