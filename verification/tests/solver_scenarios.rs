use rootfind::example::Parabola;
use rootfind::example::ParabolaDeriv;
use rootfind::fixed::DEFAULT_TOLERANCE;
use rootfind::fixed::SCALE;
use rootfind::roots::bisection;
use rootfind::roots::newton;
use rootfind::roots::secant;

#[test]
fn bisection_converges_to_two() {
    let r = bisection(&Parabola, 0, 6 * SCALE, None, None).unwrap();
    assert!((r.value - 2 * SCALE).abs() < DEFAULT_TOLERANCE);
    assert!(r.uncertainty >= 0);
    assert!(2 * r.uncertainty < DEFAULT_TOLERANCE);
    assert_eq!(r.value, 2_000_000_238_417);
    assert_eq!(r.uncertainty, 357_628);
}

#[test]
fn bisection_converges_to_minus_two() {
    let r = bisection(&Parabola, -6 * SCALE, 0, None, None).unwrap();
    assert!((r.value + 2 * SCALE).abs() < DEFAULT_TOLERANCE);
    assert!(r.uncertainty >= 0);
    assert_eq!(r.value, -2_000_000_238_417);
}

#[test]
fn bisection_tight_bracket_exact() {
    let r = bisection(&Parabola, 0, 2, Some(10), Some(5)).unwrap();
    assert_eq!(r.value, 1);
    assert_eq!(r.uncertainty, 0);
}

#[test]
fn newton_converges_in_under_ten_iterations() {
    let r = newton(&Parabola, &ParabolaDeriv, 3 * SCALE, None, Some(9)).unwrap();
    assert!((r.value - 2 * SCALE).abs() < DEFAULT_TOLERANCE);
    assert!(r.uncertainty >= 0);
    assert_eq!(r.value, 2_000_000_000_001);
    assert_eq!(r.uncertainty, 13);
}

#[test]
fn newton_converges_to_minus_two_from_negative_start() {
    let r = newton(&Parabola, &ParabolaDeriv, -3 * SCALE, None, None).unwrap();
    assert!((r.value + 2 * SCALE).abs() < DEFAULT_TOLERANCE);
    assert!(r.uncertainty >= 0);
    assert_eq!(r.value, -2_000_000_000_001);
}

#[test]
fn newton_default_limit_converges() {
    let r = newton(&Parabola, &ParabolaDeriv, 3 * SCALE, None, None).unwrap();
    assert!((r.value - 2 * SCALE).abs() < DEFAULT_TOLERANCE);
}

#[test]
fn secant_converges_to_two() {
    let r = secant(&Parabola, SCALE / 10, 3 * SCALE, None, None).unwrap();
    assert!((r.value - 2 * SCALE).abs() < DEFAULT_TOLERANCE);
    assert!(r.uncertainty >= 0);
    assert_eq!(r.value, 2_000_000_000_000);
    assert_eq!(r.uncertainty, 270);
}

#[test]
fn bisection_is_deterministic() {
    let a = bisection(&Parabola, 0, 6 * SCALE, None, None);
    let b = bisection(&Parabola, 0, 6 * SCALE, None, None);
    assert_eq!(a, b);
}

#[test]
fn newton_is_deterministic() {
    let a = newton(&Parabola, &ParabolaDeriv, 3 * SCALE, Some(500), Some(20));
    let b = newton(&Parabola, &ParabolaDeriv, 3 * SCALE, Some(500), Some(20));
    assert_eq!(a, b);
}

#[test]
fn secant_is_deterministic() {
    let a = secant(&Parabola, SCALE / 10, 3 * SCALE, None, None);
    let b = secant(&Parabola, SCALE / 10, 3 * SCALE, None, None);
    assert_eq!(a, b);
}
