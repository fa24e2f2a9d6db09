use rootfind::example::FailingFn;
use rootfind::example::Parabola;
use rootfind::example::ParabolaDeriv;
use rootfind::example::ZeroFn;
use rootfind::fixed::SCALE;
use rootfind::roots::bisection;
use rootfind::roots::newton;
use rootfind::roots::secant;
use rootfind::roots::Failure;

#[test]
fn bisection_limit_one_fails_to_converge() {
    let r = bisection(&Parabola, 0, 6 * SCALE, None, Some(1));
    assert_eq!(r, Err(Failure::Convergence { limit: 1 }));
}

#[test]
fn newton_limit_one_fails_to_converge() {
    let r = newton(&Parabola, &ParabolaDeriv, 3 * SCALE, None, Some(1));
    assert_eq!(r, Err(Failure::Convergence { limit: 1 }));
}

#[test]
fn secant_limit_one_fails_to_converge() {
    let r = secant(&Parabola, SCALE / 10, 3 * SCALE, None, Some(1));
    assert_eq!(r, Err(Failure::Convergence { limit: 1 }));
}

#[test]
fn newton_zero_derivative_is_degenerate() {
    let r = newton(&Parabola, &ZeroFn, 2 * SCALE, None, None);
    assert_eq!(r, Err(Failure::Degenerate));
}

#[test]
fn secant_equal_iterates_are_degenerate() {
    let r = secant(&Parabola, 3 * SCALE, 3 * SCALE, None, None);
    assert_eq!(r, Err(Failure::Degenerate));
}

#[test]
fn secant_flat_chord_is_degenerate() {
    // The chord between two points with equal function values has slope
    // zero, so the x-intercept is undefined.
    let r = secant(&Parabola, -3 * SCALE, 3 * SCALE, None, None);
    assert_eq!(r, Err(Failure::Degenerate));
}

#[test]
fn bisection_surfaces_evaluation_failure() {
    let r = bisection(&FailingFn, 0, 6 * SCALE, None, None);
    assert_eq!(
        r,
        Err(Failure::Evaluation(String::from("no value at this point")))
    );
}

#[test]
fn newton_surfaces_evaluation_failure() {
    let r = newton(&FailingFn, &ParabolaDeriv, 3 * SCALE, None, None);
    assert_eq!(
        r,
        Err(Failure::Evaluation(String::from("no value at this point")))
    );
}

#[test]
fn newton_surfaces_derivative_evaluation_failure() {
    let r = newton(&Parabola, &FailingFn, 3 * SCALE, None, None);
    assert_eq!(
        r,
        Err(Failure::Evaluation(String::from("no value at this point")))
    );
}

#[test]
fn secant_surfaces_evaluation_failure() {
    let r = secant(&FailingFn, SCALE / 10, 3 * SCALE, None, None);
    assert_eq!(
        r,
        Err(Failure::Evaluation(String::from("no value at this point")))
    );
}

#[test]
fn convergence_message_names_the_limit() {
    let f = Failure::Convergence { limit: 100 };
    assert_eq!(
        f.message(),
        "ran 100 times with no convergence, consider different starting values"
    );
}

#[test]
fn convergence_message_renders_any_limit() {
    let f = Failure::Convergence { limit: 7 };
    assert_eq!(
        f.message(),
        "ran 7 times with no convergence, consider different starting values"
    );
    let g = Failure::Convergence { limit: 4_294_967_295 };
    assert_eq!(
        g.message(),
        "ran 4294967295 times with no convergence, consider different starting values"
    );
}

#[test]
fn evaluation_message_is_passed_through() {
    let f = Failure::Evaluation(String::from("no value at this point"));
    assert_eq!(f.message(), "no value at this point");
}

#[test]
fn degenerate_message_names_the_reason() {
    let f = Failure::Degenerate;
    assert_eq!(
        f.message(),
        "the next iterate is undefined: the derivative or secant slope is zero"
    );
}
