//! Numerical root finding for single-variable functions on a fixed-point
//! scalar domain, by three classical iterative methods: bisection,
//! Newton-Raphson, and the secant method. Each solver returns the best
//! estimate of a root together with a nonnegative uncertainty bound, or a
//! descriptive failure, and each is verified to follow its method's
//! iteration exactly.

pub mod example;
pub mod fixed;
pub mod message;
pub mod roots;
