//! Descriptive messages for solver failures.
//!
//! A failure carries its reasons as plain data; `Failure::message` renders
//! them as text, and is verified to produce exactly the sequence of
//! characters its specification names - including the decimal rendering of
//! the iteration limit in a convergence failure.

use vstd::prelude::*;
use vstd::string::StringExecFns;
use crate::roots::Failure;

verus! {

/// The character for one decimal digit.
pub open spec fn digit_char(d: nat) -> char {
    if d == 0 {
        '0'
    } else if d == 1 {
        '1'
    } else if d == 2 {
        '2'
    } else if d == 3 {
        '3'
    } else if d == 4 {
        '4'
    } else if d == 5 {
        '5'
    } else if d == 6 {
        '6'
    } else if d == 7 {
        '7'
    } else if d == 8 {
        '8'
    } else {
        '9'
    }
}

/// The decimal rendering of `n`, most significant digit first.
pub open spec fn dec_digits(n: nat) -> Seq<char>
    decreases n,
{
    if n < 10 {
        seq![digit_char(n)]
    } else {
        dec_digits(n / 10) + seq![digit_char(n % 10)]
    }
}

/// Appends one decimal digit to `out`.
fn push_digit(out: &mut String, d: u32)
    requires
        d < 10,
    ensures
        final (out)@ == old(out)@ + seq![digit_char(d as nat)],
{
    if d == 0 {
        proof {
            reveal_strlit("0");
        }
        out.append("0");
    } else if d == 1 {
        proof {
            reveal_strlit("1");
        }
        out.append("1");
    } else if d == 2 {
        proof {
            reveal_strlit("2");
        }
        out.append("2");
    } else if d == 3 {
        proof {
            reveal_strlit("3");
        }
        out.append("3");
    } else if d == 4 {
        proof {
            reveal_strlit("4");
        }
        out.append("4");
    } else if d == 5 {
        proof {
            reveal_strlit("5");
        }
        out.append("5");
    } else if d == 6 {
        proof {
            reveal_strlit("6");
        }
        out.append("6");
    } else if d == 7 {
        proof {
            reveal_strlit("7");
        }
        out.append("7");
    } else if d == 8 {
        proof {
            reveal_strlit("8");
        }
        out.append("8");
    } else {
        proof {
            reveal_strlit("9");
        }
        out.append("9");
    }
    proof {
        assert(final (out)@ =~= old(out)@ + seq![digit_char(d as nat)]);
    }
}

/// Appends the decimal rendering of `n` to `out`.
pub fn push_decimal(out: &mut String, n: u32)
    ensures
        final (out)@ == old(out)@ + dec_digits(n as nat),
    decreases n,
{
    if n >= 10 {
        push_decimal(out, n / 10);
    }
    push_digit(out, n % 10);
    proof {
        assert(final (out)@ =~= old(out)@ + dec_digits(n as nat));
    }
}

impl Failure {
    /// The failure's descriptive message: the evaluation message as given,
    /// the convergence report with the limit that was reached and a hint
    /// to try other starting values, or the degeneracy report.
    pub open spec fn spec_message(&self) -> Seq<char> {
        match self {
            Failure::Evaluation(m) => m@,
            Failure::Convergence { limit } => "ran "@ + dec_digits(*limit as nat)
                + " times with no convergence, consider different starting values"@,
            Failure::Degenerate => "the next iterate is undefined: the derivative or secant slope is zero"@,
        }
    }

    /// Renders the failure as text.
    pub fn message(&self) -> (r: String)
        ensures
            r@ == self.spec_message(),
    {
        match self {
            Failure::Evaluation(m) => m.clone(),
            Failure::Convergence { limit } => {
                let mut out: String = String::from_str("ran ");
                push_decimal(&mut out, *limit);
                out.append(" times with no convergence, consider different starting values");
                out
            },
            Failure::Degenerate => String::from_str(
                "the next iterate is undefined: the derivative or secant slope is zero",
            ),
        }
    }
}

} // verus!
