//! The four operations on 64-bit signed integers, with their failures.

use crate::error::CalcError;
use vstd::arithmetic::div_mod::{lemma_fundamental_div_mod, lemma_mod_bound};
use vstd::prelude::*;

verus! {

/// A binary operator of the language.
#[derive(Clone, Copy, Debug, PartialEq, Eq, Structural)]
pub enum Operator {
    Add,
    Sub,
    Mul,
    Div,
}

/// `v` as a result: itself where an `i64` can hold it.
pub open spec fn in_range(v: int) -> Result<i64, CalcError> {
    if i64::MIN <= v <= i64::MAX {
        Ok(v as i64)
    } else {
        Err(CalcError::IntegerOverflow)
    }
}

/// The quotient of `a` by `b`, rounded toward zero, for `b` other than 0.
pub open spec fn quotient(a: int, b: int) -> int {
    if a >= 0 && b > 0 {
        a / b
    } else if a < 0 && b < 0 {
        (-a) / (-b)
    } else if a < 0 {
        -((-a) / b)
    } else {
        -(a / (-b))
    }
}

impl Operator {
    /// The mathematical result of the operator on `a` and `b`, where it has
    /// one and an `i64` can hold it.
    pub open spec fn apply(self, a: i64, b: i64) -> Result<i64, CalcError> {
        match self {
            Operator::Add => in_range(a + b),
            Operator::Sub => in_range(a - b),
            Operator::Mul => in_range(a * b),
            Operator::Div => if b == 0 {
                Err(CalcError::DivisionByZero)
            } else {
                in_range(quotient(a as int, b as int))
            },
        }
    }

    /// Applies the operator to `a` and `b`.
    pub fn eval(self, a: i64, b: i64) -> (r: Result<i64, CalcError>)
        ensures
            r == self.apply(a, b),
    {
        let checked = match self {
            Operator::Add => a.checked_add(b),
            Operator::Sub => a.checked_sub(b),
            Operator::Mul => a.checked_mul(b),
            Operator::Div => {
                if b == 0 {
                    return Err(CalcError::DivisionByZero);
                }
                a.checked_div(b)
            },
        };
        match checked {
            Some(v) => Ok(v),
            None => Err(CalcError::IntegerOverflow),
        }
    }
}

/// `quotient` rounds toward zero: what is left of `a` after taking `b` away
/// `quotient(a, b)` times is smaller than `b` in magnitude, and is not on the
/// other side of zero than `a`.
pub proof fn lemma_quotient_truncates(a: int, b: int)
    requires
        b != 0,
    ensures
        a >= 0 && b > 0 ==> 0 <= a - quotient(a, b) * b < b,
        a >= 0 && b < 0 ==> 0 <= a - quotient(a, b) * b < -b,
        a <= 0 && b > 0 ==> -b < a - quotient(a, b) * b <= 0,
        a <= 0 && b < 0 ==> b < a - quotient(a, b) * b <= 0,
{
    let x = if a >= 0 {
        a
    } else {
        -a
    };
    let d = if b > 0 {
        b
    } else {
        -b
    };
    lemma_fundamental_div_mod(x, d);
    lemma_mod_bound(x, d);
    let q = x / d;
    assert(x - d * q == x % d);
    assert(q * d == d * q && q * (-d) == -(d * q) && (-q) * d == -(d * q) && (-q) * (-d) == d * q)
        by (nonlinear_arith);
    if a == 0 {
        assert(0int / d == 0) by (nonlinear_arith)
            requires
                d > 0,
        ;
    }
}

} // verus!
