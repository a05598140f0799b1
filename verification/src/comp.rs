//! Comparison operators and their evaluation on scalars.

use vstd::prelude::*;
use crate::scalar::Scalar;

verus! {

/// A comparison operator.
#[derive(Clone, Copy, Debug, PartialEq, Eq, Structural)]
pub enum Comp {
    Eq,
    Geq,
    Leq,
    Les,
    Gra,
    Not,
}

/// Whether `a op b` holds of two positions on the integer line.
pub open spec fn holds(a: int, op: Comp, b: int) -> bool {
    match op {
        Comp::Eq => a == b,
        Comp::Geq => a >= b,
        Comp::Leq => a <= b,
        Comp::Les => a < b,
        Comp::Gra => a > b,
        Comp::Not => a != b,
    }
}

/// Evaluates `a op b`.
pub fn compare<T: Scalar>(a: T, op: &Comp, b: T) -> (r: bool)
    ensures
        r == holds(a.rank(), *op, b.rank()),
{
    match op {
        Comp::Eq => a.same(&b),
        Comp::Les => a.less(&b),
        Comp::Gra => b.less(&a),
        Comp::Geq => !a.less(&b),
        Comp::Leq => !b.less(&a),
        Comp::Not => !a.same(&b),
    }
}

} // verus!
