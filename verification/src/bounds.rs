//! how an evaluation relates to the true score of a position
use vstd::prelude::*;
use crate::values::Value;

verus! {

/// The bound of an evaluation
#[derive(Debug, Clone, Copy, PartialEq, Eq, Structural, PartialOrd, Ord)]
pub enum EvalBound {
    /// The evaluation is precise
    Exact,
    /// The evaluation is a lower bound
    LowerBound,
    /// The evaluation is an upper bound
    UpperBound,
}

impl EvalBound {
    /// the two bits that store a bound in a table entry
    pub open spec fn code(self) -> u64 {
        match self {
            EvalBound::Exact => 0,
            EvalBound::LowerBound => 1,
            EvalBound::UpperBound => 2,
        }
    }

    /// the bound stored in two bits of a table entry; 3 stores none
    pub open spec fn from_code(code: u64) -> EvalBound {
        if code == 0 {
            EvalBound::Exact
        } else if code == 1 {
            EvalBound::LowerBound
        } else {
            EvalBound::UpperBound
        }
    }

    /// the two bits that store a bound in a table entry
    pub fn to_code(self) -> (r: u64)
        ensures
            r == self.code(),
            r < 3,
    {
        match self {
            EvalBound::Exact => 0,
            EvalBound::LowerBound => 1,
            EvalBound::UpperBound => 2,
        }
    }

    /// a value `p0` that equals `p1` is exact, one that equals `p2` (and not
    /// `p1`) is a lower bound, any other an upper bound.
    pub fn from_bounds(p0: Value, p1: Value, p2: Value) -> (r: EvalBound)
        ensures
            r == (if p0 == p1 {
                EvalBound::Exact
            } else if p0 == p2 {
                EvalBound::LowerBound
            } else {
                EvalBound::UpperBound
            }),
    {
        if p0 == p1 {
            EvalBound::Exact
        } else if p0 == p2 {
            EvalBound::LowerBound
        } else {
            EvalBound::UpperBound
        }
    }
}

} // verus!
