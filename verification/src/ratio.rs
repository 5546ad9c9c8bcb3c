//! Exact fractions, in which growth rates and competition coefficients are
//! given.

use vstd::prelude::*;

verus! {

/// The fraction `numer / denom`. Two values are equal when their fields are:
/// one half and two quarters are different values that stand for the same
/// number.
#[derive(Clone, Copy, Debug, PartialEq, Eq, Structural)]
pub struct Ratio {
    pub numer: i32,
    pub denom: u32,
}

impl Ratio {
    /// A fraction stands for a number only with a denominator other than zero.
    pub open spec fn well_formed(&self) -> bool {
        self.denom > 0
    }

    /// The fraction `numer / denom`, or nothing where `denom` is zero.
    pub fn new(numer: i32, denom: u32) -> (ratio: Option<Ratio>)
        ensures
            denom == 0 ==> ratio.is_none(),
            denom > 0 ==> ratio == Some((Ratio { numer, denom })),
    {
        if denom == 0 {
            None
        } else {
            Some(Ratio { numer, denom })
        }
    }
}

} // verus!
