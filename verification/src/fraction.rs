//! Exact rational numbers.
//!
//! Statistics such as mean and median return a numerator/denominator pair
//! instead of a lossily-rounded float, so repeated aggregation stays exact.

use vstd::prelude::*;

verus! {

/// An exact non-negative rational: a numerator over a denominator.
/// Two fractions are equal exactly when their fields are equal; the pair
/// is never reduced, so `5/2` and `10/4` are distinct values.
#[derive(PartialEq, Eq, Structural, Debug, Clone, Copy, Hash)]
pub struct Fraction {
    pub numerator: u128,
    pub denominator: u128,
}

impl Fraction {
    pub fn new(numerator: u128, denominator: u128) -> (r: Fraction)
        ensures
            r.numerator == numerator,
            r.denominator == denominator,
    {
        Fraction { numerator, denominator }
    }

    pub fn numerator(&self) -> (r: u128)
        ensures
            r == self.numerator,
    {
        self.numerator
    }

    pub fn denominator(&self) -> (r: u128)
        ensures
            r == self.denominator,
    {
        self.denominator
    }
}

} // verus!
