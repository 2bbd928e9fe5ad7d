//! Ranges of numbers.
use crate::fixed::Fixed;
use vstd::prelude::*;

verus! {

/// The numbers from `min` to `max`. Where `min` is above `max` the interval
/// is empty.
#[derive(Clone, Copy, Debug)]
pub struct Interval {
    pub min: Fixed,
    pub max: Fixed,
}

impl Interval {
    /// The empty interval that reaches from the highest number down to the
    /// lowest.
    pub open spec fn spec_default() -> Interval {
        Interval { min: Fixed::spec_highest(), max: Fixed::spec_lowest() }
    }

    /// Whether `x` lies in the interval, bounds included.
    pub open spec fn spec_contains(self, x: Fixed) -> bool {
        self.min@ <= x@ && x@ <= self.max@
    }

    /// Whether `x` lies strictly between the bounds.
    pub open spec fn spec_surrounds(self, x: Fixed) -> bool {
        self.min@ < x@ && x@ < self.max@
    }

    /// `x` moved to the nearer bound where it lies outside, the lower bound
    /// tried first.
    pub open spec fn spec_clamp(self, x: Fixed) -> Fixed {
        if x@ < self.min@ {
            self.min
        } else if x@ > self.max@ {
            self.max
        } else {
            x
        }
    }

    pub fn new(min: Fixed, max: Fixed) -> (r: Interval)
        ensures
            r == (Interval { min, max }),
    {
        Interval { min, max }
    }

    pub fn contains(&self, x: Fixed) -> (b: bool)
        ensures
            b == self.spec_contains(x),
    {
        self.min.le(x) && x.le(self.max)
    }

    pub fn surrounds(&self, x: Fixed) -> (b: bool)
        ensures
            b == self.spec_surrounds(x),
    {
        self.min.lt(x) && x.lt(self.max)
    }

    pub fn clamp(&self, x: Fixed) -> (r: Fixed)
        ensures
            r == self.spec_clamp(x),
    {
        if x.lt(self.min) {
            self.min
        } else if x.gt(self.max) {
            self.max
        } else {
            x
        }
    }
}

impl Default for Interval {
    fn default() -> (r: Interval)
        ensures
            r == Interval::spec_default(),
    {
        Interval { min: Fixed::highest(), max: Fixed::lowest() }
    }
}

/// The default interval holds no number.
pub proof fn lemma_default_is_empty(x: Fixed)
    ensures
        !Interval::spec_default().spec_contains(x),
        !Interval::spec_default().spec_surrounds(x),
{
}

} // verus!
