//! Measures of closeness between values.

use vstd::prelude::*;

verus! {

/// A measure of how close a value is to a value of type `T`.
///
/// The measure need not be a metric: it may be any similarity measure that
/// depends on the two values alone.
pub trait Proximity<T: ?Sized = Self> {
    /// The type of the distances this measure returns.
    type Distance;

    /// The distance from `self` to `other`.
    spec fn spec_distance(&self, other: &T) -> Self::Distance;

    /// Compute the distance from `self` to `other`.
    fn distance(&self, other: &T) -> (r: Self::Distance)
        ensures
            r == self.spec_distance(other),
    ;
}

/// A reference measures by what it refers to.
impl<'k, 'v, K: Proximity<V>, V> Proximity<&'v V> for &'k K {
    type Distance = K::Distance;

    open spec fn spec_distance(&self, other: &&'v V) -> K::Distance {
        (**self).spec_distance(*other)
    }

    fn distance(&self, other: &&'v V) -> (r: K::Distance)
        ensures
            r == (**self).spec_distance(*other),
    {
        (**self).distance(*other)
    }
}

} // verus!
