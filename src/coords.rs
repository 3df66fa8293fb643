//! Points with coordinates.

use vstd::prelude::*;

verus! {

/// A point with a fixed number of coordinates, each of a uniform value type.
pub trait Coordinates {
    /// The type of each coordinate.
    type Value: Copy;

    /// The coordinates of this point, in order.
    spec fn coords(&self) -> Seq<Self::Value>;

    /// The number of dimensions of this point.
    fn dims(&self) -> (r: usize)
        ensures
            r == self.coords().len(),
    ;

    /// The value of the `i`th coordinate of this point.
    fn coord(&self, i: usize) -> (r: Self::Value)
        requires
            i < self.coords().len(),
        ensures
            r == self.coords()[i as int],
    ;
}

/// Any reference to a point is a point with the same coordinates.
impl<'a, T: ?Sized + Coordinates> Coordinates for &'a T {
    type Value = T::Value;

    open spec fn coords(&self) -> Seq<T::Value> {
        (**self).coords()
    }

    fn dims(&self) -> (r: usize)
        ensures
            r == (**self).coords().len(),
    {
        (**self).dims()
    }

    fn coord(&self, i: usize) -> (r: T::Value)
        ensures
            r == (**self).coords()[i as int],
    {
        (**self).coord(i)
    }
}

impl<T: Copy> Coordinates for [T] {
    type Value = T;

    open spec fn coords(&self) -> Seq<T> {
        self@
    }

    fn dims(&self) -> (r: usize)
        ensures
            r == self@.len(),
    {
        self.len()
    }

    fn coord(&self, i: usize) -> (r: T)
        ensures
            r == self@[i as int],
    {
        self[i]
    }
}

impl<T: Copy, const N: usize> Coordinates for [T; N] {
    type Value = T;

    open spec fn coords(&self) -> Seq<T> {
        self@
    }

    fn dims(&self) -> (r: usize)
        ensures
            r == N,
    {
        N
    }

    fn coord(&self, i: usize) -> (r: T)
        ensures
            r == self@[i as int],
    {
        self[i]
    }
}

impl<T: Copy> Coordinates for Vec<T> {
    type Value = T;

    open spec fn coords(&self) -> Seq<T> {
        self@
    }

    fn dims(&self) -> (r: usize)
        ensures
            r == self@.len(),
    {
        self.len()
    }

    fn coord(&self, i: usize) -> (r: T)
        ensures
            r == self@[i as int],
    {
        self[i]
    }
}

} // verus!
