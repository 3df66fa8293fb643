//! The Minkowski (Lp) family of distances.

use vstd::prelude::*;

use crate::coords::Coordinates;
use crate::distance::Proximity;

verus! {

/// The real-number operations that the Lp distance needs of a scalar type.
///
/// Each operation has a spec function that names its result and an exec
/// method that computes it. The proof functions are the laws of real
/// arithmetic the distance's metric properties rest on; an implementor
/// asserts that they hold of its type (as they do for IEEE floats without
/// NaN).
pub trait RealOps: Copy + Sized {
    /// The additive identity.
    spec fn spec_zero() -> Self;

    /// The multiplicative identity.
    spec fn spec_one() -> Self;

    /// The sum of `self` and `o`.
    spec fn spec_plus(self, o: Self) -> Self;

    /// The difference `self - o`.
    spec fn spec_minus(self, o: Self) -> Self;

    /// The product of `self` and `o`.
    spec fn spec_times(self, o: Self) -> Self;

    /// The larger of `self` and `o`.
    spec fn spec_max(self, o: Self) -> Self;

    /// The square root of `self`.
    spec fn spec_sqrt(self) -> Self;

    /// The absolute value of `self`.
    spec fn spec_abs(self) -> Self;

    /// `self` raised to the real power `e`.
    spec fn spec_powf(self, e: Self) -> Self;

    /// The reciprocal `1 / self`.
    spec fn spec_recip(self) -> Self;

    /// Whether `self > 0`.
    spec fn spec_is_positive(self) -> bool;

    /// Whether `self >= 0`.
    spec fn spec_is_nonnegative(self) -> bool;

    fn zero() -> (r: Self)
        ensures
            r == Self::spec_zero(),
    ;

    fn plus(self, o: Self) -> (r: Self)
        ensures
            r == self.spec_plus(o),
    ;

    fn minus(self, o: Self) -> (r: Self)
        ensures
            r == self.spec_minus(o),
    ;

    fn times(self, o: Self) -> (r: Self)
        ensures
            r == self.spec_times(o),
    ;

    fn max(self, o: Self) -> (r: Self)
        ensures
            r == self.spec_max(o),
    ;

    fn sqrt(self) -> (r: Self)
        ensures
            r == self.spec_sqrt(),
    ;

    fn abs(self) -> (r: Self)
        ensures
            r == self.spec_abs(),
    ;

    fn powf(self, e: Self) -> (r: Self)
        ensures
            r == self.spec_powf(e),
    ;

    fn recip(self) -> (r: Self)
        ensures
            r == self.spec_recip(),
    ;

    /// `|a - b| == |b - a|`.
    proof fn lemma_abs_diff_symmetric(a: Self, b: Self)
        ensures
            a.spec_minus(b).spec_abs() == b.spec_minus(a).spec_abs(),
    ;

    /// `|a - a| == 0`.
    proof fn lemma_abs_diff_self(a: Self)
        ensures
            a.spec_minus(a).spec_abs() == Self::spec_zero(),
    ;

    /// `0 + 0 == 0`.
    proof fn lemma_zero_plus_zero()
        ensures
            Self::spec_zero().spec_plus(Self::spec_zero()) == Self::spec_zero(),
    ;

    /// `0^e == 0` for `e > 0`.
    proof fn lemma_zero_powf(e: Self)
        requires
            e.spec_is_positive(),
        ensures
            Self::spec_zero().spec_powf(e) == Self::spec_zero(),
    ;

    /// `1 / p > 0` for `p > 0`.
    proof fn lemma_recip_positive(p: Self)
        requires
            p.spec_is_positive(),
        ensures
            p.spec_recip().spec_is_positive(),
    ;

    /// `a^1 == a`.
    proof fn lemma_powf_one(a: Self)
        ensures
            a.spec_powf(Self::spec_one()) == a,
    ;

    /// `1 / 1 == 1`.
    proof fn lemma_recip_one()
        ensures
            Self::spec_one().spec_recip() == Self::spec_one(),
    ;

    /// `0 >= 0`.
    proof fn lemma_zero_nonnegative()
        ensures
            Self::spec_zero().spec_is_nonnegative(),
    ;

    /// `|a| >= 0`.
    proof fn lemma_abs_nonnegative(a: Self)
        ensures
            a.spec_abs().spec_is_nonnegative(),
    ;

    /// `a^e >= 0` for `a >= 0` and `e > 0`.
    proof fn lemma_powf_nonnegative(a: Self, e: Self)
        requires
            a.spec_is_nonnegative(),
            e.spec_is_positive(),
        ensures
            a.spec_powf(e).spec_is_nonnegative(),
    ;

    /// `a + b >= 0` for `a, b >= 0`.
    proof fn lemma_plus_nonnegative(a: Self, b: Self)
        requires
            a.spec_is_nonnegative(),
            b.spec_is_nonnegative(),
        ensures
            a.spec_plus(b).spec_is_nonnegative(),
    ;
}

/// The sum of `|x[i] - y[i]|^p` over the first `n` indices, in ascending order.
pub open spec fn lp_sum<V: RealOps>(p: V, x: Seq<V>, y: Seq<V>, n: nat) -> V
    decreases n,
{
    if n == 0 {
        V::spec_zero()
    } else {
        lp_sum(p, x, y, (n - 1) as nat).spec_plus(
            x[n - 1].spec_minus(y[n - 1]).spec_abs().spec_powf(p),
        )
    }
}

/// The Lp distance between the coordinate sequences `x` and `y`:
/// `(sum_i |x[i] - y[i]|^p)^(1/p)`.
pub open spec fn lp_norm<V: RealOps>(p: V, x: Seq<V>, y: Seq<V>) -> V {
    lp_sum(p, x, y, x.len()).spec_powf(p.spec_recip())
}

/// Compute the Lp (Minkowski) distance between two points:
/// `(sum_i |x_i - y_i|^p)^(1/p)`.
///
/// `p` is not checked: it should be positive, and at least 1 for the result
/// to be a metric. Zero-dimensional points give `0^(1/p)`.
pub fn lp_distance<T, U>(p: T::Value, x: T, y: U) -> (r: T::Value)
    where
        T: Coordinates,
        U: Coordinates<Value = T::Value>,
        T::Value: RealOps,
    requires
        x.coords().len() == y.coords().len(),
    ensures
        r == lp_norm(p, x.coords(), y.coords()),
{
    let n = x.dims();
    let mut sum = T::Value::zero();
    let mut i: usize = 0;
    while i < n
        invariant
            n == x.coords().len(),
            x.coords().len() == y.coords().len(),
            i <= n,
            sum == lp_sum(p, x.coords(), y.coords(), i as nat),
        decreases n - i,
    {
        let term = x.coord(i).minus(y.coord(i)).abs().powf(p);
        sum = sum.plus(term);
        i = i + 1;
    }
    sum.powf(p.recip())
}

/// The sum of `|x[i] - y[i]|` over the first `n` indices, in ascending order.
pub open spec fn l1_sum<V: RealOps>(x: Seq<V>, y: Seq<V>, n: nat) -> V
    decreases n,
{
    if n == 0 {
        V::spec_zero()
    } else {
        l1_sum(x, y, (n - 1) as nat).spec_plus(x[n - 1].spec_minus(y[n - 1]).spec_abs())
    }
}

/// The sum of `(x[i] - y[i])^2` over the first `n` indices, in ascending order.
pub open spec fn l2_sum<V: RealOps>(x: Seq<V>, y: Seq<V>, n: nat) -> V
    decreases n,
{
    if n == 0 {
        V::spec_zero()
    } else {
        let d = x[n - 1].spec_minus(y[n - 1]);
        l2_sum(x, y, (n - 1) as nat).spec_plus(d.spec_times(d))
    }
}

/// The largest `|x[i] - y[i]|` over the first `n` indices, starting from zero.
pub open spec fn linf_max<V: RealOps>(x: Seq<V>, y: Seq<V>, n: nat) -> V
    decreases n,
{
    if n == 0 {
        V::spec_zero()
    } else {
        linf_max(x, y, (n - 1) as nat).spec_max(x[n - 1].spec_minus(y[n - 1]).spec_abs())
    }
}

/// Compute the L1 (taxicab) distance between two points: the sum of the
/// absolute differences of their coordinates.
pub fn l1_distance<T, U>(x: T, y: U) -> (r: T::Value)
    where
        T: Coordinates,
        U: Coordinates<Value = T::Value>,
        T::Value: RealOps,
    requires
        x.coords().len() == y.coords().len(),
    ensures
        r == l1_sum(x.coords(), y.coords(), x.coords().len()),
{
    let n = x.dims();
    let mut sum = T::Value::zero();
    let mut i: usize = 0;
    while i < n
        invariant
            n == x.coords().len(),
            x.coords().len() == y.coords().len(),
            i <= n,
            sum == l1_sum(x.coords(), y.coords(), i as nat),
        decreases n - i,
    {
        sum = sum.plus(x.coord(i).minus(y.coord(i)).abs());
        i = i + 1;
    }
    sum
}

/// Compute the L2 (Euclidean) distance between two points: the square root of
/// the sum of the squared differences of their coordinates.
pub fn l2_distance<T, U>(x: T, y: U) -> (r: T::Value)
    where
        T: Coordinates,
        U: Coordinates<Value = T::Value>,
        T::Value: RealOps,
    requires
        x.coords().len() == y.coords().len(),
    ensures
        r == l2_sum(x.coords(), y.coords(), x.coords().len()).spec_sqrt(),
{
    let n = x.dims();
    let mut sum = T::Value::zero();
    let mut i: usize = 0;
    while i < n
        invariant
            n == x.coords().len(),
            x.coords().len() == y.coords().len(),
            i <= n,
            sum == l2_sum(x.coords(), y.coords(), i as nat),
        decreases n - i,
    {
        let d = x.coord(i).minus(y.coord(i));
        sum = sum.plus(d.times(d));
        i = i + 1;
    }
    sum.sqrt()
}

/// Compute the L-infinity (Chebyshev) distance between two points: the
/// largest absolute difference of their coordinates.
pub fn linf_distance<T, U>(x: T, y: U) -> (r: T::Value)
    where
        T: Coordinates,
        U: Coordinates<Value = T::Value>,
        T::Value: RealOps,
    requires
        x.coords().len() == y.coords().len(),
    ensures
        r == linf_max(x.coords(), y.coords(), x.coords().len()),
{
    let n = x.dims();
    let mut max = T::Value::zero();
    let mut i: usize = 0;
    while i < n
        invariant
            n == x.coords().len(),
            x.coords().len() == y.coords().len(),
            i <= n,
            max == linf_max(x.coords(), y.coords(), i as nat),
        decreases n - i,
    {
        max = max.max(x.coord(i).minus(y.coord(i)).abs());
        i = i + 1;
    }
    max
}

/// With exponent 1 every partial Lp sum is the partial L1 sum.
proof fn lemma_lp_sum_one<V: RealOps>(x: Seq<V>, y: Seq<V>, n: nat)
    requires
        n <= x.len(),
        n <= y.len(),
    ensures
        lp_sum(V::spec_one(), x, y, n) == l1_sum(x, y, n),
    decreases n,
{
    if n > 0 {
        lemma_lp_sum_one(x, y, (n - 1) as nat);
        V::lemma_powf_one(x[n - 1].spec_minus(y[n - 1]).spec_abs());
    }
}

/// The Lp distance with `p = 1` is the L1 distance.
pub proof fn lemma_lp_norm_one_is_l1<V: RealOps>(x: Seq<V>, y: Seq<V>)
    requires
        x.len() == y.len(),
    ensures
        lp_norm(V::spec_one(), x, y) == l1_sum(x, y, x.len()),
{
    lemma_lp_sum_one(x, y, x.len());
    V::lemma_recip_one();
    V::lemma_powf_one(l1_sum(x, y, x.len()));
}

/// Every partial sum of non-negative terms is non-negative.
proof fn lemma_lp_sum_nonnegative<V: RealOps>(p: V, x: Seq<V>, y: Seq<V>, n: nat)
    requires
        p.spec_is_positive(),
        n <= x.len(),
        n <= y.len(),
    ensures
        lp_sum(p, x, y, n).spec_is_nonnegative(),
    decreases n,
{
    if n == 0 {
        V::lemma_zero_nonnegative();
    } else {
        lemma_lp_sum_nonnegative(p, x, y, (n - 1) as nat);
        let d = x[n - 1].spec_minus(y[n - 1]);
        V::lemma_abs_nonnegative(d);
        V::lemma_powf_nonnegative(d.spec_abs(), p);
        V::lemma_plus_nonnegative(lp_sum(p, x, y, (n - 1) as nat), d.spec_abs().spec_powf(p));
    }
}

/// The Lp distance is never negative, for a positive exponent.
pub proof fn lemma_lp_norm_nonnegative<V: RealOps>(p: V, x: Seq<V>, y: Seq<V>)
    requires
        p.spec_is_positive(),
        x.len() == y.len(),
    ensures
        lp_norm(p, x, y).spec_is_nonnegative(),
{
    lemma_lp_sum_nonnegative(p, x, y, x.len());
    V::lemma_recip_positive(p);
    V::lemma_powf_nonnegative(lp_sum(p, x, y, x.len()), p.spec_recip());
}

/// The sum over a point and itself is zero, for a positive exponent.
proof fn lemma_lp_sum_self<V: RealOps>(p: V, x: Seq<V>, n: nat)
    requires
        n <= x.len(),
        p.spec_is_positive(),
    ensures
        lp_sum(p, x, x, n) == V::spec_zero(),
    decreases n,
{
    if n > 0 {
        lemma_lp_sum_self(p, x, (n - 1) as nat);
        V::lemma_abs_diff_self(x[n - 1]);
        V::lemma_zero_powf(p);
        V::lemma_zero_plus_zero();
    }
}

/// The Lp distance from a point to itself is zero, for a positive exponent.
pub proof fn lemma_lp_norm_identity<V: RealOps>(p: V, x: Seq<V>)
    requires
        p.spec_is_positive(),
    ensures
        lp_norm(p, x, x) == V::spec_zero(),
{
    lemma_lp_sum_self(p, x, x.len());
    V::lemma_recip_positive(p);
    V::lemma_zero_powf(p.spec_recip());
}

/// Swapping the two points leaves every partial sum unchanged.
proof fn lemma_lp_sum_symmetric<V: RealOps>(p: V, x: Seq<V>, y: Seq<V>, n: nat)
    requires
        n <= x.len(),
        n <= y.len(),
    ensures
        lp_sum(p, x, y, n) == lp_sum(p, y, x, n),
    decreases n,
{
    if n > 0 {
        lemma_lp_sum_symmetric(p, x, y, (n - 1) as nat);
        V::lemma_abs_diff_symmetric(x[n - 1], y[n - 1]);
    }
}

/// The Lp distance is symmetric in its two points.
pub proof fn lemma_lp_norm_symmetric<V: RealOps>(p: V, x: Seq<V>, y: Seq<V>)
    requires
        x.len() == y.len(),
    ensures
        lp_norm(p, x, y) == lp_norm(p, y, x),
{
    lemma_lp_sum_symmetric(p, x, y, x.len());
}

/// Marker for Minkowski distances.
///
/// A type that implements it asserts that its distance is a metric: never
/// negative, zero exactly between equal points, symmetric, and subject to the
/// triangle inequality. Nothing checks this at run time; algorithms that rely
/// on those laws (pruning by the triangle inequality) ask for this marker
/// instead of the weaker [`Proximity`].
pub trait Minkowski<T: ?Sized = Self>: Proximity<T> {}

/// A reference to a Minkowski distance is one too.
impl<'k, 'v, K: Minkowski<V>, V> Minkowski<&'v V> for &'k K {}

} // verus!
