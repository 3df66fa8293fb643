use acap::lp::{l1_distance, l2_distance, linf_distance, lp_distance, RealOps};

#[derive(Clone, Copy, Debug, PartialEq, PartialOrd)]
struct R(f64);

impl RealOps for R {
    fn spec_zero() -> R {
        R(0.0)
    }

    fn spec_one() -> R {
        R(1.0)
    }

    fn spec_plus(self, o: R) -> R {
        R(self.0 + o.0)
    }

    fn spec_minus(self, o: R) -> R {
        R(self.0 - o.0)
    }

    fn spec_times(self, o: R) -> R {
        R(self.0 * o.0)
    }

    fn spec_max(self, o: R) -> R {
        R(self.0.max(o.0))
    }

    fn spec_sqrt(self) -> R {
        R(self.0.sqrt())
    }

    fn spec_abs(self) -> R {
        R(self.0.abs())
    }

    fn spec_powf(self, e: R) -> R {
        R(self.0.powf(e.0))
    }

    fn spec_recip(self) -> R {
        R(self.0.recip())
    }

    fn spec_is_positive(self) -> bool {
        self.0 > 0.0
    }

    fn spec_is_nonnegative(self) -> bool {
        self.0 >= 0.0
    }

    fn zero() -> R {
        R::spec_zero()
    }

    fn plus(self, o: R) -> R {
        self.spec_plus(o)
    }

    fn minus(self, o: R) -> R {
        self.spec_minus(o)
    }

    fn times(self, o: R) -> R {
        self.spec_times(o)
    }

    fn max(self, o: R) -> R {
        self.spec_max(o)
    }

    fn sqrt(self) -> R {
        self.spec_sqrt()
    }

    fn abs(self) -> R {
        self.spec_abs()
    }

    fn powf(self, e: R) -> R {
        self.spec_powf(e)
    }

    fn recip(self) -> R {
        self.spec_recip()
    }

    fn lemma_abs_diff_symmetric(a: R, b: R) {
        assert_eq!(a.spec_minus(b).spec_abs(), b.spec_minus(a).spec_abs());
    }

    fn lemma_abs_diff_self(a: R) {
        assert_eq!(a.spec_minus(a).spec_abs(), R::spec_zero());
    }

    fn lemma_zero_plus_zero() {
        assert_eq!(R::spec_zero().spec_plus(R::spec_zero()), R::spec_zero());
    }

    fn lemma_zero_powf(e: R) {
        assert!(!e.spec_is_positive() || R::spec_zero().spec_powf(e) == R::spec_zero());
    }

    fn lemma_recip_positive(p: R) {
        assert!(!p.spec_is_positive() || p.spec_recip().spec_is_positive());
    }

    fn lemma_powf_one(a: R) {
        assert_eq!(a.spec_powf(R::spec_one()), a);
    }

    fn lemma_recip_one() {
        assert_eq!(R::spec_one().spec_recip(), R::spec_one());
    }

    fn lemma_zero_nonnegative() {
        assert!(R::spec_zero().spec_is_nonnegative());
    }

    fn lemma_abs_nonnegative(a: R) {
        assert!(a.spec_abs().spec_is_nonnegative());
    }

    fn lemma_powf_nonnegative(a: R, e: R) {
        let applies = a.spec_is_nonnegative() && e.spec_is_positive();
        assert!(!applies || a.spec_powf(e).spec_is_nonnegative());
    }

    fn lemma_plus_nonnegative(a: R, b: R) {
        let both = a.spec_is_nonnegative() && b.spec_is_nonnegative();
        assert!(!both || a.spec_plus(b).spec_is_nonnegative());
    }
}

fn pt(a: f64, b: f64) -> [R; 2] {
    [R(a), R(b)]
}

#[test]
fn test_lp_distance() {
    assert_eq!(l1_distance(&pt(0.0, 0.0), &pt(3.0, 4.0)), R(7.0));
    assert_eq!(l2_distance(&pt(0.0, 0.0), &pt(3.0, 4.0)), R(5.0));
    assert!(lp_distance(R(3.0), &pt(0.0, 0.0), &pt(3.0, 4.0)) < R(5.0));
    assert_eq!(linf_distance(&pt(0.0, 0.0), &pt(3.0, 4.0)), R(4.0));
}

#[test]
fn lp_three_lies_between_linf_and_l2() {
    let d = lp_distance(R(3.0), &pt(0.0, 0.0), &pt(3.0, 4.0));
    assert!(d < R(5.0));
    assert!(d > R(4.0));
    // (27 + 64)^(1/3)
    assert!((d.0 - 91f64.powf(1.0 / 3.0)).abs() < 1e-12);
}

#[test]
fn lp_one_equals_l1() {
    let x = pt(0.0, 0.0);
    let y = pt(3.0, 4.0);
    assert_eq!(lp_distance(R(1.0), &x, &y), l1_distance(&x, &y));
    let u = [R(1.5), R(-2.0), R(7.25)];
    let v = [R(-0.5), R(3.0), R(7.0)];
    assert_eq!(lp_distance(R(1.0), &u, &v), l1_distance(&u, &v));
    assert_eq!(l1_distance(&u, &v), R(7.25));
}

#[test]
fn lp_two_equals_l2() {
    let x = pt(0.0, 0.0);
    let y = pt(3.0, 4.0);
    assert_eq!(lp_distance(R(2.0), &x, &y), l2_distance(&x, &y));
    let u = [R(1.0), R(2.0), R(3.0)];
    let v = [R(4.0), R(6.0), R(-9.0)];
    let a = lp_distance(R(2.0), &u, &v);
    let b = l2_distance(&u, &v);
    assert!((a.0 - b.0).abs() < 1e-12);
    assert_eq!(b, R(13.0));
}

#[test]
fn lp_large_p_approaches_linf() {
    let x = pt(0.0, 0.0);
    let y = pt(3.0, 4.0);
    let linf = linf_distance(&x, &y);
    let d = lp_distance(R(64.0), &x, &y);
    assert!((d.0 - linf.0).abs() < 1e-6);
    assert!(d >= linf);
}

#[test]
fn lp_nonnegative() {
    let x = [R(-1.0), R(2.5), R(0.0)];
    let y = [R(3.0), R(-7.0), R(0.125)];
    for p in [1.0, 1.5, 2.0, 3.0, 10.0] {
        assert!(lp_distance(R(p), &x, &y) >= R(0.0));
    }
}

#[test]
fn lp_identity() {
    let x = [R(-1.0), R(2.5), R(1e10)];
    for p in [1.0, 2.0, 3.0, 7.5] {
        assert_eq!(lp_distance(R(p), &x, &x), R(0.0));
    }
}

#[test]
fn lp_symmetric() {
    let x = [R(0.1), R(-2.7), R(33.0)];
    let y = [R(5.2), R(1.9), R(-0.3)];
    for p in [1.0, 2.0, 3.0, 4.5] {
        assert_eq!(lp_distance(R(p), &x, &y), lp_distance(R(p), &y, &x));
    }
}

#[test]
fn lp_zero_dimensional() {
    let x: [R; 0] = [];
    assert_eq!(lp_distance(R(2.0), &x, &x), R(0.0));
    assert_eq!(l1_distance(&x, &x), R(0.0));
    assert_eq!(l2_distance(&x, &x), R(0.0));
    assert_eq!(linf_distance(&x, &x), R(0.0));
}

#[test]
fn distances_over_vectors_and_slices() {
    let x: Vec<R> = vec![R(1.0), R(1.0)];
    let y: &[R] = &[R(4.0), R(5.0)];
    assert_eq!(l1_distance(&x, y), R(7.0));
    assert_eq!(l2_distance(&x, y), R(5.0));
    assert_eq!(linf_distance(&x, y), R(4.0));
    assert_eq!(lp_distance(R(1.0), &x, y), R(7.0));
}

#[test]
fn scalar_laws_hold_on_samples() {
    let vals = [0.0, -0.0, 1.0, -1.0, 0.1, -2.5, 3.0, 1e300, -1e-300, 123.456];
    for &a in vals.iter() {
        R::lemma_abs_diff_self(R(a));
        R::lemma_zero_powf(R(a));
        R::lemma_recip_positive(R(a));
        R::lemma_powf_one(R(a));
        R::lemma_abs_nonnegative(R(a));
        for &b in vals.iter() {
            R::lemma_abs_diff_symmetric(R(a), R(b));
            R::lemma_powf_nonnegative(R(a), R(b));
            R::lemma_plus_nonnegative(R(a), R(b));
        }
    }
    R::lemma_zero_plus_zero();
    R::lemma_recip_one();
    R::lemma_zero_nonnegative();
}
