use vstd::prelude::*;
use core::ops::{Add, AddAssign, Div, Mul, Sub};
use vstd::laws_cmp::obeys_cmp;
use vstd::pervasive::strictly_cloned;
use vstd::std_specs::cmp::{OrdSpec, PartialEqSpec, PartialOrdSpec};
use vstd::std_specs::ops::{AddSpec, AddSpecImpl, DivSpec, DivSpecImpl, MulSpec, MulSpecImpl, SubSpec, SubSpecImpl};

verus! {

/// A pair of quantities, one for linear motion and one for angular motion.
/// Used both for controls (velocities) and for slew rates (accelerations).
#[derive(Clone, Copy, Debug, Default, PartialEq)]
pub struct LinearAndAngular<T> {
    pub linear: T,
    pub angular: T,
}

/// Linear and angular velocity.
pub type Control<T> = LinearAndAngular<T>;

/// Linear and angular acceleration.
pub type SlewRate<T> = LinearAndAngular<T>;

/// The larger of two values under `T`'s ordering; `b` when they compare equal.
pub open spec fn max_of<T: Ord>(a: T, b: T) -> T {
    match b.cmp_spec(&a) {
        core::cmp::Ordering::Less => a,
        _ => b,
    }
}

/// The smaller of two values under `T`'s ordering; `a` when they compare equal.
pub open spec fn min_of<T: Ord>(a: T, b: T) -> T {
    match b.cmp_spec(&a) {
        core::cmp::Ordering::Less => b,
        _ => a,
    }
}

/// `a` is at most `b` under `T`'s ordering.
pub open spec fn at_most<T: Ord>(a: T, b: T) -> bool {
    match a.cmp_spec(&b) {
        core::cmp::Ordering::Greater => false,
        _ => true,
    }
}

impl<T: Ord> LinearAndAngular<T> {
    /// Componentwise maximum.
    pub open spec fn max_spec(self, other: Self) -> Self {
        LinearAndAngular {
            linear: max_of(self.linear, other.linear),
            angular: max_of(self.angular, other.angular),
        }
    }

    /// Componentwise minimum.
    pub open spec fn min_spec(self, other: Self) -> Self {
        LinearAndAngular {
            linear: min_of(self.linear, other.linear),
            angular: min_of(self.angular, other.angular),
        }
    }

    /// Both components of `self` are at most those of `other`.
    pub open spec fn componentwise_at_most(self, other: Self) -> bool {
        at_most(self.linear, other.linear) && at_most(self.angular, other.angular)
    }

    /// The componentwise maximum of two pairs.
    pub fn max(self, other: Self) -> (r: Self)
        ensures
            T::obeys_cmp_spec() ==> r == self.max_spec(other),
            obeys_cmp::<T>() ==> is_larger_of(r.linear, self.linear, other.linear),
            obeys_cmp::<T>() ==> is_larger_of(r.angular, self.angular, other.angular),
    {
        proof {
            if obeys_cmp::<T>() {
                reveal(vstd::laws_cmp::obeys_cmp_ord);
                lemma_max_is_componentwise(self, other);
            }
        }
        Self { linear: self.linear.max(other.linear), angular: self.angular.max(other.angular) }
    }

    /// The componentwise minimum of two pairs.
    pub fn min(self, other: Self) -> (r: Self)
        ensures
            T::obeys_cmp_spec() ==> r == self.min_spec(other),
            obeys_cmp::<T>() ==> is_smaller_of(r.linear, self.linear, other.linear),
            obeys_cmp::<T>() ==> is_smaller_of(r.angular, self.angular, other.angular),
    {
        proof {
            if obeys_cmp::<T>() {
                reveal(vstd::laws_cmp::obeys_cmp_ord);
                lemma_min_is_componentwise(self, other);
            }
        }
        Self { linear: self.linear.min(other.linear), angular: self.angular.min(other.angular) }
    }
}

/// Clamping a pair first from below by `lo` and then from above by `hi`, as
/// `x.max(lo).min(hi)` does, gives a pair that lies componentwise between
/// `lo` and `hi`, whenever `lo` is componentwise at most `hi`.
pub proof fn lemma_clamp_between<T: Ord>(
    x: LinearAndAngular<T>,
    lo: LinearAndAngular<T>,
    hi: LinearAndAngular<T>,
)
    requires
        obeys_cmp::<T>(),
        lo.componentwise_at_most(hi),
    ensures
        lo.componentwise_at_most(x.max_spec(lo).min_spec(hi)),
        x.max_spec(lo).min_spec(hi).componentwise_at_most(hi),
{
    lemma_clamp_scalar(x.linear, lo.linear, hi.linear);
    lemma_clamp_scalar(x.angular, lo.angular, hi.angular);
}

proof fn lemma_clamp_scalar<T: Ord>(x: T, lo: T, hi: T)
    requires
        obeys_cmp::<T>(),
        at_most(lo, hi),
    ensures
        at_most(lo, min_of(max_of(x, lo), hi)),
        at_most(min_of(max_of(x, lo), hi), hi),
{
    reveal(vstd::laws_cmp::obeys_cmp_ord);
    reveal(vstd::laws_cmp::obeys_cmp_partial_ord);
    reveal(vstd::laws_cmp::obeys_partial_cmp_spec_properties);
    reveal(vstd::laws_eq::obeys_eq_spec_properties);
    let m = max_of(x, lo);
    let c = min_of(m, hi);
    assert(at_most(lo, m));
    assert(at_most(c, hi));
    assert(at_most(lo, c));
}

/// `r` is the larger of `a` and `b`: at least each of them, and one of them.
pub open spec fn is_larger_of<T: Ord>(r: T, a: T, b: T) -> bool {
    &&& !(r.cmp_spec(&a) is Less)
    &&& !(r.cmp_spec(&b) is Less)
    &&& (r == a || r == b)
}

/// `r` is the smaller of `a` and `b`: at most each of them, and one of them.
pub open spec fn is_smaller_of<T: Ord>(r: T, a: T, b: T) -> bool {
    &&& !(r.cmp_spec(&a) is Greater)
    &&& !(r.cmp_spec(&b) is Greater)
    &&& (r == a || r == b)
}

proof fn lemma_scalar_max_min<T: Ord>(a: T, b: T)
    requires
        obeys_cmp::<T>(),
    ensures
        is_larger_of(max_of(a, b), a, b),
        is_smaller_of(min_of(a, b), a, b),
{
    reveal(vstd::laws_cmp::obeys_cmp_ord);
    reveal(vstd::laws_cmp::obeys_cmp_partial_ord);
    reveal(vstd::laws_cmp::obeys_partial_cmp_spec_properties);
    reveal(vstd::laws_eq::obeys_eq_spec_properties);
    assert(a.eq_spec(&a));
    assert(b.eq_spec(&b));
    assert(a.partial_cmp_spec(&b) == Some(a.cmp_spec(&b)));
    assert(b.partial_cmp_spec(&a) == Some(b.cmp_spec(&a)));
    assert(a.partial_cmp_spec(&a) == Some(a.cmp_spec(&a)));
    assert(b.partial_cmp_spec(&b) == Some(b.cmp_spec(&b)));
}

/// The componentwise maximum of two pairs has, in each component, the larger
/// of the two values of that component: at least both, and one of them,
/// whatever the other component holds.
pub proof fn lemma_max_is_componentwise<T: Ord>(a: LinearAndAngular<T>, b: LinearAndAngular<T>)
    requires
        obeys_cmp::<T>(),
    ensures
        is_larger_of(a.max_spec(b).linear, a.linear, b.linear),
        is_larger_of(a.max_spec(b).angular, a.angular, b.angular),
{
    lemma_scalar_max_min(a.linear, b.linear);
    lemma_scalar_max_min(a.angular, b.angular);
}

/// The componentwise minimum of two pairs has, in each component, the smaller
/// of the two values of that component: at most both, and one of them,
/// whatever the other component holds.
pub proof fn lemma_min_is_componentwise<T: Ord>(a: LinearAndAngular<T>, b: LinearAndAngular<T>)
    requires
        obeys_cmp::<T>(),
    ensures
        is_smaller_of(a.min_spec(b).linear, a.linear, b.linear),
        is_smaller_of(a.min_spec(b).angular, a.angular, b.angular),
{
    lemma_scalar_max_min(a.linear, b.linear);
    lemma_scalar_max_min(a.angular, b.angular);
}

/// Each component of the maximum and of the minimum depends on that component
/// of the two pairs alone: pairs that agree in one component give maxima and
/// minima that agree in it, whatever the other component holds.
pub proof fn lemma_components_independent<T: Ord>(
    a: LinearAndAngular<T>,
    b: LinearAndAngular<T>,
    c: LinearAndAngular<T>,
    d: LinearAndAngular<T>,
)
    ensures
        a.angular == c.angular && b.angular == d.angular ==> a.max_spec(b).angular == c.max_spec(d).angular
            && a.min_spec(b).angular == c.min_spec(d).angular,
        a.linear == c.linear && b.linear == d.linear ==> a.max_spec(b).linear == c.max_spec(d).linear
            && a.min_spec(b).linear == c.min_spec(d).linear,
{
}

impl<T: Add<Output = T>> Add for LinearAndAngular<T> {
    type Output = Self;

    fn add(self, rhs: Self) -> (r: Self) {
        Self { linear: self.linear + rhs.linear, angular: self.angular + rhs.angular }
    }
}

impl<T: Add<Output = T>> AddSpecImpl for LinearAndAngular<T> {
    open spec fn obeys_add_spec() -> bool {
        T::obeys_add_spec()
    }

    open spec fn add_req(self, rhs: Self) -> bool {
        self.linear.add_req(rhs.linear) && self.angular.add_req(rhs.angular)
    }

    open spec fn add_spec(self, rhs: Self) -> Self {
        LinearAndAngular {
            linear: self.linear.add_spec(rhs.linear),
            angular: self.angular.add_spec(rhs.angular),
        }
    }
}

impl<T: Copy + Add<Output = T>> AddAssign for LinearAndAngular<T> {
    fn add_assign(&mut self, rhs: Self)
        requires
            old(self).linear.add_req(rhs.linear),
            old(self).angular.add_req(rhs.angular),
        ensures
            T::obeys_add_spec() ==> final(self).linear == old(self).linear.add_spec(rhs.linear),
            T::obeys_add_spec() ==> final(self).angular == old(self).angular.add_spec(rhs.angular),
    {
        *self = *self + rhs;
    }
}

impl<T: Sub<Output = T>> Sub for LinearAndAngular<T> {
    type Output = Self;

    fn sub(self, rhs: Self) -> (r: Self) {
        Self { linear: self.linear - rhs.linear, angular: self.angular - rhs.angular }
    }
}

impl<T: Sub<Output = T>> SubSpecImpl for LinearAndAngular<T> {
    open spec fn obeys_sub_spec() -> bool {
        T::obeys_sub_spec()
    }

    open spec fn sub_req(self, rhs: Self) -> bool {
        self.linear.sub_req(rhs.linear) && self.angular.sub_req(rhs.angular)
    }

    open spec fn sub_spec(self, rhs: Self) -> Self {
        LinearAndAngular {
            linear: self.linear.sub_spec(rhs.linear),
            angular: self.angular.sub_spec(rhs.angular),
        }
    }
}

/// Cloning a value of `Rhs` always gives that same value back.
pub open spec fn clone_keeps_value<Rhs: Clone>() -> bool {
    forall|a: Rhs, b: Rhs| #[trigger] strictly_cloned(a, b) ==> a == b
}

impl<T: Mul<Rhs, Output = T>, Rhs: Clone> Mul<Rhs> for LinearAndAngular<T> {
    type Output = Self;

    fn mul(self, rhs: Rhs) -> (r: Self) {
        let copy = rhs.clone();
        proof {
            assert(strictly_cloned(rhs, copy));
        }
        Self { linear: self.linear * copy, angular: self.angular * rhs }
    }
}

impl<T: Mul<Rhs, Output = T>, Rhs: Clone> MulSpecImpl<Rhs> for LinearAndAngular<T> {
    open spec fn obeys_mul_spec() -> bool {
        T::obeys_mul_spec() && clone_keeps_value::<Rhs>()
    }

    open spec fn mul_req(self, rhs: Rhs) -> bool {
        &&& forall|copy: Rhs| #[trigger] strictly_cloned(rhs, copy) ==> self.linear.mul_req(copy)
        &&& self.angular.mul_req(rhs)
    }

    open spec fn mul_spec(self, rhs: Rhs) -> Self {
        LinearAndAngular {
            linear: self.linear.mul_spec(rhs),
            angular: self.angular.mul_spec(rhs),
        }
    }
}

impl<T: Div<Rhs, Output = T>, Rhs: Clone> Div<Rhs> for LinearAndAngular<T> {
    type Output = Self;

    fn div(self, rhs: Rhs) -> (r: Self) {
        let copy = rhs.clone();
        proof {
            assert(strictly_cloned(rhs, copy));
        }
        Self { linear: self.linear / copy, angular: self.angular / rhs }
    }
}

impl<T: Div<Rhs, Output = T>, Rhs: Clone> DivSpecImpl<Rhs> for LinearAndAngular<T> {
    open spec fn obeys_div_spec() -> bool {
        T::obeys_div_spec() && clone_keeps_value::<Rhs>()
    }

    open spec fn div_req(self, rhs: Rhs) -> bool {
        &&& forall|copy: Rhs| #[trigger] strictly_cloned(rhs, copy) ==> self.linear.div_req(copy)
        &&& self.angular.div_req(rhs)
    }

    open spec fn div_spec(self, rhs: Rhs) -> Self {
        LinearAndAngular {
            linear: self.linear.div_spec(rhs),
            angular: self.angular.div_spec(rhs),
        }
    }
}

} // verus!
