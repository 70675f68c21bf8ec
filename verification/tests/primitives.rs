use std::cmp::Ordering;
use std::ops::{Add, Mul, Neg, Sub};

use unicycle::num::Num;
use unicycle::primitives::{Control, Isometry, LinearAndAngular, Rotation, RotationError, SlewRate};

/// A plain radian value ordered totally, for exercising the generic primitives.
#[derive(Clone, Copy, Debug, Default, PartialEq)]
struct Rad(f64);

impl Eq for Rad {}

impl PartialOrd for Rad {
    fn partial_cmp(&self, other: &Self) -> Option<Ordering> {
        Some(self.cmp(other))
    }
}

impl Ord for Rad {
    fn cmp(&self, other: &Self) -> Ordering {
        self.0.partial_cmp(&other.0).unwrap()
    }
}

impl Neg for Rad {
    type Output = Rad;
    fn neg(self) -> Rad {
        Rad(-self.0)
    }
}

impl Add for Rad {
    type Output = Rad;
    fn add(self, rhs: Rad) -> Rad {
        Rad(self.0 + rhs.0)
    }
}

impl Sub for Rad {
    type Output = Rad;
    fn sub(self, rhs: Rad) -> Rad {
        Rad(self.0 - rhs.0)
    }
}

impl Mul for Rad {
    type Output = Rad;
    fn mul(self, rhs: Rad) -> Rad {
        Rad(self.0 * rhs.0)
    }
}

impl Num for Rad {
    fn half_turn() -> Rad {
        Rad(std::f64::consts::PI)
    }
    fn neg_half_turn() -> Rad {
        Rad(-std::f64::consts::PI)
    }
    fn sin_cos(self) -> (Rad, Rad) {
        let (s, c) = self.0.sin_cos();
        (Rad(s), Rad(c))
    }
}

#[test]
fn max_and_min_are_componentwise() {
    let a: Control<i64> = LinearAndAngular { linear: 3, angular: -2 };
    let b: Control<i64> = LinearAndAngular { linear: 1, angular: 5 };
    assert_eq!(a.max(b), LinearAndAngular { linear: 3, angular: 5 });
    assert_eq!(a.min(b), LinearAndAngular { linear: 1, angular: -2 });
}

#[test]
fn clamp_stays_between_bounds() {
    let lo = LinearAndAngular { linear: 0i64, angular: -10 };
    let hi = LinearAndAngular { linear: 10i64, angular: 10 };
    let x = LinearAndAngular { linear: 15i64, angular: -20 };
    assert_eq!(x.max(lo).min(hi), LinearAndAngular { linear: 10, angular: -10 });
    let inside = LinearAndAngular { linear: 4i64, angular: 7 };
    assert_eq!(inside.max(lo).min(hi), inside);
}

#[test]
fn arithmetic_is_componentwise() {
    let a: SlewRate<i64> = LinearAndAngular { linear: 6, angular: -4 };
    let b: SlewRate<i64> = LinearAndAngular { linear: 2, angular: 3 };
    assert_eq!(a + b, LinearAndAngular { linear: 8, angular: -1 });
    assert_eq!(a - b, LinearAndAngular { linear: 4, angular: -7 });
    assert_eq!(a * 3i64, LinearAndAngular { linear: 18, angular: -12 });
    assert_eq!(a / 2i64, LinearAndAngular { linear: 3, angular: -2 });
}

#[test]
fn rotation_accepts_the_principal_range() {
    let pi = std::f64::consts::PI;
    assert_eq!(Rotation::try_new(Rad(pi)).unwrap().value(), Rad(pi));
    assert_eq!(Rotation::try_new(Rad(0.5)).unwrap().value(), Rad(0.5));
    assert_eq!(Rotation::try_new(Rad(-pi + 1e-9)).unwrap().value(), Rad(-pi + 1e-9));
}

#[test]
fn rotation_rejects_outside_the_principal_range() {
    let pi = std::f64::consts::PI;
    assert_eq!(Rotation::try_new(Rad(-pi)), Err(RotationError::OutOfRange(Rad(-pi))));
    assert_eq!(Rotation::try_new(Rad(4.0)), Err(RotationError::OutOfRange(Rad(4.0))));
    assert_eq!(Rotation::try_new(Rad(-7.5)), Err(RotationError::OutOfRange(Rad(-7.5))));
}

#[test]
fn rotation_sin_cos_uses_the_scalar() {
    let r = Rotation::try_new(Rad(std::f64::consts::FRAC_PI_2)).unwrap();
    let (s, c) = r.sin_cos();
    assert!((s.0 - 1.0).abs() < 1e-12);
    assert!(c.0.abs() < 1e-12);
}

#[test]
fn default_rotation_is_zero() {
    let r: Rotation<Rad> = Rotation::default();
    assert_eq!(r.value(), Rad(0.0));
}

#[test]
fn isometry_constructors_fill_in_defaults() {
    let t = Isometry::forward_translation(Rad(2.5));
    assert_eq!(t.x, Rad(2.5));
    assert_eq!(t.y, Rad(0.0));
    assert_eq!(t.theta.value(), Rad(0.0));
    let theta = Rotation::try_new(Rad(1.0)).unwrap();
    let r = Isometry::rotation(theta);
    assert_eq!(r.x, Rad(0.0));
    assert_eq!(r.y, Rad(0.0));
    assert_eq!(r.theta, theta);
    let d: Isometry<Rad> = Isometry::default();
    assert_eq!(d, Isometry::forward_translation(Rad(0.0)));
}

#[test]
fn add_assign_is_componentwise() {
    let mut a = LinearAndAngular { linear: 1i64, angular: 2 };
    a += LinearAndAngular { linear: 10, angular: -5 };
    assert_eq!(a, LinearAndAngular { linear: 11, angular: -3 });
}
