use vstd::prelude::*;
use core::fmt::Debug;
use core::ops::{Add, Mul, Neg, Sub};

verus! {

/// A scalar that the kinematic primitives are generic over.
pub trait Num: Clone + Debug + Default + Ord + Neg<Output = Self> + Add<Output = Self> + Sub<Output = Self> + Mul<Output = Self> {
    /// A half turn (π radians) in this scalar.
    fn half_turn() -> Self;

    /// The negation of a half turn (−π radians) in this scalar.
    fn neg_half_turn() -> Self;

    /// The sine and the cosine of this value, taken as an angle in radians.
    fn sin_cos(self) -> (Self, Self);
}

} // verus!
