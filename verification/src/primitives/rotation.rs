use vstd::prelude::*;
use vstd::std_specs::cmp::{PartialOrdIs, PartialOrdSpec};
use crate::num::Num;

verus! {

/// An angle held in the principal range (−π, π] of its scalar type.
///
/// Apart from the default rotation, the only way to make one from a value is
/// `try_new`, which checks the range with the scalar's own comparison against
/// the scalar's half turns.
#[derive(Clone, Copy, Debug, PartialEq)]
pub struct Rotation<T>(T);

impl<T> View for Rotation<T> {
    type V = T;

    closed spec fn view(&self) -> T {
        self.0
    }
}

/// Why a value could not become a `Rotation`.
#[derive(Clone, Copy, Debug, PartialEq, Eq)]
pub enum RotationError<T> {
    /// The value, held here, lies outside (−π, π].
    OutOfRange(T),
}

/// `v` is what `T::default()` gives.
pub open spec fn is_default<T: Default>(v: T) -> bool {
    call_ensures(T::default, (), v)
}

/// `value` lies in (`lo`, `hi`] under `T`'s ordering.
pub open spec fn in_half_open_range<T: PartialOrd>(value: T, lo: T, hi: T) -> bool {
    value.is_gt(&lo) && value.is_le(&hi)
}

/// `value` lies in (−π, π] for the half turns −π and π that the scalar gives.
pub open spec fn is_principal_angle<T: Num>(value: T) -> bool {
    exists|lo: T, hi: T|
        #![trigger call_ensures(T::neg_half_turn, (), lo), call_ensures(T::half_turn, (), hi)]
        {
            &&& call_ensures(T::neg_half_turn, (), lo)
            &&& call_ensures(T::half_turn, (), hi)
            &&& in_half_open_range(value, lo, hi)
        }
}

impl<T: Num> Rotation<T> {
    /// The rotation by `value` radians, provided −π < `value` ≤ π; otherwise
    /// `RotationError::OutOfRange` holding the value.
    pub fn try_new(value: T) -> (r: Result<Self, RotationError<T>>)
        ensures
            r matches Ok(rot) ==> rot@ == value,
            r matches Err(RotationError::OutOfRange(v)) ==> v == value,
            r matches Ok(rot) ==> (T::obeys_partial_cmp_spec() ==> is_principal_angle(rot@)),
            exists|lo: T, hi: T|
                #![trigger call_ensures(T::neg_half_turn, (), lo), call_ensures(T::half_turn, (), hi)]
                {
                    &&& call_ensures(T::neg_half_turn, (), lo)
                    &&& call_ensures(T::half_turn, (), hi)
                    &&& T::obeys_partial_cmp_spec() ==> (r is Ok <==> in_half_open_range(value, lo, hi))
                },
    {
        let lo = T::neg_half_turn();
        let hi = T::half_turn();
        if value > lo && value <= hi {
            Ok(Rotation(value))
        } else {
            Err(RotationError::OutOfRange(value))
        }
    }

    /// The sine and cosine of the angle, as the scalar type computes them.
    pub fn sin_cos(self) -> (r: (T, T))
        ensures
            call_ensures(T::sin_cos, (self@,), r),
    {
        self.0.sin_cos()
    }

    /// The angle in radians, in the range (−π, π].
    pub fn value(&self) -> (r: T)
        ensures
            cloned(self@, r),
    {
        self.0.clone()
    }
}

impl<T: Default> Default for Rotation<T> {
    fn default() -> (r: Self)
        ensures
            is_default(r@),
    {
        Rotation(T::default())
    }
}

} // verus!
