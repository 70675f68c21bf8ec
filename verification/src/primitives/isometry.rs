use vstd::prelude::*;
use crate::primitives::rotation::{is_default, Rotation};

verus! {

/// A rigid motion of the plane: a translation by (`x`, `y`) after a rotation by `theta`.
#[derive(Clone, Copy, Debug, PartialEq)]
pub struct Isometry<T> {
    pub x: T,
    pub y: T,
    pub theta: Rotation<T>,
}

impl<T: Default> Default for Isometry<T> {
    fn default() -> (r: Self)
        ensures
            is_default(r.x),
            is_default(r.y),
            is_default(r.theta@),
    {
        Isometry { x: T::default(), y: T::default(), theta: Rotation::default() }
    }
}

impl<T: Default> Isometry<T> {
    /// A pure translation by `x` along the heading, with `y` and `theta` at their defaults.
    pub fn forward_translation(x: T) -> (r: Self)
        ensures
            r.x == x,
            is_default(r.y),
            is_default(r.theta@),
    {
        Isometry { x, y: T::default(), theta: Rotation::default() }
    }

    /// A pure rotation by `theta`, with `x` and `y` at their defaults.
    pub fn rotation(theta: Rotation<T>) -> (r: Self)
        ensures
            r.theta == theta,
            is_default(r.x),
            is_default(r.y),
    {
        Isometry { x: T::default(), y: T::default(), theta }
    }
}

} // verus!
