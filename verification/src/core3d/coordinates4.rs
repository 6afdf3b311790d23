use crate::core3d::array_base::ArrayBase;
use crate::core3d::scalar::{one, zero};
use vstd::prelude::*;
use vstd::std_specs::cmp::PartialEqSpec;
use vstd::std_specs::convert::FromSpec;

verus! {

/// A tuple `(x, y, z, w)` in space: a point where `w` is one, a vector where
/// `w` is zero.
pub trait Coordinates4: ArrayBase + Sized where Self::Item: Copy + PartialEq + From<i8> {
    /// The coordinate in slot `dim`.
    #[must_use]
    fn get_at(&self, dim: usize) -> (coordinate: Self::Item)
        requires
            dim < 4,
        ensures
            coordinate == self.array()[dim as int],
    {
        self.get_array_ref()[dim]
    }

    /// The first coordinate: to the right.
    #[must_use]
    fn x(&self) -> (x: Self::Item)
        ensures
            x == self.array()[0],
    {
        self.get_at(0)
    }

    /// The second coordinate: up.
    #[must_use]
    fn y(&self) -> (y: Self::Item)
        ensures
            y == self.array()[1],
    {
        self.get_at(1)
    }

    /// The third coordinate: away.
    #[must_use]
    fn z(&self) -> (z: Self::Item)
        ensures
            z == self.array()[2],
    {
        self.get_at(2)
    }

    /// The fourth coordinate, which tells points from vectors.
    #[must_use]
    fn w(&self) -> (w: Self::Item)
        ensures
            w == self.array()[3],
    {
        self.get_at(3)
    }

    /// Whether `w` equals one.
    #[must_use]
    fn is_point(&self) -> (point: bool)
        ensures
            <Self::Item as PartialEqSpec>::obeys_eq_spec() && <Self::Item as FromSpec<
                i8,
            >>::obeys_from_spec() ==> point == self.array()[3].eq_spec(&one::<Self::Item>()),
    {
        self.w() == Self::Item::from(1i8)
    }

    /// Whether `w` equals zero.
    #[must_use]
    fn is_vector(&self) -> (vector: bool)
        ensures
            <Self::Item as PartialEqSpec>::obeys_eq_spec() && <Self::Item as FromSpec<
                i8,
            >>::obeys_from_spec() ==> vector == self.array()[3].eq_spec(&zero::<Self::Item>()),
    {
        self.w() == Self::Item::from(0i8)
    }

    /// Whether the tuple is a point or a vector.
    fn is_valid(&self) -> (valid: bool)
        ensures
            <Self::Item as PartialEqSpec>::obeys_eq_spec() && <Self::Item as FromSpec<
                i8,
            >>::obeys_from_spec() ==> valid == (self.array()[3].eq_spec(&one::<Self::Item>())
                || self.array()[3].eq_spec(&zero::<Self::Item>())),
    {
        self.is_point() || self.is_vector()
    }
}

impl<T: Copy + PartialEq + From<i8>> Coordinates4 for [T; 4] {

}

} // verus!
