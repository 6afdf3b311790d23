use crate::core3d::array_base::ArrayBase;
use vstd::prelude::*;

verus! {

/// A color of a red, a green and a blue component, kept in the first three
/// of four slots.
pub trait ColorRGB: ArrayBase + Sized where Self::Item: Copy {
    /// The component in slot `dim`.
    #[must_use]
    fn get_at(&self, dim: usize) -> (component: Self::Item)
        requires
            dim < 4,
        ensures
            component == self.array()[dim as int],
    {
        self.get_array_ref()[dim]
    }

    /// The red component.
    #[must_use]
    fn r(&self) -> (r: Self::Item)
        ensures
            r == self.array()[0],
    {
        self.get_at(0)
    }

    /// The green component.
    #[must_use]
    fn g(&self) -> (g: Self::Item)
        ensures
            g == self.array()[1],
    {
        self.get_at(1)
    }

    /// The blue component.
    #[must_use]
    fn b(&self) -> (b: Self::Item)
        ensures
            b == self.array()[2],
    {
        self.get_at(2)
    }
}

impl<T: Copy> ColorRGB for [T; 4] {

}

} // verus!
