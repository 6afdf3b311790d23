use crate::core3d::matrix::{Identity, Matrix};
use crate::core3d::model::{identity_cell, scaling_of};
use crate::core3d::scalar::lawful_constants;
use vstd::prelude::*;

verus! {

/// Building the matrix that stretches or shrinks along the axes.
pub trait Scaling<const ROW: usize, const COL: usize, T>: Sized {
    /// The scaling by `(x, y, z)`: the identity with `x`, `y` and `z` down
    /// the first three cells of its diagonal. A factor for which the matrix
    /// has no diagonal cell is left out.
    #[must_use]
    fn scaling(x: T, y: T, z: T) -> Self;
}

impl<const N: usize, T> Scaling<N, N, T> for Matrix<N, N, T> where T: Default + Copy + From<i8> {
    fn scaling(x: T, y: T, z: T) -> (matrix: Self)
        ensures
            forall|r: int, c: int|
                0 <= r < N && 0 <= c < N ==> if r == 0 && c == 0 {
                    #[trigger] matrix@[r][c] == x
                } else if r == 1 && c == 1 {
                    #[trigger] matrix@[r][c] == y
                } else if r == 2 && c == 2 {
                    #[trigger] matrix@[r][c] == z
                } else {
                    identity_cell(r, c, #[trigger] matrix@[r][c])
                },
            lawful_constants::<T>() ==> matrix@ == scaling_of(N as nat, x, y, z),
    {
        let mut matrix = Self::identity();
        if N > 0 {
            matrix.set(0, 0, x);
        }
        if N > 1 {
            matrix.set(1, 1, y);
        }
        if N > 2 {
            matrix.set(2, 2, z);
        }
        assert(lawful_constants::<T>() ==> matrix@ =~~= scaling_of(N as nat, x, y, z));
        matrix
    }
}

} // verus!
