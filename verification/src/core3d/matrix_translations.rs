use crate::core3d::matrix::{Identity, Matrix};
use crate::core3d::model::{identity_cell, translation_of};
use crate::core3d::scalar::{lawful_constants, zero};
use vstd::prelude::*;

verus! {

/// Building the matrix that moves points.
pub trait Translation<const ROW: usize, const COL: usize, T>: Sized where T: From<i8> {
    /// The translation by `(x, y, z)`: the identity with `x`, `y` and `z`
    /// down the first three cells of its last column. A matrix with fewer
    /// than three rows has no cell for the last of them, which then have to
    /// be zero.
    #[must_use]
    fn translation(x: T, y: T, z: T) -> Self
        requires
            ROW < 1 ==> x == zero::<T>(),
            ROW < 2 ==> y == zero::<T>(),
            ROW < 3 ==> z == zero::<T>(),
    ;
}

impl<const N: usize, T> Translation<N, N, T> for Matrix<N, N, T> where
    T: Default + Copy + From<i8>,
 {
    fn translation(x: T, y: T, z: T) -> (matrix: Self)
        ensures
            forall|r: int, c: int|
                0 <= r < N && 0 <= c < N ==> if c == N - 1 && r == 0 {
                    #[trigger] matrix@[r][c] == x
                } else if c == N - 1 && r == 1 {
                    #[trigger] matrix@[r][c] == y
                } else if c == N - 1 && r == 2 {
                    #[trigger] matrix@[r][c] == z
                } else {
                    identity_cell(r, c, #[trigger] matrix@[r][c])
                },
            lawful_constants::<T>() ==> matrix@ == translation_of(N as nat, x, y, z),
    {
        let mut matrix = Self::identity();
        if N > 0 {
            matrix.set(0, N - 1, x);
        }
        if N > 1 {
            matrix.set(1, N - 1, y);
        }
        if N > 2 {
            matrix.set(2, N - 1, z);
        }
        assert(lawful_constants::<T>() ==> matrix@ =~~= translation_of(N as nat, x, y, z));
        matrix
    }
}

} // verus!
