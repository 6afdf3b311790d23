use crate::core3d::matrix::{Identity, Matrix};
use crate::core3d::model::{identity_cell, shearing_of};
use crate::core3d::scalar::lawful_constants;
use vstd::prelude::*;

verus! {

/// Building the matrix that slants one axis in proportion to another.
pub trait Shearing<const ROW: usize, const COL: usize, T>: Sized {
    /// The shearing that moves `x` by `x_y` for each unit of `y` and by `x_z`
    /// for each unit of `z`, and `y` and `z` likewise: the identity with
    /// these six cells set off the diagonal of its upper left 3 by 3 block.
    #[must_use]
    fn shearing(x_y: T, x_z: T, y_x: T, y_z: T, z_x: T, z_y: T) -> Self
        requires
            ROW >= 3,
            COL >= 3,
    ;
}

impl<const N: usize, T> Shearing<N, N, T> for Matrix<N, N, T> where T: Default + Copy + From<i8> {
    fn shearing(x_y: T, x_z: T, y_x: T, y_z: T, z_x: T, z_y: T) -> (matrix: Self)
        ensures
            forall|r: int, c: int|
                0 <= r < N && 0 <= c < N ==> if r == 0 && c == 1 {
                    #[trigger] matrix@[r][c] == x_y
                } else if r == 0 && c == 2 {
                    #[trigger] matrix@[r][c] == x_z
                } else if r == 1 && c == 0 {
                    #[trigger] matrix@[r][c] == y_x
                } else if r == 1 && c == 2 {
                    #[trigger] matrix@[r][c] == y_z
                } else if r == 2 && c == 0 {
                    #[trigger] matrix@[r][c] == z_x
                } else if r == 2 && c == 1 {
                    #[trigger] matrix@[r][c] == z_y
                } else {
                    identity_cell(r, c, #[trigger] matrix@[r][c])
                },
            lawful_constants::<T>() ==> matrix@ == shearing_of(
                N as nat,
                x_y,
                x_z,
                y_x,
                y_z,
                z_x,
                z_y,
            ),
    {
        let mut matrix = Self::identity();
        matrix.set(0, 1, x_y);
        matrix.set(0, 2, x_z);
        matrix.set(1, 0, y_x);
        matrix.set(1, 2, y_z);
        matrix.set(2, 0, z_x);
        matrix.set(2, 1, z_y);
        assert(lawful_constants::<T>() ==> matrix@ =~~= shearing_of(
            N as nat,
            x_y,
            x_z,
            y_x,
            y_z,
            z_x,
            z_y,
        ));
        matrix
    }
}

} // verus!
