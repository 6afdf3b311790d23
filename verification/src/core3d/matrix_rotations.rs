use crate::core3d::matrix::{Identity, Matrix};
use crate::core3d::model::{identity_cell, is_shape, rotation_of};
use crate::core3d::scalar::lawful_constants;
use std::ops::Neg;
use vstd::prelude::*;
use vstd::std_specs::ops::NegSpec;

verus! {

/// Building the matrices that turn around an axis, each from the cosine and
/// the sine of its angle.
pub trait Rotations<const ROW: usize, const COL: usize, T>: Sized where T: Neg<Output = T> {
    /// The rotation around the x axis: the identity with `cos_theta`,
    /// `-sin_theta`, `sin_theta`, `cos_theta` in the block of rows and
    /// columns 1 and 2.
    #[must_use]
    fn rotation_around_x_axis(cos_theta: T, sin_theta: T) -> Self
        requires
            ROW > 2 && COL > 2,
            sin_theta.neg_req(),
    ;

    /// The rotation around the y axis: the identity with `cos_theta`,
    /// `sin_theta`, `-sin_theta`, `cos_theta` in the block of rows and
    /// columns 0 and 2.
    #[must_use]
    fn rotation_around_y_axis(cos_theta: T, sin_theta: T) -> Self
        requires
            ROW > 2 && COL > 2,
            sin_theta.neg_req(),
    ;

    /// The rotation around the z axis: the identity with `cos_theta`,
    /// `-sin_theta`, `sin_theta`, `cos_theta` in the block of rows and
    /// columns 0 and 1.
    #[must_use]
    fn rotation_around_z_axis(cos_theta: T, sin_theta: T) -> Self
        requires
            ROW > 1 && COL > 1,
            sin_theta.neg_req(),
    ;
}

/// `matrix` is an identity but for the block of rows and columns `i < j`,
/// which holds `cos` on its diagonal, `at_ij` at `(i, j)` and `at_ji` at
/// `(j, i)`.
pub open spec fn is_rotation<T: Default + From<i8>>(
    matrix: Seq<Seq<T>>,
    i: int,
    j: int,
    cos: T,
    at_ij: T,
    at_ji: T,
) -> bool {
    forall|r: int, c: int|
        0 <= r < matrix.len() && 0 <= c < matrix.len() ==> if (r == i && c == i) || (r == j && c
            == j) {
            #[trigger] matrix[r][c] == cos
        } else if r == i && c == j {
            #[trigger] matrix[r][c] == at_ij
        } else if r == j && c == i {
            #[trigger] matrix[r][c] == at_ji
        } else {
            identity_cell(r, c, #[trigger] matrix[r][c])
        }
}

impl<const N: usize, T> Rotations<N, N, T> for Matrix<N, N, T> where
    T: Default + Copy + From<i8> + Neg<Output = T>,
 {
    fn rotation_around_x_axis(cos_theta: T, sin_theta: T) -> (matrix: Self)
        ensures
            is_shape(matrix@, N as nat, N as nat),
            is_rotation(matrix@, 1, 2, cos_theta, matrix@[1][2], sin_theta),
            call_ensures(T::neg, (sin_theta,), matrix@[1][2]),
            lawful_constants::<T>() && T::obeys_neg_spec() ==> matrix@ == rotation_of(
                N as nat,
                1,
                2,
                cos_theta,
                sin_theta.neg_spec(),
                sin_theta,
            ),
    {
        let mut matrix = Self::identity();
        matrix.set(1, 1, cos_theta);
        matrix.set(1, 2, sin_theta.neg());
        matrix.set(2, 1, sin_theta);
        matrix.set(2, 2, cos_theta);
        assert(lawful_constants::<T>() && T::obeys_neg_spec() ==> matrix@ =~~= rotation_of(
            N as nat,
            1,
            2,
            cos_theta,
            sin_theta.neg_spec(),
            sin_theta,
        ));
        matrix
    }

    fn rotation_around_y_axis(cos_theta: T, sin_theta: T) -> (matrix: Self)
        ensures
            is_shape(matrix@, N as nat, N as nat),
            is_rotation(matrix@, 0, 2, cos_theta, sin_theta, matrix@[2][0]),
            call_ensures(T::neg, (sin_theta,), matrix@[2][0]),
            lawful_constants::<T>() && T::obeys_neg_spec() ==> matrix@ == rotation_of(
                N as nat,
                0,
                2,
                cos_theta,
                sin_theta,
                sin_theta.neg_spec(),
            ),
    {
        let mut matrix = Self::identity();
        matrix.set(0, 0, cos_theta);
        matrix.set(0, 2, sin_theta);
        matrix.set(2, 0, sin_theta.neg());
        matrix.set(2, 2, cos_theta);
        assert(lawful_constants::<T>() && T::obeys_neg_spec() ==> matrix@ =~~= rotation_of(
            N as nat,
            0,
            2,
            cos_theta,
            sin_theta,
            sin_theta.neg_spec(),
        ));
        matrix
    }

    fn rotation_around_z_axis(cos_theta: T, sin_theta: T) -> (matrix: Self)
        ensures
            is_shape(matrix@, N as nat, N as nat),
            is_rotation(matrix@, 0, 1, cos_theta, matrix@[0][1], sin_theta),
            call_ensures(T::neg, (sin_theta,), matrix@[0][1]),
            lawful_constants::<T>() && T::obeys_neg_spec() ==> matrix@ == rotation_of(
                N as nat,
                0,
                1,
                cos_theta,
                sin_theta.neg_spec(),
                sin_theta,
            ),
    {
        let mut matrix = Self::identity();
        matrix.set(0, 0, cos_theta);
        matrix.set(0, 1, sin_theta.neg());
        matrix.set(1, 0, sin_theta);
        matrix.set(1, 1, cos_theta);
        assert(lawful_constants::<T>() && T::obeys_neg_spec() ==> matrix@ =~~= rotation_of(
            N as nat,
            0,
            1,
            cos_theta,
            sin_theta.neg_spec(),
            sin_theta,
        ));
        matrix
    }
}

} // verus!
