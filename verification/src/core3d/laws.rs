use crate::core3d::matrix::Matrix;
use crate::core3d::model::{
    cofactor_of, column_of, determinant_of, expansion_of, identity_of, minor_of, submatrix_of,
    transpose_of,
};
use crate::core3d::scalar::{lawful, one, zero, Scalar};
use vstd::prelude::*;
use vstd::std_specs::ops::{AddSpec, MulSpec, NegSpec, SubSpec};

verus! {

/// In `T`, `zero()` and `one()` are neutral: adding `zero()` on either side,
/// subtracting it, or multiplying by `one()` on the left changes nothing, and
/// `zero()` times anything is `zero()`.
pub open spec fn unital<T: Scalar>() -> bool {
    &&& forall|x: T| #[trigger] zero::<T>().add_spec(x) == x
    &&& forall|x: T| #[trigger] x.add_spec(zero::<T>()) == x
    &&& forall|x: T| #[trigger] x.sub_spec(zero::<T>()) == x
    &&& forall|x: T| #[trigger] one::<T>().mul_spec(x) == x
    &&& forall|x: T| #[trigger] zero::<T>().mul_spec(x) == zero::<T>()
}

/// The 64-bit signed integers are lawful scalars with neutral `0` and `1`.
pub proof fn lemma_i64_lawful_unital()
    ensures
        lawful::<i64>(),
        unital::<i64>(),
        zero::<i64>() == 0,
        one::<i64>() == 1,
{
    assert forall|x: i64| #[trigger] zero::<i64>().add_spec(x) == x by {}
    assert forall|x: i64| #[trigger] x.add_spec(zero::<i64>()) == x by {}
    assert forall|x: i64| #[trigger] x.sub_spec(zero::<i64>()) == x by {}
    assert forall|x: i64| #[trigger] one::<i64>().mul_spec(x) == x by {
        assert(one::<i64>() * x == x) by (nonlinear_arith)
            requires
                one::<i64>() == 1,
        ;
    }
    assert forall|x: i64| #[trigger] zero::<i64>().mul_spec(x) == zero::<i64>() by {
        assert(zero::<i64>() * x == 0) by (nonlinear_arith)
            requires
                zero::<i64>() == 0,
        ;
    }
}

/// The 32-bit signed integers are lawful scalars with neutral `0` and `1`.
pub proof fn lemma_i32_lawful_unital()
    ensures
        lawful::<i32>(),
        unital::<i32>(),
        zero::<i32>() == 0,
        one::<i32>() == 1,
{
    assert forall|x: i32| #[trigger] zero::<i32>().add_spec(x) == x by {}
    assert forall|x: i32| #[trigger] x.add_spec(zero::<i32>()) == x by {}
    assert forall|x: i32| #[trigger] x.sub_spec(zero::<i32>()) == x by {}
    assert forall|x: i32| #[trigger] one::<i32>().mul_spec(x) == x by {
        assert(one::<i32>() * x == x) by (nonlinear_arith)
            requires
                one::<i32>() == 1,
        ;
    }
    assert forall|x: i32| #[trigger] zero::<i32>().mul_spec(x) == zero::<i32>() by {
        assert(zero::<i32>() * x == 0) by (nonlinear_arith)
            requires
                zero::<i32>() == 0,
        ;
    }
}

/// Transposing a square matrix twice gives the matrix back.
pub proof fn lemma_transpose_involution<const N: usize, T>(m: Matrix<N, N, T>)
    ensures
        transpose_of(transpose_of(m@)) == m@,
{
    let t = transpose_of(m@);
    if N > 0 {
        assert(m@[0].len() == N);
        assert(t.len() == N);
        assert(t[0] == column_of(m@, 0));
        assert forall|r: int| 0 <= r < N implies #[trigger] transpose_of(t)[r] == m@[r] by {
            assert(m@[r].len() == N);
            assert forall|c: int| 0 <= c < N implies transpose_of(t)[r][c] == m@[r][c] by {
                assert(t[c] == column_of(m@, c));
            }
            assert(transpose_of(t)[r] =~= m@[r]);
        }
        assert(transpose_of(t) =~= m@);
    }
}

/// An identity matrix without its row 0 and its column 0 is the identity
/// matrix one size smaller.
proof fn lemma_identity_submatrix<T: Scalar>(n: nat)
    requires
        n >= 1,
    ensures
        submatrix_of(identity_of::<T>(n), 0, 0) == identity_of::<T>((n - 1) as nat),
{
    assert(submatrix_of(identity_of::<T>(n), 0, 0) =~~= identity_of::<T>((n - 1) as nat));
}

/// Each partial sum of the expansion of an identity matrix along row 0, from
/// the first term on, is `one()`.
proof fn lemma_identity_expansion<T: Scalar>(n: nat, k: nat)
    requires
        unital::<T>(),
        n >= 2,
        1 <= k <= n,
        determinant_of(identity_of::<T>((n - 1) as nat)) == one::<T>(),
    ensures
        expansion_of(identity_of::<T>(n), k) == one::<T>(),
    decreases k,
{
    let m = identity_of::<T>(n);
    if k == 1 {
        lemma_identity_submatrix::<T>(n);
        assert(expansion_of(m, 0) == zero::<T>());
        assert(cofactor_of(m, 0, 0) == minor_of(m, 0, 0));
        assert(minor_of(m, 0, 0) == determinant_of(submatrix_of(m, 0, 0)));
        assert(m[0][0] == one::<T>());
        assert(expansion_of(m, 1) == expansion_of(m, 0).add_spec(
            m[0][0].mul_spec(cofactor_of(m, 0, 0)),
        ));
    } else {
        lemma_identity_expansion::<T>(n, (k - 1) as nat);
        assert(m[0][k - 1] == zero::<T>());
        assert(expansion_of(m, k) == expansion_of(m, (k - 1) as nat).add_spec(
            m[0][k - 1].mul_spec(cofactor_of(m, 0, k - 1)),
        ));
    }
}

/// The determinant of an identity matrix of any size from 1 is `one()`.
pub proof fn lemma_identity_determinant<T: Scalar>(n: nat)
    requires
        unital::<T>(),
        n >= 1,
    ensures
        determinant_of(identity_of::<T>(n)) == one::<T>(),
    decreases n,
{
    let m = identity_of::<T>(n);
    if n == 1 {
        assert(m[0][0] == one::<T>());
    } else if n == 2 {
        assert(m[0][0] == one::<T>());
        assert(m[1][1] == one::<T>());
        assert(m[0][1] == zero::<T>());
        assert(m[1][0] == zero::<T>());
    } else {
        lemma_identity_determinant::<T>((n - 1) as nat);
        lemma_identity_expansion::<T>(n, n);
    }
}

/// The sign of the cell `(row, col)`: `one()` where `row + col` is even,
/// `one()` negated where it is odd.
pub open spec fn sign_of<T: Scalar>(row: int, col: int) -> T {
    if (row + col) % 2 == 0 {
        one::<T>()
    } else {
        one::<T>().neg_spec()
    }
}

/// A cofactor is the determinant of the submatrix at its cell times the sign
/// of that cell, wherever multiplying by `one()` changes nothing and
/// multiplying by `one()` negated negates.
pub proof fn lemma_cofactor_is_signed_minor<T: Scalar>(m: Seq<Seq<T>>, row: int, col: int)
    requires
        m.len() > 0,
        forall|x: T| #[trigger] x.mul_spec(one::<T>()) == x,
        forall|x: T| #[trigger] x.mul_spec(one::<T>().neg_spec()) == x.neg_spec(),
    ensures
        cofactor_of(m, row, col) == determinant_of(submatrix_of(m, row, col)).mul_spec(
            sign_of::<T>(row, col),
        ),
{
    assert(minor_of(m, row, col) == determinant_of(submatrix_of(m, row, col)));
}

} // verus!
