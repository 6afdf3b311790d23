use crate::core3d::dot_product::dot;
use crate::core3d::model::{
    apply_defined, apply_of, cofactor_defined, column_of, determinant_defined, determinant_of,
    dot_defined, expansion_defined, expansion_of, identity_cell, identity_of, inverse_defined,
    inverse_of, is_shape, lemma_expansion_defined_prefix, minor_defined, minor_of,
    product_defined, product_of, submatrix_of, transpose_of,
};
use crate::core3d::scalar::{lawful, lawful_constants, zero, Scalar};
use itertools::Itertools;
use std::ops::{Index, Mul, Neg};
use vstd::prelude::*;
use vstd::std_specs::ops::NegSpec;

verus! {

/// A grid of `ROW` rows of `COL` cells each. Its view is the sequence of its
/// rows, each the sequence of its cells.
#[derive(Copy, Clone, Debug, PartialEq, Eq)]
pub struct Matrix<const ROW: usize, const COL: usize, T> {
    pub matrix: [[T; COL]; ROW],
}

impl<const ROW: usize, const COL: usize, T> View for Matrix<ROW, COL, T> {
    type V = Seq<Seq<T>>;

    open spec fn view(&self) -> Seq<Seq<T>> {
        Seq::new(ROW as nat, |r: int| self.matrix[r]@)
    }
}

impl<const ROW: usize, const COL: usize, T> Matrix<ROW, COL, T> {
    /// The matrix that holds the rows of `matrix`.
    #[must_use]
    pub fn new(matrix: [[T; COL]; ROW]) -> (m: Self)
        ensures
            m.matrix == matrix,
    {
        Self { matrix }
    }

    /// Overwrites the cell in row `row` and column `col`; every other cell
    /// keeps its value.
    pub fn set(&mut self, row: usize, col: usize, value: T)
        requires
            row < ROW,
            col < COL,
        ensures
            final(self)@ == old(self)@.update(
                row as int,
                old(self)@[row as int].update(col as int, value),
            ),
    {
        self.matrix[row][col] = value;
        assert(self@ =~~= old(self)@.update(
            row as int,
            old(self)@[row as int].update(col as int, value),
        ));
    }

    /// The view has `ROW` rows of `COL` cells each.
    pub proof fn lemma_shape(self)
        ensures
            is_shape(self@, ROW as nat, COL as nat),
    {
    }

    /// Two matrices with the same cells are the same matrix.
    pub proof fn lemma_view_injective(self, other: Self)
        requires
            self@ == other@,
        ensures
            self == other,
    {
        assert forall|r: int| 0 <= r < ROW implies self.matrix[r] == other.matrix[r] by {
            assert(self@[r] == other@[r]);
            assert(self.matrix[r]@ == other.matrix[r]@);
            assert(self.matrix[r] =~= other.matrix[r]);
        }
        assert(self.matrix =~= other.matrix);
    }
}

impl<const ROW: usize, const COL: usize, T> Default for Matrix<ROW, COL, T> where
    T: Default + Copy,
 {
    /// The matrix with `T::default()` in every cell.
    fn default() -> (m: Self)
        ensures
            forall|r: int, c: int|
                0 <= r < ROW && 0 <= c < COL ==> call_ensures(
                    T::default,
                    (),
                    #[trigger] m@[r][c],
                ),
    {
        let z = T::default();
        let row = [z; COL];
        let m = Self { matrix: [row; ROW] };
        proof {
            vstd::array::axiom_spec_array_fill_for_copy_type::<T, COL>(z);
            vstd::array::axiom_spec_array_fill_for_copy_type::<[T; COL], ROW>(row);
        }
        m
    }
}

impl<const ROW: usize, const COL: usize, T> vstd::std_specs::core::IndexSpecImpl<(usize, usize)> for Matrix<ROW, COL, T> {
    open spec fn index_req(&self, index: &(usize, usize)) -> bool {
        index.0 < ROW && index.1 < COL
    }
}

impl<const ROW: usize, const COL: usize, T> Index<(usize, usize)> for Matrix<ROW, COL, T> {
    type Output = T;

    /// The cell in row `index.0` and column `index.1`.
    fn index(&self, index: (usize, usize)) -> (cell: &T)
        ensures
            *cell == self@[index.0 as int][index.1 as int],
    {
        &self.matrix[index.0][index.1]
    }
}

/// The matrix that holds the rows of `arr`.
pub open spec fn matrix_of_rows<const ROW: usize, const COL: usize, T>(
    arr: [[T; COL]; ROW],
) -> Matrix<ROW, COL, T> {
    Matrix { matrix: arr }
}

impl<const ROW: usize, const COL: usize, T> vstd::std_specs::convert::FromSpecImpl<[[T; COL]; ROW]> for Matrix<ROW, COL, T> {
    open spec fn obeys_from_spec() -> bool {
        true
    }

    open spec fn from_spec(arr: [[T; COL]; ROW]) -> Self {
        matrix_of_rows(arr)
    }
}

impl<const ROW: usize, const COL: usize, T> From<[[T; COL]; ROW]> for Matrix<ROW, COL, T> {
    /// The matrix that holds the rows of `arr`.
    fn from(arr: [[T; COL]; ROW]) -> (m: Self)
        ensures
            m.matrix == arr,
    {
        Self { matrix: arr }
    }
}

/// `itertools::Itertools::set_from` on the cells of `row`, left to right, fed
/// with the items of `from`: it overwrites cell after cell until either one
/// runs out, and returns how many cells it wrote.
#[verifier::external_body]
fn set_row_from<const COL: usize, T: Copy>(row: &mut [T; COL], from: &Vec<T>) -> (written: usize)
    ensures
        written == if from@.len() < COL { from@.len() } else { COL as nat },
        forall|i: int| 0 <= i < written ==> #[trigger] final(row)@[i] == from@[i],
        forall|i: int| written <= i < COL ==> #[trigger] final(row)@[i] == old(row)@[i],
{
    row.iter_mut().set_from(from.iter().copied())
}

/// `m` holds the cells of `rows` wherever `rows` has one, and a value of
/// `T::default()` in every other cell.
pub open spec fn holds_rows_padded<T: Default>(m: Seq<Seq<T>>, rows: Seq<Vec<T>>) -> bool {
    forall|r: int, c: int|
        0 <= r < m.len() && 0 <= c < m[r].len() ==> if r < rows.len() && c < rows[r]@.len() {
            #[trigger] m[r][c] == rows[r]@[c]
        } else {
            call_ensures(T::default, (), #[trigger] m[r][c])
        }
}

impl<const ROW: usize, const COL: usize, T> vstd::std_specs::convert::FromSpecImpl<Vec<Vec<T>>> for Matrix<ROW, COL, T> where T: Default + Copy {
    open spec fn obeys_from_spec() -> bool {
        false
    }

    open spec fn from_spec(vec: Vec<Vec<T>>) -> Self {
        choose|m: Self| holds_rows_padded(m@, vec@)
    }
}

impl<const ROW: usize, const COL: usize, T> From<Vec<Vec<T>>> for Matrix<ROW, COL, T> where T: Default + Copy {
    /// The matrix that holds row `i` of `vec` in the first cells of its row
    /// `i`, and `T::default()` in every cell that `vec` does not reach. Rows
    /// and cells of `vec` beyond the size of the matrix are left out.
    fn from(vec: Vec<Vec<T>>) -> (m: Self)
        ensures
            holds_rows_padded(m@, vec@),
    {
        let mut matrix = Self::default();
        let mut i: usize = 0;
        while i < vec.len() && i < ROW
            invariant
                i <= vec.len(),
                i <= ROW,
                is_shape(matrix@, ROW as nat, COL as nat),
                forall|r: int, c: int|
                    0 <= r < ROW && 0 <= c < COL ==> if r < i && c < vec@[r]@.len() {
                        #[trigger] matrix@[r][c] == vec@[r]@[c]
                    } else {
                        call_ensures(T::default, (), #[trigger] matrix@[r][c])
                    },
            decreases vec.len() - i,
        {
            let ghost before = matrix@;
            let mut row = matrix.matrix[i];
            let ghost old_row = row;
            set_row_from(&mut row, &vec[i]);
            matrix.matrix[i] = row;
            assert forall|r: int, c: int| 0 <= r < ROW && 0 <= c < COL implies if r < i + 1 && c
                < vec@[r]@.len() {
                #[trigger] matrix@[r][c] == vec@[r]@[c]
            } else {
                call_ensures(T::default, (), #[trigger] matrix@[r][c])
            } by {
                if r == i {
                    assert(matrix@[r] == row@);
                    assert(before[r] == old_row@);
                    assert(call_ensures(T::default, (), before[r][c]));
                    if c < vec@[r]@.len() {
                        assert(row@[c] == vec@[r]@[c]);
                    } else {
                        assert(row@[c] == old_row@[c]);
                    }
                } else {
                    assert(matrix@[r] == before[r]);
                    assert(before[r][c] == before[r][c]);
                }
            }
            i += 1;
        }
        matrix
    }
}

/// Building the square matrix that leaves every tuple as it is.
pub trait Identity<const N: usize, T> where Self: Sized, T: Default + Copy + From<i8> {
    /// The `N` by `N` matrix with `T::from(1)` on the diagonal and
    /// `T::default()` in every other cell.
    #[must_use]
    fn identity() -> (m: Matrix<N, N, T>)
        ensures
            forall|r: int, c: int|
                0 <= r < N && 0 <= c < N ==> identity_cell(r, c, #[trigger] m@[r][c]),
            lawful_constants::<T>() ==> m@ == identity_of::<T>(N as nat),
    {
        let mut matrix = Matrix::<N, N, T>::default();
        for i in 0..N
            invariant
                is_shape(matrix@, N as nat, N as nat),
                forall|r: int, c: int|
                    0 <= r < N && 0 <= c < N ==> if r == c && r < i {
                        call_ensures(T::from, (1i8,), #[trigger] matrix@[r][c])
                    } else {
                        call_ensures(T::default, (), #[trigger] matrix@[r][c])
                    },
        {
            matrix.set(i, i, T::from(1i8));
        }
        assert(lawful_constants::<T>() ==> matrix@ =~~= identity_of::<T>(N as nat));
        matrix
    }
}

impl<const N: usize, T: Default + Copy + From<i8>> Identity<N, T> for Matrix<N, N, T> {

}

/// Swapping the rows of a square matrix with its columns.
pub trait Transpose<const N: usize, T>: Sized {
    /// The matrix whose cell `(c, r)` holds what this one holds at `(r, c)`.
    fn transpose(self) -> Self;
}

impl<const N: usize, T: Copy + Default> Transpose<N, T> for Matrix<N, N, T> {
    fn transpose(self) -> (transposed: Self)
        ensures
            transposed@ == transpose_of(self@),
    {
        let mut transposed = Self::default();
        for r in 0..N
            invariant
                is_shape(transposed@, N as nat, N as nat),
                forall|i: int, j: int|
                    0 <= i < r && 0 <= j < N ==> #[trigger] transposed@[j][i] == self@[i][j],
        {
            for c in 0..N
                invariant
                    r < N,
                    is_shape(transposed@, N as nat, N as nat),
                    forall|i: int, j: int|
                        0 <= i < r && 0 <= j < N ==> #[trigger] transposed@[j][i] == self@[i][j],
                    forall|j: int|
                        0 <= j < c ==> #[trigger] transposed@[j][r as int] == self@[r as int][j],
            {
                transposed.set(c, r, self.matrix[r][c]);
            }
        }
        assert(transposed@ =~~= transpose_of(self@));
        transposed
    }
}

impl<const ROW: usize, const COL: usize, T: Copy + Default> Matrix<ROW, COL, T> {
    /// Column `col`, read from the top.
    fn column(&self, col: usize) -> (column: [T; ROW])
        requires
            col < COL,
        ensures
            column@ == column_of(self@, col as int),
    {
        let mut column = [T::default(); ROW];
        for r in 0..ROW
            invariant
                col < COL,
                forall|i: int| 0 <= i < r ==> #[trigger] column@[i] == self@[i][col as int],
        {
            column[r] = self.matrix[r][col];
        }
        assert(column@ =~= column_of(self@, col as int));
        column
    }
}

/// The matrix whose cells are those of `product_of(a@, b@)`.
pub open spec fn product_matrix<const N: usize, T: Scalar>(
    a: Matrix<N, N, T>,
    b: Matrix<N, N, T>,
) -> Matrix<N, N, T> {
    choose|m: Matrix<N, N, T>| m@ == product_of(a@, b@)
}

impl<const N: usize, T: Scalar> vstd::std_specs::ops::MulSpecImpl for Matrix<N, N, T> {
    open spec fn obeys_mul_spec() -> bool {
        true
    }

    open spec fn mul_req(self, rhs: Self) -> bool {
        lawful::<T>() && product_defined(self@, rhs@)
    }

    open spec fn mul_spec(self, rhs: Self) -> Self {
        product_matrix(self, rhs)
    }
}

impl<const N: usize, T: Scalar> Mul for Matrix<N, N, T> {
    type Output = Self;

    /// The matrix product: cell `(r, c)` is row `r` of `self` dotted with
    /// column `c` of `rhs`.
    fn mul(self, rhs: Self) -> (product: Self)
        ensures
            product@ == product_of(self@, rhs@),
    {
        let mut product = Self::default();
        for r in 0..N
            invariant
                lawful::<T>(),
                product_defined(self@, rhs@),
                is_shape(product@, N as nat, N as nat),
                forall|i: int, j: int|
                    0 <= i < r && 0 <= j < N ==> #[trigger] product@[i][j] == product_of(
                        self@,
                        rhs@,
                    )[i][j],
        {
            for c in 0..N
                invariant
                    lawful::<T>(),
                    r < N,
                    product_defined(self@, rhs@),
                    is_shape(product@, N as nat, N as nat),
                    forall|i: int, j: int|
                        0 <= i < r && 0 <= j < N ==> #[trigger] product@[i][j] == product_of(
                            self@,
                            rhs@,
                        )[i][j],
                    forall|j: int|
                        0 <= j < c ==> #[trigger] product@[r as int][j] == product_of(
                            self@,
                            rhs@,
                        )[r as int][j],
            {
                assert(dot_defined(self@[r as int], column_of(rhs@, c as int), N as nat));
                let a = self.matrix[r];
                let b = rhs.column(c);
                product.set(r, c, dot(&a, &b));
            }
        }
        proof {
            assert(product@ =~~= product_of(self@, rhs@));
            product.lemma_view_injective(product_matrix(self, rhs));
        }
        product
    }
}

/// The tuple whose slots are those of `apply_of(m@, tuple@)`.
pub open spec fn applied_tuple<const N: usize, T: Scalar>(
    m: Matrix<N, N, T>,
    tuple: [T; N],
) -> [T; N] {
    choose|out: [T; N]| out@ == apply_of(m@, tuple@)
}

impl<const N: usize, T: Scalar> vstd::std_specs::ops::MulSpecImpl<[T; N]> for Matrix<N, N, T> {
    open spec fn obeys_mul_spec() -> bool {
        true
    }

    open spec fn mul_req(self, rhs: [T; N]) -> bool {
        lawful::<T>() && apply_defined(self@, rhs@)
    }

    open spec fn mul_spec(self, rhs: [T; N]) -> [T; N] {
        applied_tuple(self, rhs)
    }
}

impl<const N: usize, T: Scalar> Mul<[T; N]> for Matrix<N, N, T> {
    type Output = [T; N];

    /// The matrix applied to the tuple `rhs`: slot `r` is row `r` of `self`
    /// dotted with `rhs`.
    fn mul(self, rhs: [T; N]) -> (out: [T; N])
        ensures
            out@ == apply_of(self@, rhs@),
    {
        let mut out = [T::default(); N];
        for r in 0..N
            invariant
                lawful::<T>(),
                apply_defined(self@, rhs@),
                forall|i: int| 0 <= i < r ==> #[trigger] out@[i] == apply_of(self@, rhs@)[i],
        {
            assert(dot_defined(self@[r as int], rhs@, rhs@.len()));
            let a = self.matrix[r];
            out[r] = dot(&a, &rhs);
        }
        proof {
            assert(out@ =~= apply_of(self@, rhs@));
            assert(applied_tuple(self, rhs)@ == out@);
            assert(applied_tuple(self, rhs) =~= out);
        }
        out
    }
}

/// The number of rows (or columns) below `index` that stay when row (or
/// column) `skip` is taken out.
spec fn kept_before(index: int, skip: int) -> int {
    if index <= skip {
        index
    } else {
        index - 1
    }
}

/// Copies every cell of `m` outside row `skiprow` and column `skipcol`, in
/// row-major order, into the cells of a matrix one row and one column
/// smaller, in row-major order.
fn without_row_and_column<
    const ROW: usize,
    const COL: usize,
    const ROW1: usize,
    const COL1: usize,
    T: Copy + Default,
>(m: &Matrix<ROW, COL, T>, skiprow: usize, skipcol: usize) -> (sub: Matrix<ROW1, COL1, T>)
    requires
        ROW1 + 1 == ROW,
        COL1 + 1 == COL,
        ROW1 >= 1,
        COL1 >= 1,
        ROW1 * COL1 <= usize::MAX,
        skiprow < ROW,
        skipcol < COL,
    ensures
        sub@ == submatrix_of(m@, skiprow as int, skipcol as int),
{
    let mut sub = Matrix::<ROW1, COL1, T>::default();
    let ghost want = submatrix_of(m@, skiprow as int, skipcol as int);
    let mut i: usize = 0;
    assert(kept_before(0, skiprow as int) * COL1 == 0) by (nonlinear_arith)
        requires
            kept_before(0, skiprow as int) == 0,
    ;
    for r in 0..ROW
        invariant
            ROW1 + 1 == ROW,
            COL1 + 1 == COL,
            ROW1 >= 1,
            COL1 >= 1,
            ROW1 * COL1 <= usize::MAX,
            skiprow < ROW,
            skipcol < COL,
            want == submatrix_of(m@, skiprow as int, skipcol as int),
            i == kept_before(r as int, skiprow as int) * COL1,
            forall|rr: int, cc: int|
                0 <= rr < kept_before(r as int, skiprow as int) && 0 <= cc < COL1
                    ==> #[trigger] sub@[rr][cc] == want[rr][cc],
    {
        let ghost row_start = i as int;
        for c in 0..COL
            invariant
                ROW1 + 1 == ROW,
                COL1 + 1 == COL,
                ROW1 >= 1,
                COL1 >= 1,
                ROW1 * COL1 <= usize::MAX,
                skiprow < ROW,
                skipcol < COL,
                r < ROW,
                want == submatrix_of(m@, skiprow as int, skipcol as int),
                row_start == kept_before(r as int, skiprow as int) * COL1,
                i == row_start + (if r == skiprow {
                    0
                } else {
                    kept_before(c as int, skipcol as int)
                }),
                forall|rr: int, cc: int|
                    0 <= rr < kept_before(r as int, skiprow as int) && 0 <= cc < COL1
                        ==> #[trigger] sub@[rr][cc] == want[rr][cc],
                r != skiprow ==> forall|cc: int|
                    0 <= cc < kept_before(c as int, skipcol as int) ==> #[trigger] sub@[kept_before(
                        r as int,
                        skiprow as int,
                    )][cc] == want[kept_before(r as int, skiprow as int)][cc],
        {
            if r != skiprow && c != skipcol {
                let ghost kr = kept_before(r as int, skiprow as int);
                let ghost kc = kept_before(c as int, skipcol as int);
                proof {
                    assert(0 <= kr < ROW1 && 0 <= kc < COL1);
                    assert(kr * COL1 + kc < ROW1 * COL1) by (nonlinear_arith)
                        requires
                            0 <= kr < ROW1,
                            0 <= kc < COL1,
                    ;
                    vstd::arithmetic::div_mod::lemma_fundamental_div_mod_converse_div(
                        i as int,
                        COL1 as int,
                        kr,
                        kc,
                    );
                    vstd::arithmetic::div_mod::lemma_fundamental_div_mod_converse_mod(
                        i as int,
                        COL1 as int,
                        kr,
                        kc,
                    );
                }
                let ir = i / COL1;
                let ic = i % COL1;
                sub.set(ir, ic, m.matrix[r][c]);
                i += 1;
            }
        }
        proof {
            let k = kept_before(r as int, skiprow as int);
            assert((k + 1) * COL1 == k * COL1 + COL1) by (nonlinear_arith);
        }
    }
    assert(sub@ =~~= want);
    sub
}

/// Taking one row and one column out of a matrix.
pub trait Submatrix<const ROW: usize, const COL: usize, T> {
    /// The type of the smaller matrix.
    type Result;

    /// The matrix without row `skiprow` and without column `skipcol`.
    fn submatrix(&self, skiprow: usize, skipcol: usize) -> Self::Result
        requires
            skiprow < ROW,
            skipcol < COL,
    ;
}

impl<T: Copy + Default> Submatrix<4, 4, T> for Matrix<4, 4, T> {
    type Result = Matrix<3, 3, T>;

    fn submatrix(&self, skiprow: usize, skipcol: usize) -> (sub: Matrix<3, 3, T>)
        ensures
            sub@ == submatrix_of(self@, skiprow as int, skipcol as int),
    {
        without_row_and_column(self, skiprow, skipcol)
    }
}

impl<T: Copy + Default> Submatrix<3, 3, T> for Matrix<3, 3, T> {
    type Result = Matrix<2, 2, T>;

    fn submatrix(&self, skiprow: usize, skipcol: usize) -> (sub: Matrix<2, 2, T>)
        ensures
            sub@ == submatrix_of(self@, skiprow as int, skipcol as int),
    {
        without_row_and_column(self, skiprow, skipcol)
    }
}

impl<T: Copy + Default> Submatrix<2, 2, T> for Matrix<2, 2, T> {
    type Result = Matrix<1, 1, T>;

    fn submatrix(&self, skiprow: usize, skipcol: usize) -> (sub: Matrix<1, 1, T>)
        ensures
            sub@ == submatrix_of(self@, skiprow as int, skipcol as int),
    {
        without_row_and_column(self, skiprow, skipcol)
    }
}

/// The determinant of a square matrix.
pub trait Determinant<const ROW: usize, const COL: usize, T> {
    /// The type of the determinant.
    type Output;

    /// The matrices whose determinant can be computed.
    spec fn determinant_req(&self) -> bool;

    /// The determinant.
    spec fn determinant_spec(&self) -> Self::Output;

    fn determinant(&self) -> (d: Self::Output)
        requires
            self.determinant_req(),
        ensures
            d == self.determinant_spec(),
    ;
}

impl<T: Scalar> Determinant<1, 1, T> for Matrix<1, 1, T> {
    type Output = T;

    open spec fn determinant_req(&self) -> bool {
        true
    }

    open spec fn determinant_spec(&self) -> T {
        determinant_of(self@)
    }

    fn determinant(&self) -> (d: T) {
        self.matrix[0][0]
    }
}

impl<T: Scalar> Determinant<2, 2, T> for Matrix<2, 2, T> {
    type Output = T;

    open spec fn determinant_req(&self) -> bool {
        lawful::<T>() && determinant_defined(self@)
    }

    open spec fn determinant_spec(&self) -> T {
        determinant_of(self@)
    }

    fn determinant(&self) -> (d: T) {
        (self.matrix[0][0] * self.matrix[1][1]) - (self.matrix[0][1] * self.matrix[1][0])
    }
}

/// The expansion of the determinant of `m` along row 0.
fn expand_along_first_row<const N: usize, T: Scalar>(m: &Matrix<N, N, T>) -> (d: T) where
    Matrix<N, N, T>: Cofactor<N, N, T>,

    requires
        lawful::<T>(),
        expansion_defined(m@, N as nat),
        forall|c: usize|
            c < N && minor_defined(m@, 0, c as int) ==> #[trigger] m.minor_req(0, c),
        forall|c: usize| c < N ==> #[trigger] m.minor_spec(0, c) == minor_of(m@, 0, c as int),
    ensures
        d == expansion_of(m@, N as nat),
{
    let mut d = T::default();
    for c in 0..N
        invariant
            lawful::<T>(),
            expansion_defined(m@, N as nat),
            forall|c: usize|
                c < N && minor_defined(m@, 0, c as int) ==> #[trigger] m.minor_req(0, c),
            forall|c: usize|
                c < N ==> #[trigger] m.minor_spec(0, c) == minor_of(m@, 0, c as int),
            d == expansion_of(m@, c as nat),
    {
        proof {
            lemma_expansion_defined_prefix(m@, N as nat, (c + 1) as nat);
            assert(cofactor_defined(m@, 0, c as int));
            assert(minor_defined(m@, 0, c as int));
        }
        d = d + m.matrix[0][c] * m.cofactor(0, c);
    }
    d
}

impl<T: Scalar> Determinant<3, 3, T> for Matrix<3, 3, T> {
    type Output = T;

    open spec fn determinant_req(&self) -> bool {
        lawful::<T>() && determinant_defined(self@)
    }

    open spec fn determinant_spec(&self) -> T {
        determinant_of(self@)
    }

    fn determinant(&self) -> (d: T) {
        expand_along_first_row(self)
    }
}

impl<T: Scalar> Determinant<4, 4, T> for Matrix<4, 4, T> {
    type Output = T;

    open spec fn determinant_req(&self) -> bool {
        lawful::<T>() && determinant_defined(self@)
    }

    open spec fn determinant_spec(&self) -> T {
        determinant_of(self@)
    }

    fn determinant(&self) -> (d: T) {
        expand_along_first_row(self)
    }
}

/// The minors of a matrix: the determinants of its submatrices.
pub trait Minor<const ROW: usize, const COL: usize, T> {
    /// The cells whose minor can be computed.
    spec fn minor_req(&self, row: usize, col: usize) -> bool;

    /// The minor at `(row, col)`.
    spec fn minor_spec(&self, row: usize, col: usize) -> T;

    fn minor(&self, row: usize, col: usize) -> (minor: T)
        requires
            self.minor_req(row, col),
        ensures
            minor == self.minor_spec(row, col),
    ;
}

impl<T: Scalar> Minor<4, 4, T> for Matrix<4, 4, T> {
    open spec fn minor_req(&self, row: usize, col: usize) -> bool {
        lawful::<T>() && row < 4 && col < 4 && minor_defined(self@, row as int, col as int)
    }

    open spec fn minor_spec(&self, row: usize, col: usize) -> T {
        minor_of(self@, row as int, col as int)
    }

    fn minor(&self, row: usize, col: usize) -> (minor: T) {
        let submatrix = self.submatrix(row, col);
        submatrix.determinant()
    }
}

impl<T: Scalar> Minor<3, 3, T> for Matrix<3, 3, T> {
    open spec fn minor_req(&self, row: usize, col: usize) -> bool {
        lawful::<T>() && row < 3 && col < 3 && minor_defined(self@, row as int, col as int)
    }

    open spec fn minor_spec(&self, row: usize, col: usize) -> T {
        minor_of(self@, row as int, col as int)
    }

    fn minor(&self, row: usize, col: usize) -> (minor: T) {
        let submatrix = self.submatrix(row, col);
        submatrix.determinant()
    }
}

impl<T: Scalar> Minor<2, 2, T> for Matrix<2, 2, T> {
    open spec fn minor_req(&self, row: usize, col: usize) -> bool {
        lawful::<T>() && row < 2 && col < 2 && minor_defined(self@, row as int, col as int)
    }

    open spec fn minor_spec(&self, row: usize, col: usize) -> T {
        minor_of(self@, row as int, col as int)
    }

    fn minor(&self, row: usize, col: usize) -> (minor: T) {
        let submatrix = self.submatrix(row, col);
        submatrix.determinant()
    }
}

/// The cofactors of a matrix: its minors, each with the sign of its cell.
pub trait Cofactor<const ROW: usize, const COL: usize, T>: Minor<ROW, COL, T> where T: Scalar {
    /// The minor at `(row, col)` where `row + col` is even, that minor
    /// negated where it is odd.
    fn cofactor(&self, row: usize, col: usize) -> (cofactor: T)
        requires
            self.minor_req(row, col),
            row + col <= usize::MAX,
            T::obeys_neg_spec(),
            (row + col) % 2 != 0 ==> self.minor_spec(row, col).neg_req(),
        ensures
            cofactor == if (row + col) % 2 == 0 {
                self.minor_spec(row, col)
            } else {
                self.minor_spec(row, col).neg_spec()
            },
    {
        let minor = self.minor(row, col);
        let is_positive_cell = (row + col) % 2 == 0;
        if is_positive_cell {
            minor
        } else {
            minor.neg()
        }
    }
}

impl<T: Scalar> Cofactor<4, 4, T> for Matrix<4, 4, T> {

}

impl<T: Scalar> Cofactor<3, 3, T> for Matrix<3, 3, T> {

}

impl<T: Scalar> Cofactor<2, 2, T> for Matrix<2, 2, T> {

}

/// Inverting a square matrix by its adjugate.
pub trait Invert<const ROW: usize, const COL: usize, T>: Sized + Determinant<
    ROW,
    COL,
    T,
    Output = T,
> + Cofactor<ROW, COL, T> where T: Scalar {
    /// The matrices whose inverse can be computed or found missing.
    spec fn inverse_req(&self) -> bool;

    /// Whether the determinant differs from `zero()`.
    fn is_invertible(&self) -> (invertible: bool)
        requires
            lawful::<T>(),
            self.determinant_req(),
        ensures
            invertible == (self.determinant_spec() != zero::<T>()),
    {
        let determinant = self.determinant();
        let nothing = T::default();
        determinant != nothing
    }

    /// The inverse, where the determinant differs from `zero()`.
    fn inverse(&self) -> (inverse: Option<Self>)
        requires
            self.inverse_req(),
        ensures
            inverse is Some <==> self.determinant_spec() != zero::<T>(),
    ;
}

/// The adjugate of `m` with each cell divided by `det`: cell `(col, row)` is
/// the cofactor of `m` at `(row, col)` over `det`.
fn adjugate_over<const N: usize, T: Scalar>(m: &Matrix<N, N, T>, det: T) -> (inverse: Matrix<
    N,
    N,
    T,
>) where Matrix<N, N, T>: Cofactor<N, N, T>
    requires
        lawful::<T>(),
        N <= 4,
        det == determinant_of(m@),
        inverse_defined(m@),
        forall|r: usize, c: usize|
            r < N && c < N && minor_defined(m@, r as int, c as int) ==> #[trigger] m.minor_req(
                r,
                c,
            ),
        forall|r: usize, c: usize|
            r < N && c < N ==> #[trigger] m.minor_spec(r, c) == minor_of(m@, r as int, c as int),
    ensures
        inverse@ == inverse_of(m@),
{
    let mut inverse = Matrix::<N, N, T>::default();
    for row in 0..N
        invariant
            lawful::<T>(),
            N <= 4,
            det == determinant_of(m@),
            inverse_defined(m@),
            forall|r: usize, c: usize|
                r < N && c < N && minor_defined(m@, r as int, c as int)
                    ==> #[trigger] m.minor_req(r, c),
            forall|r: usize, c: usize|
                r < N && c < N ==> #[trigger] m.minor_spec(r, c) == minor_of(
                    m@,
                    r as int,
                    c as int,
                ),
            is_shape(inverse@, N as nat, N as nat),
            forall|r: int, c: int|
                0 <= r < row && 0 <= c < N ==> #[trigger] inverse@[c][r] == inverse_of(m@)[c][r],
    {
        for col in 0..N
            invariant
                lawful::<T>(),
                N <= 4,
                row < N,
                det == determinant_of(m@),
                inverse_defined(m@),
                forall|r: usize, c: usize|
                    r < N && c < N && minor_defined(m@, r as int, c as int)
                        ==> #[trigger] m.minor_req(r, c),
                forall|r: usize, c: usize|
                    r < N && c < N ==> #[trigger] m.minor_spec(r, c) == minor_of(
                        m@,
                        r as int,
                        c as int,
                    ),
                is_shape(inverse@, N as nat, N as nat),
                forall|r: int, c: int|
                    0 <= r < row && 0 <= c < N ==> #[trigger] inverse@[c][r] == inverse_of(
                        m@,
                    )[c][r],
                forall|c: int|
                    0 <= c < col ==> #[trigger] inverse@[c][row as int] == inverse_of(
                        m@,
                    )[c][row as int],
        {
            assert(cofactor_defined(m@, row as int, col as int));
            let c = m.cofactor(row, col);
            inverse.set(col, row, c / det);
        }
    }
    assert(inverse@ =~~= inverse_of(m@));
    inverse
}

impl<T: Scalar> Invert<4, 4, T> for Matrix<4, 4, T> {
    open spec fn inverse_req(&self) -> bool {
        &&& lawful::<T>()
        &&& determinant_defined(self@)
        &&& determinant_of(self@) != zero::<T>() ==> inverse_defined(self@)
    }

    fn inverse(&self) -> (inverse: Option<Self>)
        ensures
            inverse matches Some(m) ==> m@ == inverse_of(self@),
    {
        if !self.is_invertible() {
            return None;
        }
        let det = self.determinant();
        Some(adjugate_over(self, det))
    }
}

impl<T: Scalar> Invert<3, 3, T> for Matrix<3, 3, T> {
    open spec fn inverse_req(&self) -> bool {
        &&& lawful::<T>()
        &&& determinant_defined(self@)
        &&& determinant_of(self@) != zero::<T>() ==> inverse_defined(self@)
    }

    fn inverse(&self) -> (inverse: Option<Self>)
        ensures
            inverse matches Some(m) ==> m@ == inverse_of(self@),
    {
        if !self.is_invertible() {
            return None;
        }
        let det = self.determinant();
        Some(adjugate_over(self, det))
    }
}

impl<T: Scalar> Invert<2, 2, T> for Matrix<2, 2, T> {
    open spec fn inverse_req(&self) -> bool {
        &&& lawful::<T>()
        &&& determinant_defined(self@)
        &&& determinant_of(self@) != zero::<T>() ==> inverse_defined(self@)
    }

    fn inverse(&self) -> (inverse: Option<Self>)
        ensures
            inverse matches Some(m) ==> m@ == inverse_of(self@),
    {
        if !self.is_invertible() {
            return None;
        }
        let det = self.determinant();
        Some(adjugate_over(self, det))
    }
}

} // verus!
