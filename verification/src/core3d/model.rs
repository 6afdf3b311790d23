use crate::core3d::scalar::{one, zero, Scalar};
use vstd::prelude::*;
use vstd::std_specs::ops::{AddSpec, DivSpec, MulSpec, NegSpec, SubSpec};

verus! {

/// `m` has `rows` rows of `cols` cells each.
pub open spec fn is_shape<T>(m: Seq<Seq<T>>, rows: nat, cols: nat) -> bool {
    &&& m.len() == rows
    &&& forall|r: int| 0 <= r < rows ==> (#[trigger] m[r]).len() == cols
}

/// Column `c` of `m`, read from the top.
pub open spec fn column_of<T>(m: Seq<Seq<T>>, c: int) -> Seq<T> {
    Seq::new(m.len(), |r: int| m[r][c])
}

/// The sum `x[0]*y[0] + .. + x[k-1]*y[k-1]`, accumulated from `zero()` from
/// the left.
pub open spec fn dot_of<T: Scalar>(x: Seq<T>, y: Seq<T>, k: nat) -> T
    decreases k,
{
    if k == 0 {
        zero::<T>()
    } else {
        dot_of(x, y, (k - 1) as nat).add_spec(x[k - 1].mul_spec(y[k - 1]))
    }
}

/// Every product and every partial sum of `dot_of(x, y, k)` is one that `T`
/// can compute.
pub open spec fn dot_defined<T: Scalar>(x: Seq<T>, y: Seq<T>, k: nat) -> bool
    decreases k,
{
    k > 0 ==> {
        &&& dot_defined(x, y, (k - 1) as nat)
        &&& x[k - 1].mul_req(y[k - 1])
        &&& dot_of(x, y, (k - 1) as nat).add_req(x[k - 1].mul_spec(y[k - 1]))
    }
}

/// What holds of a whole dot product holds of each of its prefixes.
pub proof fn lemma_dot_defined_prefix<T: Scalar>(x: Seq<T>, y: Seq<T>, n: nat, k: nat)
    requires
        dot_defined(x, y, n),
        k <= n,
    ensures
        dot_defined(x, y, k),
    decreases n,
{
    if k < n {
        lemma_dot_defined_prefix(x, y, (n - 1) as nat, k);
    }
}

/// The matrix product `a * b`: cell `(r, c)` is row `r` of `a` dotted with
/// column `c` of `b`.
pub open spec fn product_of<T: Scalar>(a: Seq<Seq<T>>, b: Seq<Seq<T>>) -> Seq<Seq<T>> {
    Seq::new(
        a.len(),
        |r: int| Seq::new(b[0].len(), |c: int| dot_of(a[r], column_of(b, c), b.len())),
    )
}

/// Every cell of `product_of(a, b)` is defined.
pub open spec fn product_defined<T: Scalar>(a: Seq<Seq<T>>, b: Seq<Seq<T>>) -> bool {
    forall|r: int, c: int|
        0 <= r < a.len() && 0 <= c < b[0].len() ==> #[trigger] dot_defined(
            a[r],
            column_of(b, c),
            b.len(),
        )
}

/// The matrix `m` applied to the tuple `t`: slot `r` is row `r` of `m` dotted
/// with `t`.
pub open spec fn apply_of<T: Scalar>(m: Seq<Seq<T>>, t: Seq<T>) -> Seq<T> {
    Seq::new(m.len(), |r: int| dot_of(m[r], t, t.len()))
}

/// Every slot of `apply_of(m, t)` is defined.
pub open spec fn apply_defined<T: Scalar>(m: Seq<Seq<T>>, t: Seq<T>) -> bool {
    forall|r: int| 0 <= r < m.len() ==> #[trigger] dot_defined(m[r], t, t.len())
}

/// The transpose of `m`: cell `(c, r)` holds what `m` holds at `(r, c)`.
pub open spec fn transpose_of<T>(m: Seq<Seq<T>>) -> Seq<Seq<T>> {
    if m.len() == 0 {
        m
    } else {
        Seq::new(m[0].len(), |c: int| column_of(m, c))
    }
}

/// The `n` by `n` identity: `one()` on the diagonal, `zero()` elsewhere.
pub open spec fn identity_of<T: From<i8>>(n: nat) -> Seq<Seq<T>> {
    Seq::new(n, |r: int| Seq::new(n, |c: int| if r == c { one::<T>() } else { zero::<T>() }))
}

/// `cell` is what `T::from(1)` returns where `r == c`, and what
/// `T::default()` returns elsewhere: a cell of an identity matrix.
pub open spec fn identity_cell<T: Default + From<i8>>(r: int, c: int, cell: T) -> bool {
    if r == c {
        call_ensures(T::from, (1i8,), cell)
    } else {
        call_ensures(T::default, (), cell)
    }
}

/// The `n` by `n` translation by `(x, y, z)`: the identity with `x`, `y` and
/// `z` down the first three cells of its last column.
pub open spec fn translation_of<T: From<i8>>(n: nat, x: T, y: T, z: T) -> Seq<Seq<T>> {
    Seq::new(
        n,
        |r: int|
            Seq::new(
                n,
                |c: int|
                    if c == n - 1 && r == 0 {
                        x
                    } else if c == n - 1 && r == 1 {
                        y
                    } else if c == n - 1 && r == 2 {
                        z
                    } else {
                        identity_of::<T>(n)[r][c]
                    },
            ),
    )
}

/// The `n` by `n` scaling by `(x, y, z)`: the identity with `x`, `y` and `z`
/// down the first three cells of its diagonal.
pub open spec fn scaling_of<T: From<i8>>(n: nat, x: T, y: T, z: T) -> Seq<Seq<T>> {
    Seq::new(
        n,
        |r: int|
            Seq::new(
                n,
                |c: int|
                    if r == 0 && c == 0 {
                        x
                    } else if r == 1 && c == 1 {
                        y
                    } else if r == 2 && c == 2 {
                        z
                    } else {
                        identity_of::<T>(n)[r][c]
                    },
            ),
    )
}

/// The `n` by `n` shearing: the identity with the six cells off the diagonal
/// of its upper left 3 by 3 block set, `x_y` being how far `x` moves for each
/// unit of `y`.
pub open spec fn shearing_of<T: From<i8>>(
    n: nat,
    x_y: T,
    x_z: T,
    y_x: T,
    y_z: T,
    z_x: T,
    z_y: T,
) -> Seq<Seq<T>> {
    Seq::new(
        n,
        |r: int|
            Seq::new(
                n,
                |c: int|
                    if r == 0 && c == 1 {
                        x_y
                    } else if r == 0 && c == 2 {
                        x_z
                    } else if r == 1 && c == 0 {
                        y_x
                    } else if r == 1 && c == 2 {
                        y_z
                    } else if r == 2 && c == 0 {
                        z_x
                    } else if r == 2 && c == 1 {
                        z_y
                    } else {
                        identity_of::<T>(n)[r][c]
                    },
            ),
    )
}

/// The `n` by `n` rotation in the plane of the axes `i < j`, given the cosine
/// and the sine of its angle: the identity with `cos` at `(i, i)` and
/// `(j, j)`, `at_ij` at `(i, j)` and `at_ji` at `(j, i)`.
pub open spec fn rotation_of<T: From<i8>>(
    n: nat,
    i: int,
    j: int,
    cos: T,
    at_ij: T,
    at_ji: T,
) -> Seq<Seq<T>> {
    Seq::new(
        n,
        |r: int|
            Seq::new(
                n,
                |c: int|
                    if (r == i && c == i) || (r == j && c == j) {
                        cos
                    } else if r == i && c == j {
                        at_ij
                    } else if r == j && c == i {
                        at_ji
                    } else {
                        identity_of::<T>(n)[r][c]
                    },
            ),
    )
}

/// `m` without row `skip_row` and without column `skip_col`; the rows and
/// columns that remain keep their order.
pub open spec fn submatrix_of<T>(m: Seq<Seq<T>>, skip_row: int, skip_col: int) -> Seq<Seq<T>> {
    Seq::new(
        (m.len() - 1) as nat,
        |r: int|
            Seq::new(
                (m[0].len() - 1) as nat,
                |c: int|
                    m[if r < skip_row { r } else { r + 1 }][if c < skip_col { c } else { c + 1 }],
            ),
    )
}

/// The determinant of the square matrix `m`: its only cell when it has one,
/// `ad - bc` when it has four, and otherwise the expansion along row 0.
pub open spec fn determinant_of<T: Scalar>(m: Seq<Seq<T>>) -> T
    decreases m.len(), 2nat, 0nat,
{
    if m.len() <= 1 {
        m[0][0]
    } else if m.len() == 2 {
        m[0][0].mul_spec(m[1][1]).sub_spec(m[0][1].mul_spec(m[1][0]))
    } else {
        expansion_of(m, m.len())
    }
}

/// The first `k` terms of the expansion along row 0:
/// `m[0][0] * cofactor(0, 0) + .. + m[0][k-1] * cofactor(0, k-1)`, accumulated
/// from `zero()` from the left.
pub open spec fn expansion_of<T: Scalar>(m: Seq<Seq<T>>, k: nat) -> T
    decreases m.len(), 1nat, k,
{
    if m.len() == 0 || k == 0 {
        zero::<T>()
    } else {
        expansion_of(m, (k - 1) as nat).add_spec(m[0][k - 1].mul_spec(cofactor_of(m, 0, k - 1)))
    }
}

/// The determinant of what is left of `m` without row `row` and column `col`.
pub open spec fn minor_of<T: Scalar>(m: Seq<Seq<T>>, row: int, col: int) -> T
    decreases m.len(), 0nat, 1nat,
{
    if m.len() == 0 {
        zero::<T>()
    } else {
        determinant_of(submatrix_of(m, row, col))
    }
}

/// The minor at `(row, col)`, negated where `row + col` is odd.
pub open spec fn cofactor_of<T: Scalar>(m: Seq<Seq<T>>, row: int, col: int) -> T
    decreases m.len(), 0nat, 2nat,
{
    if (row + col) % 2 == 0 {
        minor_of(m, row, col)
    } else {
        minor_of(m, row, col).neg_spec()
    }
}

/// Every operation that `determinant_of(m)` names is one that `T` can
/// compute.
pub open spec fn determinant_defined<T: Scalar>(m: Seq<Seq<T>>) -> bool
    decreases m.len(), 2nat, 0nat,
{
    if m.len() <= 1 {
        true
    } else if m.len() == 2 {
        &&& m[0][0].mul_req(m[1][1])
        &&& m[0][1].mul_req(m[1][0])
        &&& m[0][0].mul_spec(m[1][1]).sub_req(m[0][1].mul_spec(m[1][0]))
    } else {
        expansion_defined(m, m.len())
    }
}

/// Every operation that `expansion_of(m, k)` names is one that `T` can
/// compute.
pub open spec fn expansion_defined<T: Scalar>(m: Seq<Seq<T>>, k: nat) -> bool
    decreases m.len(), 1nat, k,
{
    m.len() > 0 && k > 0 ==> {
        &&& expansion_defined(m, (k - 1) as nat)
        &&& cofactor_defined(m, 0, k - 1)
        &&& m[0][k - 1].mul_req(cofactor_of(m, 0, k - 1))
        &&& expansion_of(m, (k - 1) as nat).add_req(
            m[0][k - 1].mul_spec(cofactor_of(m, 0, k - 1)),
        )
    }
}

/// Every operation that `minor_of(m, row, col)` names is one that `T` can
/// compute.
pub open spec fn minor_defined<T: Scalar>(m: Seq<Seq<T>>, row: int, col: int) -> bool
    decreases m.len(), 0nat, 1nat,
{
    m.len() > 0 ==> determinant_defined(submatrix_of(m, row, col))
}

/// Every operation that `cofactor_of(m, row, col)` names is one that `T` can
/// compute.
pub open spec fn cofactor_defined<T: Scalar>(m: Seq<Seq<T>>, row: int, col: int) -> bool
    decreases m.len(), 0nat, 2nat,
{
    &&& minor_defined(m, row, col)
    &&& (row + col) % 2 != 0 ==> minor_of(m, row, col).neg_req()
}

/// The inverse of `m` by the adjugate: cell `(r, c)` is the cofactor of `m`
/// at `(c, r)` divided by the determinant of `m`.
pub open spec fn inverse_of<T: Scalar>(m: Seq<Seq<T>>) -> Seq<Seq<T>> {
    Seq::new(
        m.len(),
        |r: int|
            Seq::new(m.len(), |c: int| cofactor_of(m, c, r).div_spec(determinant_of(m))),
    )
}

/// Every cofactor of `m` is defined and can be divided by the determinant of
/// `m`.
pub open spec fn inverse_defined<T: Scalar>(m: Seq<Seq<T>>) -> bool {
    forall|r: int, c: int|
        0 <= r < m.len() && 0 <= c < m.len() ==> #[trigger] cofactor_defined(m, r, c)
            && cofactor_of(m, r, c).div_req(determinant_of(m))
}

/// What holds of a whole expansion holds of each of its prefixes.
pub proof fn lemma_expansion_defined_prefix<T: Scalar>(m: Seq<Seq<T>>, n: nat, k: nat)
    requires
        expansion_defined(m, n),
        k <= n,
    ensures
        expansion_defined(m, k),
    decreases n,
{
    if k < n {
        lemma_expansion_defined_prefix(m, (n - 1) as nat, k);
    }
}

} // verus!
