use crate::core3d::model::{
    apply_defined, cofactor_defined, cofactor_of, column_of, determinant_defined, determinant_of,
    dot_defined, dot_of, expansion_defined, expansion_of, inverse_defined, is_shape,
    minor_defined, minor_of, product_defined, submatrix_of,
};
use crate::core3d::scalar::zero;
use vstd::prelude::*;
use vstd::std_specs::ops::{AddSpec, DivSpec, MulSpec, NegSpec, SubSpec};

verus! {

/// `x` lies within `bound` of zero.
pub open spec fn within(x: int, bound: int) -> bool {
    -bound <= x <= bound
}

/// Every cell of `m` lies within `bound` of zero.
pub open spec fn cells_within(m: Seq<Seq<i64>>, bound: int) -> bool {
    forall|r: int, c: int|
        0 <= r < m.len() && 0 <= c < m[r].len() ==> within(#[trigger] m[r][c] as int, bound)
}

/// How far from zero the determinant of an `n` by `n` matrix can lie whose
/// cells lie within `bound`: `n! * bound^n`.
pub open spec fn determinant_bound(n: nat, bound: int) -> int
    decreases n,
{
    if n <= 1 {
        bound
    } else if n == 2 {
        2 * (bound * bound)
    } else {
        n * (bound * determinant_bound((n - 1) as nat, bound))
    }
}

/// A product lies within the product of what its factors lie within.
proof fn lemma_product_within(x: int, y: int, a: int, b: int)
    by (nonlinear_arith)
    requires
        within(x, a),
        within(y, b),
    ensures
        within(x * y, a * b),
        0 <= a * b,
{
}

/// The bound of the determinant is not negative, and that of the smaller
/// matrix, taken `n` times `bound`, is no larger than that of the larger.
proof fn lemma_determinant_bound_grows(n: nat, bound: int)
    requires
        0 <= bound,
    ensures
        0 <= determinant_bound(n, bound),
        n >= 3 ==> 0 <= bound * determinant_bound((n - 1) as nat, bound),
        n >= 3 && bound >= 1 ==> determinant_bound((n - 1) as nat, bound) <= determinant_bound(
            n,
            bound,
        ),
    decreases n,
{
    if n == 2 {
        assert(0 <= bound * bound) by (nonlinear_arith)
            requires
                0 <= bound,
        ;
    } else if n >= 3 {
        lemma_determinant_bound_grows((n - 1) as nat, bound);
        let smaller = determinant_bound((n - 1) as nat, bound);
        assert(0 <= bound * smaller && (bound >= 1 ==> smaller <= n * (bound * smaller)))
            by (nonlinear_arith)
            requires
                0 <= bound,
                0 <= smaller,
                n >= 3,
        ;
    }
}

/// A submatrix of a square matrix is square, and its cells lie where those
/// of the matrix lie.
proof fn lemma_submatrix_within(m: Seq<Seq<i64>>, row: int, col: int, bound: int)
    requires
        m.len() >= 1,
        is_shape(m, m.len(), m.len()),
        cells_within(m, bound),
    ensures
        is_shape(submatrix_of(m, row, col), (m.len() - 1) as nat, (m.len() - 1) as nat),
        cells_within(submatrix_of(m, row, col), bound),
{
    let sub = submatrix_of(m, row, col);
    assert forall|r: int, c: int| 0 <= r < sub.len() && 0 <= c < sub[r].len() implies within(
        #[trigger] sub[r][c] as int,
        bound,
    ) by {
        let from_row = if r < row {
            r
        } else {
            r + 1
        };
        let from_col = if c < col {
            c
        } else {
            c + 1
        };
        assert(sub[r][c] == m[from_row][from_col]);
    }
}

/// The determinant of a square matrix of 64-bit integers is defined, and
/// lies within its bound, wherever that bound fits in 64 bits.
pub proof fn lemma_determinant_within(m: Seq<Seq<i64>>, bound: int)
    requires
        m.len() >= 1,
        is_shape(m, m.len(), m.len()),
        0 <= bound,
        cells_within(m, bound),
        determinant_bound(m.len(), bound) <= i64::MAX,
    ensures
        determinant_defined(m),
        within(determinant_of(m) as int, determinant_bound(m.len(), bound)),
    decreases m.len(), 1nat, 0nat,
{
    let n = m.len();
    if n == 1 {
        assert(within(m[0][0] as int, bound));
    } else if n == 2 {
        assert(within(m[0][0] as int, bound));
        assert(within(m[0][1] as int, bound));
        assert(within(m[1][0] as int, bound));
        assert(within(m[1][1] as int, bound));
        lemma_product_within(m[0][0] as int, m[1][1] as int, bound, bound);
        lemma_product_within(m[0][1] as int, m[1][0] as int, bound, bound);
    } else {
        lemma_expansion_within(m, bound, n);
    }
}

/// Each prefix of the expansion along row 0 is defined, and lies within as
/// many times the bound of one term as it has terms.
proof fn lemma_expansion_within(m: Seq<Seq<i64>>, bound: int, k: nat)
    requires
        m.len() >= 3,
        is_shape(m, m.len(), m.len()),
        0 <= bound,
        cells_within(m, bound),
        determinant_bound(m.len(), bound) <= i64::MAX,
        k <= m.len(),
    ensures
        expansion_defined(m, k),
        within(
            expansion_of(m, k) as int,
            k * (bound * determinant_bound((m.len() - 1) as nat, bound)),
        ),
    decreases m.len(), 0nat, k,
{
    let n = m.len();
    let smaller = determinant_bound((n - 1) as nat, bound);
    let term = bound * smaller;
    lemma_determinant_bound_grows(n, bound);
    if bound == 0 {
        lemma_determinant_bound_zero((n - 1) as nat);
    }
    if k == 0 {
        assert(0 * term == 0) by (nonlinear_arith);
    } else {
        let c = k - 1;
        lemma_expansion_within(m, bound, c as nat);
        lemma_cofactor_within(m, bound, 0, c);
        assert(within(m[0][c] as int, bound));
        lemma_product_within(m[0][c] as int, cofactor_of(m, 0, c) as int, bound, smaller);
        assert(c * term + term == k * term && k * term <= n * term) by (nonlinear_arith)
            requires
                c + 1 == k,
                k <= n,
                0 <= term,
        ;
    }
}

/// Each cofactor of a matrix of at least 2 rows is defined, and lies within
/// the bound of the determinant one size smaller.
proof fn lemma_cofactor_within(m: Seq<Seq<i64>>, bound: int, row: int, col: int)
    requires
        m.len() >= 2,
        is_shape(m, m.len(), m.len()),
        0 <= bound,
        cells_within(m, bound),
        determinant_bound((m.len() - 1) as nat, bound) <= i64::MAX,
    ensures
        cofactor_defined(m, row, col),
        within(cofactor_of(m, row, col) as int, determinant_bound((m.len() - 1) as nat, bound)),
    decreases m.len(), 0nat, 0nat,
{
    lemma_submatrix_within(m, row, col, bound);
    lemma_determinant_within(submatrix_of(m, row, col), bound);
    assert(minor_of(m, row, col) == determinant_of(submatrix_of(m, row, col)));
    assert(minor_defined(m, row, col));
}

/// The inverse of a square matrix of 64-bit integers with 2 rows or more and
/// a determinant other than 0 is defined wherever the bound of its
/// determinant fits in 64 bits.
pub proof fn lemma_inverse_within(m: Seq<Seq<i64>>, bound: int)
    requires
        m.len() >= 2,
        is_shape(m, m.len(), m.len()),
        0 <= bound,
        cells_within(m, bound),
        determinant_bound(m.len(), bound) <= i64::MAX,
        determinant_of(m) != zero::<i64>(),
    ensures
        determinant_defined(m),
        inverse_defined(m),
{
    let n = m.len();
    lemma_determinant_within(m, bound);
    lemma_determinant_bound_grows(n, bound);
    if n == 2 {
        assert(bound <= 2 * (bound * bound) || bound == 0) by (nonlinear_arith)
            requires
                0 <= bound,
        ;
    } else if bound == 0 {
        lemma_determinant_bound_zero((n - 1) as nat);
    }
    assert forall|r: int, c: int| 0 <= r < n && 0 <= c < n implies #[trigger] cofactor_defined(
        m,
        r,
        c,
    ) && cofactor_of(m, r, c).div_req(determinant_of(m)) by {
        lemma_cofactor_within(m, bound, r, c);
    }
}

/// With cells that are all zero the bound is zero.
proof fn lemma_determinant_bound_zero(n: nat)
    ensures
        determinant_bound(n, 0) == 0,
    decreases n,
{
    if n >= 3 {
        lemma_determinant_bound_zero((n - 1) as nat);
        assert(n * (0 * 0int) == 0) by (nonlinear_arith);
    }
}

/// A dot product of 64-bit integers is defined wherever its terms, each
/// within `a * b`, add up within 64 bits.
pub proof fn lemma_dot_within(x: Seq<i64>, y: Seq<i64>, k: nat, a: int, b: int)
    requires
        k <= x.len(),
        k <= y.len(),
        forall|i: int| 0 <= i < k ==> within(#[trigger] x[i] as int, a),
        forall|i: int| 0 <= i < k ==> within(#[trigger] y[i] as int, b),
        k * (a * b) <= i64::MAX,
    ensures
        dot_defined(x, y, k),
        within(dot_of(x, y, k) as int, k * (a * b)),
    decreases k,
{
    if k == 0 {
        assert(0 * (a * b) == 0) by (nonlinear_arith);
    } else {
        let i = k - 1;
        lemma_product_within(x[i] as int, y[i] as int, a, b);
        assert(i * (a * b) + a * b == k * (a * b) && i * (a * b) <= k * (a * b))
            by (nonlinear_arith)
            requires
                i + 1 == k,
                0 <= i,
                0 <= a * b,
        ;
        lemma_dot_within(x, y, i as nat, a, b);
    }
}

/// The product of two square matrices of 64-bit integers of one size is
/// defined wherever each of its cells, a sum of as many terms as the
/// matrices have rows, each within `a * b`, fits in 64 bits.
pub proof fn lemma_matrix_product_within(x: Seq<Seq<i64>>, y: Seq<Seq<i64>>, a: int, b: int)
    requires
        is_shape(x, x.len(), x.len()),
        is_shape(y, x.len(), x.len()),
        cells_within(x, a),
        cells_within(y, b),
        x.len() * (a * b) <= i64::MAX,
    ensures
        product_defined(x, y),
{
    let n = x.len();
    assert forall|r: int, c: int|
        0 <= r < x.len() && 0 <= c < y[0].len() implies #[trigger] dot_defined(
        x[r],
        column_of(y, c),
        y.len(),
    ) by {
        let column = column_of(y, c);
        assert forall|i: int| 0 <= i < n implies within(#[trigger] x[r][i] as int, a) by {}
        assert forall|i: int| 0 <= i < n implies within(#[trigger] column[i] as int, b) by {
            assert(column[i] == y[i][c]);
        }
        lemma_dot_within(x[r], column, n, a, b);
    }
}

/// A square matrix of 64-bit integers can be applied to a tuple of as many
/// slots as it has rows wherever each slot of the result, a sum of that many
/// terms, each within `a * b`, fits in 64 bits.
pub proof fn lemma_apply_within(m: Seq<Seq<i64>>, t: Seq<i64>, a: int, b: int)
    requires
        is_shape(m, m.len(), m.len()),
        t.len() == m.len(),
        cells_within(m, a),
        forall|i: int| 0 <= i < t.len() ==> within(#[trigger] t[i] as int, b),
        m.len() * (a * b) <= i64::MAX,
    ensures
        apply_defined(m, t),
{
    assert forall|r: int| 0 <= r < m.len() implies #[trigger] dot_defined(m[r], t, t.len()) by {
        assert forall|i: int| 0 <= i < t.len() implies within(#[trigger] m[r][i] as int, a) by {}
        lemma_dot_within(m[r], t, t.len(), a, b);
    }
}

} // verus!
