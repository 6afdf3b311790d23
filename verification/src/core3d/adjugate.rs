use crate::core3d::exact::{
    det2, det3, integer_cofactor, integer_determinant, ints, lemma_cofactor_exact,
    lemma_determinant_exact,
};
use crate::core3d::model::{
    cofactor_defined, cofactor_of, column_of, determinant_defined, determinant_of, dot_defined,
    dot_of, identity_of, inverse_defined, inverse_of, is_shape, product_defined, product_of,
    submatrix_of,
};
use vstd::std_specs::ops::DivSpec;
use vstd::prelude::*;

verus! {

/// The first `k` terms of the sum of the items of `x`, each times the
/// cofactor of `q` in row `row` and in its own column.
pub open spec fn row_expansion(q: Seq<Seq<int>>, x: Seq<int>, row: int, k: nat) -> int
    decreases k,
{
    if k == 0 {
        0
    } else {
        row_expansion(q, x, row, (k - 1) as nat) + x[k - 1] * integer_cofactor(q, row, k - 1)
    }
}

/// A determinant of 3 rows with two equal rows is 0.
proof fn lemma_det3_equal_rows(a: int, b: int, c: int, d: int, e: int, f: int)
    ensures
        det3(a, b, c, a, b, c, d, e, f) == 0,
        det3(a, b, c, d, e, f, a, b, c) == 0,
        det3(d, e, f, a, b, c, a, b, c) == 0,
{
    broadcast use vstd::arithmetic::mul::group_mul_properties;

}

/// A determinant of 3 rows, expanded along its second row.
proof fn lemma_det3_by_second_row(
    a: int,
    b: int,
    c: int,
    d: int,
    e: int,
    f: int,
    g: int,
    h: int,
    i: int,
)
    ensures
        det3(a, b, c, d, e, f, g, h, i) == -(d * det2(b, c, h, i)) + e * det2(a, c, g, i) - f
            * det2(a, b, g, h),
{
    broadcast use vstd::arithmetic::mul::group_mul_properties;

}

/// A determinant of 3 rows, expanded along its third row.
proof fn lemma_det3_by_third_row(
    a: int,
    b: int,
    c: int,
    d: int,
    e: int,
    f: int,
    g: int,
    h: int,
    i: int,
)
    ensures
        det3(a, b, c, d, e, f, g, h, i) == g * det2(b, c, e, f) - h * det2(a, c, d, f) + i * det2(
            a,
            b,
            d,
            e,
        ),
{
    broadcast use vstd::arithmetic::mul::group_mul_properties;

}

/// The product with a negated factor is the negated product.
proof fn lemma_times_negated(x: int, y: int)
    by (nonlinear_arith)
    ensures
        x * (-y) == -(x * y),
{
}

/// The expansion of an integer matrix of 3 rows along any of its rows, with
/// the items of `x` in place of that row, is the determinant of the matrix
/// with `x` in that row.
proof fn lemma_row_expansion3(q: Seq<Seq<int>>, x: Seq<int>, row: int)
    requires
        is_shape(q, 3, 3),
        x.len() == 3,
        0 <= row < 3,
    ensures
        row_expansion(q, x, row, 3) == integer_determinant(q.update(row, x)),
{
    reveal_with_fuel(row_expansion, 4);
    let b = q.update(row, x);
    let s0 = submatrix_of(q, row, 0);
    let s1 = submatrix_of(q, row, 1);
    let s2 = submatrix_of(q, row, 2);
    assert(s0.len() == 2 && s1.len() == 2 && s2.len() == 2);
    lemma_times_negated(x[0], integer_determinant(s0));
    lemma_times_negated(x[1], integer_determinant(s1));
    lemma_times_negated(x[2], integer_determinant(s2));
    if row == 0 {
    } else if row == 1 {
        lemma_det3_by_second_row(
            b[0][0],
            b[0][1],
            b[0][2],
            b[1][0],
            b[1][1],
            b[1][2],
            b[2][0],
            b[2][1],
            b[2][2],
        );
    } else {
        lemma_det3_by_third_row(
            b[0][0],
            b[0][1],
            b[0][2],
            b[1][0],
            b[1][1],
            b[1][2],
            b[2][0],
            b[2][1],
            b[2][2],
        );
    }
}

/// The determinant of an integer matrix of 3 rows with two equal rows is 0.
proof fn lemma_equal_rows3(q: Seq<Seq<int>>, i: int, k: int)
    requires
        is_shape(q, 3, 3),
        0 <= i < k < 3,
        q[i] == q[k],
    ensures
        integer_determinant(q) == 0,
{
    lemma_det3_equal_rows(q[i][0], q[i][1], q[i][2], q[3 - i - k][0], q[3 - i - k][1], q[3 - i
        - k][2]);
}

/// The sum of the products `r_j * x_l * d_jl` over the pairs of different
/// columns `j` and `l`, with alternating signs, comes out the same whether
/// it is gathered by the `r_j` or by the `x_l`.
proof fn lemma_gathered_by_rows(
    r0: int,
    r1: int,
    r2: int,
    r3: int,
    x0: int,
    x1: int,
    x2: int,
    x3: int,
    d01: int,
    d02: int,
    d03: int,
    d12: int,
    d13: int,
    d23: int,
)
    ensures
        -(r0 * (x1 * d01 - x2 * d02 + x3 * d03) - r1 * (x0 * d01 - x2 * d12 + x3 * d13) + r2 * (x0 * d02 - x1 * d12 + x3 * d23) - r3 * (x0 * d03 - x1 * d13 + x2 * d23)) == x0 * (r1 * d01 - r2 * d02 + r3 * d03) - x1 * (r0 * d01 - r2 * d12 + r3 * d13) + x2 * (r0 * d02 - r1 * d12 + r3 * d23) - x3
            * (r0 * d03 - r1 * d13 + r2 * d23),
{
    broadcast use vstd::arithmetic::mul::group_mul_properties;

}

/// The expansion of an integer matrix of 4 rows along any of its rows, with
/// the items of `x` in place of that row, is the determinant of the matrix
/// with `x` in that row.
proof fn lemma_row_expansion4(q: Seq<Seq<int>>, x: Seq<int>, row: int)
    requires
        is_shape(q, 4, 4),
        x.len() == 4,
        0 <= row < 4,
    ensures
        row_expansion(q, x, row, 4) == integer_determinant(q.update(row, x)),
{
    // Below row 0, both sides are sums of the products `q[0][j] * x[l] * d`
    // over the pairs of different columns `j` and `l`, where `d` is the
    // determinant of the two other rows in the two other columns: the
    // determinant gathers them by `j`, the expansion by `l`.
    reveal_with_fuel(row_expansion, 5);
    let b = q.update(row, x);
    let x0 = x[0];
    let x1 = x[1];
    let x2 = x[2];
    let x3 = x[3];
    if row == 0 {
        lemma_times_negated(x0, integer_determinant(submatrix_of(q, 0, 0)));
        lemma_times_negated(x1, integer_determinant(submatrix_of(q, 0, 1)));
        lemma_times_negated(x2, integer_determinant(submatrix_of(q, 0, 2)));
        lemma_times_negated(x3, integer_determinant(submatrix_of(q, 0, 3)));
        assert(submatrix_of(q, 0, 0).len() == 3);
        assert(submatrix_of(q, 0, 1).len() == 3);
        assert(submatrix_of(q, 0, 2).len() == 3);
        assert(submatrix_of(q, 0, 3).len() == 3);
    } else if row == 1 {
        let r0 = q[0][0];
        let r1 = q[0][1];
        let r2 = q[0][2];
        let r3 = q[0][3];
        let d01 = det2(q[2][2], q[2][3], q[3][2], q[3][3]);
        let d02 = det2(q[2][1], q[2][3], q[3][1], q[3][3]);
        let d03 = det2(q[2][1], q[2][2], q[3][1], q[3][2]);
        let d12 = det2(q[2][0], q[2][3], q[3][0], q[3][3]);
        let d13 = det2(q[2][0], q[2][2], q[3][0], q[3][2]);
        let d23 = det2(q[2][0], q[2][1], q[3][0], q[3][1]);
        let n0 = submatrix_of(b, 0, 0);
        assert(is_shape(n0, 3, 3));
        lemma_row_expansion3(n0, n0[0], 0);
        assert(n0.update(0, n0[0]) =~= n0);
        lemma_times_negated(n0[0][0], integer_determinant(submatrix_of(n0, 0, 0)));
        lemma_times_negated(n0[0][1], integer_determinant(submatrix_of(n0, 0, 1)));
        lemma_times_negated(n0[0][2], integer_determinant(submatrix_of(n0, 0, 2)));
        assert(integer_determinant(n0) == x1 * d01 - x2 * d02 + x3 * d03);
        let n1 = submatrix_of(b, 0, 1);
        assert(is_shape(n1, 3, 3));
        lemma_row_expansion3(n1, n1[0], 0);
        assert(n1.update(0, n1[0]) =~= n1);
        lemma_times_negated(n1[0][0], integer_determinant(submatrix_of(n1, 0, 0)));
        lemma_times_negated(n1[0][1], integer_determinant(submatrix_of(n1, 0, 1)));
        lemma_times_negated(n1[0][2], integer_determinant(submatrix_of(n1, 0, 2)));
        assert(integer_determinant(n1) == x0 * d01 - x2 * d12 + x3 * d13);
        let n2 = submatrix_of(b, 0, 2);
        assert(is_shape(n2, 3, 3));
        lemma_row_expansion3(n2, n2[0], 0);
        assert(n2.update(0, n2[0]) =~= n2);
        lemma_times_negated(n2[0][0], integer_determinant(submatrix_of(n2, 0, 0)));
        lemma_times_negated(n2[0][1], integer_determinant(submatrix_of(n2, 0, 1)));
        lemma_times_negated(n2[0][2], integer_determinant(submatrix_of(n2, 0, 2)));
        assert(integer_determinant(n2) == x0 * d02 - x1 * d12 + x3 * d23);
        let n3 = submatrix_of(b, 0, 3);
        assert(is_shape(n3, 3, 3));
        lemma_row_expansion3(n3, n3[0], 0);
        assert(n3.update(0, n3[0]) =~= n3);
        lemma_times_negated(n3[0][0], integer_determinant(submatrix_of(n3, 0, 0)));
        lemma_times_negated(n3[0][1], integer_determinant(submatrix_of(n3, 0, 1)));
        lemma_times_negated(n3[0][2], integer_determinant(submatrix_of(n3, 0, 2)));
        assert(integer_determinant(n3) == x0 * d03 - x1 * d13 + x2 * d23);
        let s0 = submatrix_of(q, 1, 0);
        assert(integer_determinant(s0) == r1 * d01 - r2 * d02 + r3 * d03);
        lemma_times_negated(x0, r1 * d01 - r2 * d02 + r3 * d03);
        let s1 = submatrix_of(q, 1, 1);
        assert(integer_determinant(s1) == r0 * d01 - r2 * d12 + r3 * d13);
        lemma_times_negated(x1, r0 * d01 - r2 * d12 + r3 * d13);
        let s2 = submatrix_of(q, 1, 2);
        assert(integer_determinant(s2) == r0 * d02 - r1 * d12 + r3 * d23);
        lemma_times_negated(x2, r0 * d02 - r1 * d12 + r3 * d23);
        let s3 = submatrix_of(q, 1, 3);
        assert(integer_determinant(s3) == r0 * d03 - r1 * d13 + r2 * d23);
        lemma_times_negated(x3, r0 * d03 - r1 * d13 + r2 * d23);
        lemma_gathered_by_rows(r0, r1, r2, r3, x0, x1, x2, x3, d01, d02, d03, d12, d13, d23);
    } else if row == 2 {
        let r0 = q[0][0];
        let r1 = q[0][1];
        let r2 = q[0][2];
        let r3 = q[0][3];
        let d01 = det2(q[1][2], q[1][3], q[3][2], q[3][3]);
        let d02 = det2(q[1][1], q[1][3], q[3][1], q[3][3]);
        let d03 = det2(q[1][1], q[1][2], q[3][1], q[3][2]);
        let d12 = det2(q[1][0], q[1][3], q[3][0], q[3][3]);
        let d13 = det2(q[1][0], q[1][2], q[3][0], q[3][2]);
        let d23 = det2(q[1][0], q[1][1], q[3][0], q[3][1]);
        let n0 = submatrix_of(b, 0, 0);
        assert(is_shape(n0, 3, 3));
        lemma_row_expansion3(n0, n0[1], 1);
        assert(n0.update(1, n0[1]) =~= n0);
        lemma_times_negated(n0[1][0], integer_determinant(submatrix_of(n0, 1, 0)));
        lemma_times_negated(n0[1][1], integer_determinant(submatrix_of(n0, 1, 1)));
        lemma_times_negated(n0[1][2], integer_determinant(submatrix_of(n0, 1, 2)));
        assert(integer_determinant(n0) == -(x1 * d01 - x2 * d02 + x3 * d03));
        lemma_times_negated(r0, x1 * d01 - x2 * d02 + x3 * d03);
        let n1 = submatrix_of(b, 0, 1);
        assert(is_shape(n1, 3, 3));
        lemma_row_expansion3(n1, n1[1], 1);
        assert(n1.update(1, n1[1]) =~= n1);
        lemma_times_negated(n1[1][0], integer_determinant(submatrix_of(n1, 1, 0)));
        lemma_times_negated(n1[1][1], integer_determinant(submatrix_of(n1, 1, 1)));
        lemma_times_negated(n1[1][2], integer_determinant(submatrix_of(n1, 1, 2)));
        assert(integer_determinant(n1) == -(x0 * d01 - x2 * d12 + x3 * d13));
        lemma_times_negated(r1, x0 * d01 - x2 * d12 + x3 * d13);
        let n2 = submatrix_of(b, 0, 2);
        assert(is_shape(n2, 3, 3));
        lemma_row_expansion3(n2, n2[1], 1);
        assert(n2.update(1, n2[1]) =~= n2);
        lemma_times_negated(n2[1][0], integer_determinant(submatrix_of(n2, 1, 0)));
        lemma_times_negated(n2[1][1], integer_determinant(submatrix_of(n2, 1, 1)));
        lemma_times_negated(n2[1][2], integer_determinant(submatrix_of(n2, 1, 2)));
        assert(integer_determinant(n2) == -(x0 * d02 - x1 * d12 + x3 * d23));
        lemma_times_negated(r2, x0 * d02 - x1 * d12 + x3 * d23);
        let n3 = submatrix_of(b, 0, 3);
        assert(is_shape(n3, 3, 3));
        lemma_row_expansion3(n3, n3[1], 1);
        assert(n3.update(1, n3[1]) =~= n3);
        lemma_times_negated(n3[1][0], integer_determinant(submatrix_of(n3, 1, 0)));
        lemma_times_negated(n3[1][1], integer_determinant(submatrix_of(n3, 1, 1)));
        lemma_times_negated(n3[1][2], integer_determinant(submatrix_of(n3, 1, 2)));
        assert(integer_determinant(n3) == -(x0 * d03 - x1 * d13 + x2 * d23));
        lemma_times_negated(r3, x0 * d03 - x1 * d13 + x2 * d23);
        let s0 = submatrix_of(q, 2, 0);
        assert(integer_determinant(s0) == r1 * d01 - r2 * d02 + r3 * d03);
        lemma_times_negated(x0, r1 * d01 - r2 * d02 + r3 * d03);
        let s1 = submatrix_of(q, 2, 1);
        assert(integer_determinant(s1) == r0 * d01 - r2 * d12 + r3 * d13);
        lemma_times_negated(x1, r0 * d01 - r2 * d12 + r3 * d13);
        let s2 = submatrix_of(q, 2, 2);
        assert(integer_determinant(s2) == r0 * d02 - r1 * d12 + r3 * d23);
        lemma_times_negated(x2, r0 * d02 - r1 * d12 + r3 * d23);
        let s3 = submatrix_of(q, 2, 3);
        assert(integer_determinant(s3) == r0 * d03 - r1 * d13 + r2 * d23);
        lemma_times_negated(x3, r0 * d03 - r1 * d13 + r2 * d23);
        lemma_gathered_by_rows(r0, r1, r2, r3, x0, x1, x2, x3, d01, d02, d03, d12, d13, d23);
    } else {
        let r0 = q[0][0];
        let r1 = q[0][1];
        let r2 = q[0][2];
        let r3 = q[0][3];
        let d01 = det2(q[1][2], q[1][3], q[2][2], q[2][3]);
        let d02 = det2(q[1][1], q[1][3], q[2][1], q[2][3]);
        let d03 = det2(q[1][1], q[1][2], q[2][1], q[2][2]);
        let d12 = det2(q[1][0], q[1][3], q[2][0], q[2][3]);
        let d13 = det2(q[1][0], q[1][2], q[2][0], q[2][2]);
        let d23 = det2(q[1][0], q[1][1], q[2][0], q[2][1]);
        let n0 = submatrix_of(b, 0, 0);
        assert(is_shape(n0, 3, 3));
        lemma_row_expansion3(n0, n0[2], 2);
        assert(n0.update(2, n0[2]) =~= n0);
        lemma_times_negated(n0[2][0], integer_determinant(submatrix_of(n0, 2, 0)));
        lemma_times_negated(n0[2][1], integer_determinant(submatrix_of(n0, 2, 1)));
        lemma_times_negated(n0[2][2], integer_determinant(submatrix_of(n0, 2, 2)));
        assert(integer_determinant(n0) == x1 * d01 - x2 * d02 + x3 * d03);
        let n1 = submatrix_of(b, 0, 1);
        assert(is_shape(n1, 3, 3));
        lemma_row_expansion3(n1, n1[2], 2);
        assert(n1.update(2, n1[2]) =~= n1);
        lemma_times_negated(n1[2][0], integer_determinant(submatrix_of(n1, 2, 0)));
        lemma_times_negated(n1[2][1], integer_determinant(submatrix_of(n1, 2, 1)));
        lemma_times_negated(n1[2][2], integer_determinant(submatrix_of(n1, 2, 2)));
        assert(integer_determinant(n1) == x0 * d01 - x2 * d12 + x3 * d13);
        let n2 = submatrix_of(b, 0, 2);
        assert(is_shape(n2, 3, 3));
        lemma_row_expansion3(n2, n2[2], 2);
        assert(n2.update(2, n2[2]) =~= n2);
        lemma_times_negated(n2[2][0], integer_determinant(submatrix_of(n2, 2, 0)));
        lemma_times_negated(n2[2][1], integer_determinant(submatrix_of(n2, 2, 1)));
        lemma_times_negated(n2[2][2], integer_determinant(submatrix_of(n2, 2, 2)));
        assert(integer_determinant(n2) == x0 * d02 - x1 * d12 + x3 * d23);
        let n3 = submatrix_of(b, 0, 3);
        assert(is_shape(n3, 3, 3));
        lemma_row_expansion3(n3, n3[2], 2);
        assert(n3.update(2, n3[2]) =~= n3);
        lemma_times_negated(n3[2][0], integer_determinant(submatrix_of(n3, 2, 0)));
        lemma_times_negated(n3[2][1], integer_determinant(submatrix_of(n3, 2, 1)));
        lemma_times_negated(n3[2][2], integer_determinant(submatrix_of(n3, 2, 2)));
        assert(integer_determinant(n3) == x0 * d03 - x1 * d13 + x2 * d23);
        let s0 = submatrix_of(q, 3, 0);
        assert(integer_determinant(s0) == r1 * d01 - r2 * d02 + r3 * d03);
        lemma_times_negated(x0, r1 * d01 - r2 * d02 + r3 * d03);
        let s1 = submatrix_of(q, 3, 1);
        assert(integer_determinant(s1) == r0 * d01 - r2 * d12 + r3 * d13);
        lemma_times_negated(x1, r0 * d01 - r2 * d12 + r3 * d13);
        let s2 = submatrix_of(q, 3, 2);
        assert(integer_determinant(s2) == r0 * d02 - r1 * d12 + r3 * d23);
        lemma_times_negated(x2, r0 * d02 - r1 * d12 + r3 * d23);
        let s3 = submatrix_of(q, 3, 3);
        assert(integer_determinant(s3) == r0 * d03 - r1 * d13 + r2 * d23);
        lemma_times_negated(x3, r0 * d03 - r1 * d13 + r2 * d23);
        lemma_gathered_by_rows(r0, r1, r2, r3, x0, x1, x2, x3, d01, d02, d03, d12, d13, d23);
    }
}

/// The expansion of an integer matrix of 2 rows along either of its rows,
/// with the items of `x` in place of that row, is the determinant of the
/// matrix with `x` in that row.
proof fn lemma_row_expansion2(q: Seq<Seq<int>>, x: Seq<int>, row: int)
    requires
        is_shape(q, 2, 2),
        x.len() == 2,
        0 <= row < 2,
    ensures
        row_expansion(q, x, row, 2) == integer_determinant(q.update(row, x)),
{
    reveal_with_fuel(row_expansion, 3);
    let s0 = submatrix_of(q, row, 0);
    let s1 = submatrix_of(q, row, 1);
    assert(s0.len() == 1 && s1.len() == 1);
    lemma_times_negated(x[0], integer_determinant(s0));
    lemma_times_negated(x[1], integer_determinant(s1));
    assert(q[0][1] * x[0] == x[0] * q[0][1]) by (nonlinear_arith);
    assert(q[0][0] * x[1] == x[1] * q[0][0]) by (nonlinear_arith);
}

/// The expansion of an integer matrix of 2 to 4 rows along any of its rows,
/// with the items of `x` in place of that row, is the determinant of the
/// matrix with `x` in that row.
pub proof fn lemma_row_expansion(q: Seq<Seq<int>>, x: Seq<int>, row: int)
    requires
        2 <= q.len() <= 4,
        is_shape(q, q.len(), q.len()),
        x.len() == q.len(),
        0 <= row < q.len(),
    ensures
        row_expansion(q, x, row, q.len()) == integer_determinant(q.update(row, x)),
{
    if q.len() == 2 {
        lemma_row_expansion2(q, x, row);
    } else if q.len() == 3 {
        lemma_row_expansion3(q, x, row);
    } else {
        lemma_row_expansion4(q, x, row);
    }
}

/// An expansion whose cofactors are all 0 is 0.
proof fn lemma_row_expansion_of_zeros(q: Seq<Seq<int>>, x: Seq<int>, row: int, k: nat)
    requires
        forall|j: int| 0 <= j < k ==> #[trigger] integer_cofactor(q, row, j) == 0,
    ensures
        row_expansion(q, x, row, k) == 0,
    decreases k,
{
    if k > 0 {
        lemma_row_expansion_of_zeros(q, x, row, (k - 1) as nat);
        assert(x[k - 1] * 0 == 0) by (nonlinear_arith);
    }
}

/// The determinant of an integer matrix of 2 to 4 rows with two equal rows
/// is 0.
pub proof fn lemma_equal_rows(q: Seq<Seq<int>>, i: int, k: int)
    requires
        2 <= q.len() <= 4,
        is_shape(q, q.len(), q.len()),
        0 <= i < k < q.len(),
        q[i] == q[k],
    ensures
        integer_determinant(q) == 0,
{
    if q.len() == 2 {
        assert(q[0][0] * q[0][1] == q[0][1] * q[0][0]) by (nonlinear_arith);
    } else if q.len() == 3 {
        lemma_equal_rows3(q, i, k);
    } else {
        let other = if i != 0 && k != 0 {
            0int
        } else if i != 1 && k != 1 {
            1int
        } else {
            2int
        };
        let above = if i < other {
            i
        } else {
            i - 1
        };
        let below = if k < other {
            k
        } else {
            k - 1
        };
        assert forall|j: int| 0 <= j < 4 implies #[trigger] integer_cofactor(q, other, j) == 0 by {
            let sub = submatrix_of(q, other, j);
            assert(is_shape(sub, 3, 3));
            assert(sub[above] =~= sub[below]);
            lemma_equal_rows3(sub, above, below);
        }
        lemma_row_expansion_of_zeros(q, q[other], other, 4);
        lemma_row_expansion4(q, q[other], other);
        assert(q.update(other, q[other]) =~= q);
    }
}

/// The items of row `i` of an integer matrix of 2 to 4 rows times the
/// cofactors of its row `k` add up to its determinant where `i` is `k`, and
/// to 0 where it is not.
pub proof fn lemma_rows_times_cofactors(q: Seq<Seq<int>>, i: int, k: int)
    requires
        2 <= q.len() <= 4,
        is_shape(q, q.len(), q.len()),
        0 <= i < q.len(),
        0 <= k < q.len(),
    ensures
        row_expansion(q, q[i], k, q.len()) == if i == k {
            integer_determinant(q)
        } else {
            0
        },
{
    lemma_row_expansion(q, q[i], k);
    let replaced = q.update(k, q[i]);
    if i == k {
        assert(replaced =~= q);
    } else if i < k {
        lemma_equal_rows(replaced, i, k);
    } else {
        lemma_equal_rows(replaced, k, i);
    }
}

/// The sum `x[0]*y[0] + .. + x[k-1]*y[k-1]` of integers.
pub open spec fn integer_dot(x: Seq<int>, y: Seq<int>, k: nat) -> int
    decreases k,
{
    if k == 0 {
        0
    } else {
        integer_dot(x, y, (k - 1) as nat) + x[k - 1] * y[k - 1]
    }
}

/// The items of `x` as integers.
pub open spec fn int_items(x: Seq<i64>) -> Seq<int> {
    Seq::new(x.len(), |i: int| x[i] as int)
}

/// A dot product of 64-bit integers, where it is defined, is the integer dot
/// product of its items.
pub proof fn lemma_dot_exact(x: Seq<i64>, y: Seq<i64>, k: nat)
    requires
        k <= x.len(),
        k <= y.len(),
        dot_defined(x, y, k),
    ensures
        dot_of(x, y, k) as int == integer_dot(int_items(x), int_items(y), k),
    decreases k,
{
    if k > 0 {
        lemma_dot_exact(x, y, (k - 1) as nat);
    }
}

/// A row expansion is the dot product of the items with the cofactors.
proof fn lemma_row_expansion_is_dot(
    q: Seq<Seq<int>>,
    x: Seq<int>,
    row: int,
    cofactors: Seq<int>,
    k: nat,
)
    requires
        k <= cofactors.len(),
        forall|j: int| 0 <= j < k ==> #[trigger] cofactors[j] == integer_cofactor(q, row, j),
    ensures
        row_expansion(q, x, row, k) == integer_dot(x, cofactors, k),
    decreases k,
{
    if k > 0 {
        lemma_row_expansion_is_dot(q, x, row, cofactors, (k - 1) as nat);
    }
}

/// A dot product times `d` is the dot product with each item of `y` taken
/// times `d`.
proof fn lemma_dot_scaled(x: Seq<int>, y: Seq<int>, scaled: Seq<int>, d: int, k: nat)
    requires
        k <= y.len(),
        k <= scaled.len(),
        forall|j: int| 0 <= j < k ==> #[trigger] scaled[j] == y[j] * d,
    ensures
        integer_dot(x, y, k) * d == integer_dot(x, scaled, k),
    decreases k,
{
    if k > 0 {
        lemma_dot_scaled(x, y, scaled, d, (k - 1) as nat);
        let sum = integer_dot(x, y, (k - 1) as nat);
        let a = x[k - 1];
        let b = y[k - 1];
        assert((sum + a * b) * d == sum * d + a * (b * d)) by (nonlinear_arith);
    }
}

/// What, taken times `d` other than 0, gives `d` is 1, and what gives 0 is
/// 0.
proof fn lemma_cancel(s: int, d: int)
    by (nonlinear_arith)
    requires
        d != 0,
    ensures
        s * d == d ==> s == 1,
        s * d == 0 ==> s == 0,
{
}

/// Every cofactor of `m` is a multiple of the determinant of `m`: the
/// division that the inverse makes of it leaves no rest.
pub open spec fn divides_evenly(m: Seq<Seq<i64>>) -> bool {
    forall|r: int, c: int|
        0 <= r < m.len() && 0 <= c < m.len() ==> (#[trigger] cofactor_of(m, r, c)).div_spec(
            determinant_of(m),
        ) * determinant_of(m) == cofactor_of(m, r, c)
}

/// A square matrix of 2 to 4 rows of 64-bit integers times its inverse is the
/// identity, where the inverse and the product are defined and the
/// determinant divides every cofactor evenly.
pub proof fn lemma_product_with_inverse(m: Seq<Seq<i64>>)
    requires
        2 <= m.len() <= 4,
        is_shape(m, m.len(), m.len()),
        determinant_defined(m),
        determinant_of(m) != 0,
        inverse_defined(m),
        product_defined(m, inverse_of(m)),
        divides_evenly(m),
    ensures
        product_of(m, inverse_of(m)) == identity_of::<i64>(m.len()),
{
    let n = m.len();
    let inverse = inverse_of(m);
    let det = determinant_of(m) as int;
    let q = ints(m);
    lemma_determinant_exact(m);
    assert(is_shape(q, n, n));
    assert(is_shape(inverse, n, n));
    let product = product_of(m, inverse);
    let identity = identity_of::<i64>(n);
    assert forall|i: int, k: int| 0 <= i < n && 0 <= k < n implies product[i][k]
        == identity[i][k] by {
        let column = column_of(inverse, k);
        let cofactors = Seq::new(n, |j: int| cofactor_of(m, k, j) as int);
        assert(dot_defined(m[i], column, n));
        lemma_dot_exact(m[i], column, n);
        assert forall|j: int| 0 <= j < n implies #[trigger] cofactors[j] == integer_cofactor(
            q,
            k,
            j,
        ) by {
            assert(cofactor_defined(m, k, j));
            lemma_cofactor_exact(m, k, j);
        }
        assert forall|j: int| 0 <= j < n implies #[trigger] cofactors[j] == int_items(column)[j]
            * det by {
            assert(column[j] == inverse[j][k]);
            assert(inverse[j][k] == cofactor_of(m, k, j).div_spec(determinant_of(m)));
        }
        lemma_dot_scaled(int_items(m[i]), int_items(column), cofactors, det, n);
        lemma_row_expansion_is_dot(q, int_items(m[i]), k, cofactors, n);
        assert(int_items(m[i]) =~= q[i]);
        lemma_rows_times_cofactors(q, i, k);
        lemma_cancel(integer_dot(int_items(m[i]), int_items(column), n), det);
        assert(product[i][k] == dot_of(m[i], column, n));
    }
    assert(product =~~= identity);
}

} // verus!
