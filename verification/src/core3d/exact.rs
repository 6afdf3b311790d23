use crate::core3d::model::{
    cofactor_defined, cofactor_of, determinant_defined, determinant_of, expansion_defined,
    expansion_of, inverse_defined, inverse_of, is_shape, minor_defined, minor_of, submatrix_of,
    transpose_of,
};
use vstd::prelude::*;
use vstd::std_specs::ops::{DivSpec, NegSpec};

verus! {

/// The determinant `ad - bc` of the integers `a b / c d`.
pub open spec fn det2(a: int, b: int, c: int, d: int) -> int {
    a * d - b * c
}

/// The determinant of the integers `a b c / d e f / g h i`, expanded along
/// its first row.
pub open spec fn det3(
    a: int,
    b: int,
    c: int,
    d: int,
    e: int,
    f: int,
    g: int,
    h: int,
    i: int,
) -> int {
    a * det2(e, f, h, i) - b * det2(d, f, g, i) + c * det2(d, e, g, h)
}

/// A determinant of 3 rows is that of its transpose.
proof fn lemma_det3_transposed(
    a: int,
    b: int,
    c: int,
    d: int,
    e: int,
    f: int,
    g: int,
    h: int,
    i: int,
)
    ensures
        det3(a, b, c, d, e, f, g, h, i) == det3(a, d, g, b, e, h, c, f, i),
{
    broadcast use vstd::arithmetic::mul::group_mul_properties;

}

/// The determinant of 4 rows of integers, expanded along its first row.
pub open spec fn det4(
    a00: int,
    a01: int,
    a02: int,
    a03: int,
    a10: int,
    a11: int,
    a12: int,
    a13: int,
    a20: int,
    a21: int,
    a22: int,
    a23: int,
    a30: int,
    a31: int,
    a32: int,
    a33: int,
) -> int {
    a00 * det3(a11, a12, a13, a21, a22, a23, a31, a32, a33)
        - a01 * det3(a10, a12, a13, a20, a22, a23, a30, a32, a33)
        + a02 * det3(a10, a11, a13, a20, a21, a23, a30, a31, a33)
        - a03 * det3(a10, a11, a12, a20, a21, a22, a30, a31, a32)
}

/// A determinant of 3 rows, expanded along its first column.
proof fn lemma_det3_by_first_column(
    a: int,
    b: int,
    c: int,
    d: int,
    e: int,
    f: int,
    g: int,
    h: int,
    i: int,
)
    ensures
        det3(a, b, c, d, e, f, g, h, i) == a * det2(e, f, h, i) - d * det2(b, c, h, i) + g * det2(
            b,
            c,
            e,
            f,
        ),
{
    broadcast use vstd::arithmetic::mul::group_mul_properties;

}

/// The sum of the products `r_j * c_i * d_ij` with alternating signs comes
/// out the same whether it is gathered by the `r_j` or by the `c_i`.
proof fn lemma_gathered_either_way(
    r1: int,
    r2: int,
    r3: int,
    c1: int,
    c2: int,
    c3: int,
    d11: int,
    d12: int,
    d13: int,
    d21: int,
    d22: int,
    d23: int,
    d31: int,
    d32: int,
    d33: int,
)
    ensures
        -(r1 * (c1 * d11 - c2 * d21 + c3 * d31)) + r2 * (c1 * d12 - c2 * d22 + c3 * d32) - r3 * (c1
            * d13 - c2 * d23 + c3 * d33) == -(c1 * (r1 * d11 - r2 * d12 + r3 * d13)) + c2 * (r1
            * d21 - r2 * d22 + r3 * d23) - c3 * (r1 * d31 - r2 * d32 + r3 * d33),
{
    broadcast use vstd::arithmetic::mul::group_mul_properties;

}

/// A determinant of 4 rows is that of its transpose.
proof fn lemma_det4_transposed(
    a00: int,
    a01: int,
    a02: int,
    a03: int,
    a10: int,
    a11: int,
    a12: int,
    a13: int,
    a20: int,
    a21: int,
    a22: int,
    a23: int,
    a30: int,
    a31: int,
    a32: int,
    a33: int,
)
    ensures
        det4(a00, a01, a02, a03, a10, a11, a12, a13, a20, a21, a22, a23, a30, a31, a32, a33) == det4(
            a00, a10, a20, a30, a01, a11, a21, a31, a02, a12, a22, a32, a03, a13, a23, a33,
        ),
{
    // The first terms agree. The others are, on the left, the cells of row 0
    // times minors expanded along column 0, and on the right, the cells of
    // column 0 times minors expanded along row 0: the same products of a
    // cell of row 0, a cell of column 0 and a determinant of 2 rows.
    lemma_det3_transposed(a11, a12, a13, a21, a22, a23, a31, a32, a33);
    lemma_det3_by_first_column(a10, a12, a13, a20, a22, a23, a30, a32, a33);
    lemma_det3_by_first_column(a10, a11, a13, a20, a21, a23, a30, a31, a33);
    lemma_det3_by_first_column(a10, a11, a12, a20, a21, a22, a30, a31, a32);
    lemma_det3_transposed(a01, a02, a03, a21, a22, a23, a31, a32, a33);
    lemma_det3_transposed(a01, a02, a03, a11, a12, a13, a31, a32, a33);
    lemma_det3_transposed(a01, a02, a03, a11, a12, a13, a21, a22, a23);
    lemma_gathered_either_way(
        a01, a02, a03, a10, a20, a30,
        det2(a22, a23, a32, a33), det2(a21, a23, a31, a33), det2(a21, a22, a31, a32),
        det2(a12, a13, a32, a33), det2(a11, a13, a31, a33), det2(a11, a12, a31, a32),
        det2(a12, a13, a22, a23), det2(a11, a13, a21, a23), det2(a11, a12, a21, a22),
    );
}

/// The index in a matrix of row (or column) `i` of its submatrix without row
/// (or column) `skip`.
pub open spec fn past(i: int, skip: int) -> int {
    if i < skip {
        i
    } else {
        i + 1
    }
}

/// `x` with the sign of the cell `(row, col)`: negated where `row + col` is
/// odd.
pub open spec fn signed(row: int, col: int, x: int) -> int {
    if (row + col) % 2 == 0 {
        x
    } else {
        -x
    }
}

/// The determinant of 2 rows of 64-bit integers, where it is defined, is the
/// integer `ad - bc`.
proof fn lemma_determinant2_exact(m: Seq<Seq<i64>>)
    requires
        is_shape(m, 2, 2),
        determinant_defined(m),
    ensures
        determinant_of(m) as int == det2(
            m[0][0] as int,
            m[0][1] as int,
            m[1][0] as int,
            m[1][1] as int,
        ),
{
}

/// A cofactor of a matrix of 3 rows of 64-bit integers, where it is defined,
/// is the integer determinant of the 2 rows and columns that stay, with the
/// sign of its cell.
proof fn lemma_cofactor3_exact(m: Seq<Seq<i64>>, row: int, col: int)
    requires
        is_shape(m, 3, 3),
        0 <= row < 3,
        0 <= col < 3,
        cofactor_defined(m, row, col),
    ensures
        cofactor_of(m, row, col) as int == signed(
            row,
            col,
            det2(
                m[past(0, row)][past(0, col)] as int,
                m[past(0, row)][past(1, col)] as int,
                m[past(1, row)][past(0, col)] as int,
                m[past(1, row)][past(1, col)] as int,
            ),
        ),
{
    let sub = submatrix_of(m, row, col);
    assert(minor_defined(m, row, col));
    assert(minor_of(m, row, col) == determinant_of(sub));
    assert(sub[0][0] == m[past(0, row)][past(0, col)]);
    assert(sub[0][1] == m[past(0, row)][past(1, col)]);
    assert(sub[1][0] == m[past(1, row)][past(0, col)]);
    assert(sub[1][1] == m[past(1, row)][past(1, col)]);
    lemma_determinant2_exact(sub);
    let minor = minor_of(m, row, col);
    if (row + col) % 2 == 0 {
        assert(cofactor_of(m, row, col) == minor);
    } else {
        assert(cofactor_of(m, row, col) == minor.neg_spec());
        assert(minor.neg_req());
    }
}

/// The determinant of 3 rows of 64-bit integers, where it is defined, is the
/// integer determinant of its cells.
proof fn lemma_determinant3_exact(m: Seq<Seq<i64>>)
    requires
        is_shape(m, 3, 3),
        determinant_defined(m),
    ensures
        determinant_of(m) as int == det3(
            m[0][0] as int,
            m[0][1] as int,
            m[0][2] as int,
            m[1][0] as int,
            m[1][1] as int,
            m[1][2] as int,
            m[2][0] as int,
            m[2][1] as int,
            m[2][2] as int,
        ),
{
    reveal_with_fuel(expansion_of, 4);
    reveal_with_fuel(expansion_defined, 4);
    assert(expansion_defined(m, 3));
    lemma_cofactor3_exact(m, 0, 0);
    lemma_cofactor3_exact(m, 0, 1);
    lemma_cofactor3_exact(m, 0, 2);
    let a = m[0][0] as int;
    let b = m[0][1] as int;
    let c = m[0][2] as int;
    let x = cofactor_of(m, 0, 0) as int;
    let y = cofactor_of(m, 0, 1) as int;
    let z = cofactor_of(m, 0, 2) as int;
    assert(determinant_of(m) as int == a * x + b * y + c * z);
    let minor = det2(m[1][0] as int, m[1][2] as int, m[2][0] as int, m[2][2] as int);
    assert(b * (-minor) == -(b * minor)) by (nonlinear_arith);
}

/// A cofactor of a matrix of 4 rows of 64-bit integers, where it is defined,
/// is the integer determinant of the 3 rows and columns that stay, with the
/// sign of its cell.
proof fn lemma_cofactor4_exact(m: Seq<Seq<i64>>, row: int, col: int)
    requires
        is_shape(m, 4, 4),
        0 <= row < 4,
        0 <= col < 4,
        cofactor_defined(m, row, col),
    ensures
        cofactor_of(m, row, col) as int == signed(
            row,
            col,
            det3(
                m[past(0, row)][past(0, col)] as int,
                m[past(0, row)][past(1, col)] as int,
                m[past(0, row)][past(2, col)] as int,
                m[past(1, row)][past(0, col)] as int,
                m[past(1, row)][past(1, col)] as int,
                m[past(1, row)][past(2, col)] as int,
                m[past(2, row)][past(0, col)] as int,
                m[past(2, row)][past(1, col)] as int,
                m[past(2, row)][past(2, col)] as int,
            ),
        ),
{
    let sub = submatrix_of(m, row, col);
    assert(minor_defined(m, row, col));
    assert(minor_of(m, row, col) == determinant_of(sub));
    assert(sub[0][0] == m[past(0, row)][past(0, col)]);
    assert(sub[0][1] == m[past(0, row)][past(1, col)]);
    assert(sub[0][2] == m[past(0, row)][past(2, col)]);
    assert(sub[1][0] == m[past(1, row)][past(0, col)]);
    assert(sub[1][1] == m[past(1, row)][past(1, col)]);
    assert(sub[1][2] == m[past(1, row)][past(2, col)]);
    assert(sub[2][0] == m[past(2, row)][past(0, col)]);
    assert(sub[2][1] == m[past(2, row)][past(1, col)]);
    assert(sub[2][2] == m[past(2, row)][past(2, col)]);
    lemma_determinant3_exact(sub);
    let minor = minor_of(m, row, col);
    if (row + col) % 2 == 0 {
        assert(cofactor_of(m, row, col) == minor);
    } else {
        assert(cofactor_of(m, row, col) == minor.neg_spec());
        assert(minor.neg_req());
    }
}

/// The determinant of 4 rows of 64-bit integers, where it is defined, is the
/// integer determinant of its cells.
proof fn lemma_determinant4_exact(m: Seq<Seq<i64>>)
    requires
        is_shape(m, 4, 4),
        determinant_defined(m),
    ensures
        determinant_of(m) as int == det4(
            m[0][0] as int,
            m[0][1] as int,
            m[0][2] as int,
            m[0][3] as int,
            m[1][0] as int,
            m[1][1] as int,
            m[1][2] as int,
            m[1][3] as int,
            m[2][0] as int,
            m[2][1] as int,
            m[2][2] as int,
            m[2][3] as int,
            m[3][0] as int,
            m[3][1] as int,
            m[3][2] as int,
            m[3][3] as int,
        ),
{
    reveal_with_fuel(expansion_of, 5);
    reveal_with_fuel(expansion_defined, 5);
    assert(expansion_defined(m, 4));
    lemma_cofactor4_exact(m, 0, 0);
    lemma_cofactor4_exact(m, 0, 1);
    lemma_cofactor4_exact(m, 0, 2);
    lemma_cofactor4_exact(m, 0, 3);
    let a = m[0][0] as int;
    let b = m[0][1] as int;
    let c = m[0][2] as int;
    let d = m[0][3] as int;
    let w = cofactor_of(m, 0, 0) as int;
    let x = cofactor_of(m, 0, 1) as int;
    let y = cofactor_of(m, 0, 2) as int;
    let z = cofactor_of(m, 0, 3) as int;
    assert(determinant_of(m) as int == a * w + b * x + c * y + d * z);
    assert(b * x == -(b * (-x))) by (nonlinear_arith);
    assert(d * z == -(d * (-z))) by (nonlinear_arith);
}

/// The cells of the transpose of a square matrix are those of the matrix
/// with row and column exchanged.
pub proof fn lemma_transpose_cells<T>(m: Seq<Seq<T>>)
    requires
        is_shape(m, m.len(), m.len()),
    ensures
        is_shape(transpose_of(m), m.len(), m.len()),
        forall|r: int, c: int|
            0 <= r < m.len() && 0 <= c < m.len() ==> #[trigger] transpose_of(m)[r][c] == m[c][r],
{
    if m.len() > 0 {
        assert(m[0].len() == m.len());
    }
}

/// The determinant of a square matrix of up to 4 rows of 64-bit integers is
/// that of its transpose, where both are defined.
pub proof fn lemma_determinant_transposed(m: Seq<Seq<i64>>)
    requires
        1 <= m.len() <= 4,
        is_shape(m, m.len(), m.len()),
        determinant_defined(m),
        determinant_defined(transpose_of(m)),
    ensures
        determinant_of(transpose_of(m)) == determinant_of(m),
{
    let t = transpose_of(m);
    lemma_transpose_cells(m);
    if m.len() == 1 {
        assert(t[0][0] == m[0][0]);
    } else if m.len() == 2 {
        lemma_determinant2_exact(m);
        lemma_determinant2_exact(t);
        assert(t[0][0] == m[0][0] && t[0][1] == m[1][0] && t[1][0] == m[0][1] && t[1][1]
            == m[1][1]);
        assert((m[0][1] as int) * (m[1][0] as int) == (m[1][0] as int) * (m[0][1] as int))
            by (nonlinear_arith);
    } else if m.len() == 3 {
        lemma_determinant3_exact(m);
        lemma_determinant3_exact(t);
        assert forall|r: int, c: int| 0 <= r < 3 && 0 <= c < 3 implies t[r][c] == m[c][r] by {}
        lemma_det3_transposed(
            m[0][0] as int,
            m[0][1] as int,
            m[0][2] as int,
            m[1][0] as int,
            m[1][1] as int,
            m[1][2] as int,
            m[2][0] as int,
            m[2][1] as int,
            m[2][2] as int,
        );
    } else {
        lemma_determinant4_exact(m);
        lemma_determinant4_exact(t);
        assert forall|r: int, c: int| 0 <= r < 4 && 0 <= c < 4 implies t[r][c] == m[c][r] by {}
        lemma_det4_transposed(
            m[0][0] as int,
            m[0][1] as int,
            m[0][2] as int,
            m[0][3] as int,
            m[1][0] as int,
            m[1][1] as int,
            m[1][2] as int,
            m[1][3] as int,
            m[2][0] as int,
            m[2][1] as int,
            m[2][2] as int,
            m[2][3] as int,
            m[3][0] as int,
            m[3][1] as int,
            m[3][2] as int,
            m[3][3] as int,
        );
    }
}

/// The determinant of the integer matrix `q` of 1 to 4 rows.
pub open spec fn integer_determinant(q: Seq<Seq<int>>) -> int {
    if q.len() <= 1 {
        q[0][0]
    } else if q.len() == 2 {
        det2(q[0][0], q[0][1], q[1][0], q[1][1])
    } else if q.len() == 3 {
        det3(q[0][0], q[0][1], q[0][2], q[1][0], q[1][1], q[1][2], q[2][0], q[2][1], q[2][2])
    } else {
        det4(
            q[0][0],
            q[0][1],
            q[0][2],
            q[0][3],
            q[1][0],
            q[1][1],
            q[1][2],
            q[1][3],
            q[2][0],
            q[2][1],
            q[2][2],
            q[2][3],
            q[3][0],
            q[3][1],
            q[3][2],
            q[3][3],
        )
    }
}

/// The cofactor of the integer matrix `q` at `(row, col)`.
pub open spec fn integer_cofactor(q: Seq<Seq<int>>, row: int, col: int) -> int {
    signed(row, col, integer_determinant(submatrix_of(q, row, col)))
}

/// The cells of `m` as integers.
pub open spec fn ints(m: Seq<Seq<i64>>) -> Seq<Seq<int>> {
    Seq::new(m.len(), |r: int| Seq::new(m[r].len(), |c: int| m[r][c] as int))
}

/// The integers of a submatrix are the submatrix of the integers.
pub proof fn lemma_ints_of_submatrix(m: Seq<Seq<i64>>, row: int, col: int)
    requires
        m.len() >= 1,
        is_shape(m, m.len(), m.len()),
    ensures
        ints(submatrix_of(m, row, col)) == submatrix_of(ints(m), row, col),
        is_shape(submatrix_of(m, row, col), (m.len() - 1) as nat, (m.len() - 1) as nat),
        is_shape(ints(m), m.len(), m.len()),
{
    assert(ints(submatrix_of(m, row, col)) =~~= submatrix_of(ints(m), row, col));
}

/// The determinant of a square matrix of up to 4 rows of 64-bit integers,
/// where it is defined, is the integer determinant of its cells.
pub proof fn lemma_determinant_exact(m: Seq<Seq<i64>>)
    requires
        1 <= m.len() <= 4,
        is_shape(m, m.len(), m.len()),
        determinant_defined(m),
    ensures
        determinant_of(m) as int == integer_determinant(ints(m)),
{
    if m.len() == 2 {
        lemma_determinant2_exact(m);
    } else if m.len() == 3 {
        lemma_determinant3_exact(m);
    } else if m.len() == 4 {
        lemma_determinant4_exact(m);
    }
}

/// A cofactor of a square matrix of 2 to 4 rows of 64-bit integers, where it
/// is defined, is the integer cofactor of its cells.
pub proof fn lemma_cofactor_exact(m: Seq<Seq<i64>>, row: int, col: int)
    requires
        2 <= m.len() <= 4,
        is_shape(m, m.len(), m.len()),
        cofactor_defined(m, row, col),
    ensures
        cofactor_of(m, row, col) as int == integer_cofactor(ints(m), row, col),
{
    let sub = submatrix_of(m, row, col);
    lemma_ints_of_submatrix(m, row, col);
    assert(minor_defined(m, row, col));
    assert(minor_of(m, row, col) == determinant_of(sub));
    lemma_determinant_exact(sub);
    let minor = minor_of(m, row, col);
    if (row + col) % 2 == 0 {
        assert(cofactor_of(m, row, col) == minor);
    } else {
        assert(cofactor_of(m, row, col) == minor.neg_spec());
        assert(minor.neg_req());
    }
}

/// A submatrix of the transpose is the transpose of the submatrix with row
/// and column exchanged.
pub proof fn lemma_submatrix_of_transpose<T>(m: Seq<Seq<T>>, row: int, col: int)
    requires
        m.len() >= 2,
        is_shape(m, m.len(), m.len()),
    ensures
        submatrix_of(transpose_of(m), col, row) == transpose_of(submatrix_of(m, row, col)),
        is_shape(submatrix_of(m, row, col), (m.len() - 1) as nat, (m.len() - 1) as nat),
{
    lemma_transpose_cells(m);
    let sub = submatrix_of(m, row, col);
    assert(is_shape(sub, (m.len() - 1) as nat, (m.len() - 1) as nat));
    lemma_transpose_cells(sub);
    assert(submatrix_of(transpose_of(m), col, row) =~~= transpose_of(sub));
}

/// The cofactor of the transpose of a square matrix of 2 to 4 rows of 64-bit
/// integers at `(col, row)` is the cofactor of the matrix at `(row, col)`,
/// where both are defined.
pub proof fn lemma_cofactor_transposed(m: Seq<Seq<i64>>, row: int, col: int)
    requires
        2 <= m.len() <= 4,
        is_shape(m, m.len(), m.len()),
        cofactor_defined(m, row, col),
        cofactor_defined(transpose_of(m), col, row),
    ensures
        cofactor_of(transpose_of(m), col, row) == cofactor_of(m, row, col),
{
    let t = transpose_of(m);
    let sub = submatrix_of(m, row, col);
    lemma_transpose_cells(m);
    lemma_submatrix_of_transpose(m, row, col);
    assert(minor_defined(m, row, col) && minor_defined(t, col, row));
    assert(minor_of(m, row, col) == determinant_of(sub));
    assert(minor_of(t, col, row) == determinant_of(transpose_of(sub)));
    lemma_determinant_transposed(sub);
}

/// Inverting the transpose of a square matrix of 2 to 4 rows of 64-bit
/// integers gives the transpose of its inverse, where both inverses are
/// defined.
pub proof fn lemma_inverse_of_transpose(m: Seq<Seq<i64>>)
    requires
        2 <= m.len() <= 4,
        is_shape(m, m.len(), m.len()),
        determinant_defined(m),
        determinant_defined(transpose_of(m)),
        inverse_defined(m),
        inverse_defined(transpose_of(m)),
    ensures
        inverse_of(transpose_of(m)) == transpose_of(inverse_of(m)),
{
    let t = transpose_of(m);
    let n = m.len();
    lemma_transpose_cells(m);
    lemma_determinant_transposed(m);
    let left = inverse_of(t);
    let inverse = inverse_of(m);
    assert(is_shape(inverse, n, n));
    lemma_transpose_cells(inverse);
    let right = transpose_of(inverse);
    assert forall|r: int, c: int| 0 <= r < n && 0 <= c < n implies left[r][c] == right[r][c] by {
        assert(cofactor_defined(m, r, c));
        assert(cofactor_defined(t, c, r));
        lemma_cofactor_transposed(m, r, c);
        assert(left[r][c] == cofactor_of(t, c, r).div_spec(determinant_of(t)));
        assert(right[r][c] == inverse[c][r]);
        assert(inverse[c][r] == cofactor_of(m, r, c).div_spec(determinant_of(m)));
    }
    assert(left =~~= right);
}

} // verus!
