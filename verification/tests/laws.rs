use float_cmp::{ApproxEq, F32Margin};
use rusty_ray_tracer::core3d::matrix::{
    Cofactor, Determinant, Identity, Invert, Matrix, Minor, Submatrix, Transpose,
};
use rusty_ray_tracer::core3d::matrix_rotations::Rotations;
use rusty_ray_tracer::core3d::matrix_scaling::Scaling;
use rusty_ray_tracer::core3d::matrix_shearing::Shearing;
use rusty_ray_tracer::core3d::matrix_transforms::Transform;
use rusty_ray_tracer::core3d::matrix_translations::Translation;

fn sample4() -> Matrix<4, 4, i64> {
    Matrix::new([[9, 3, 0, 9], [-5, -2, -6, -3], [-4, 9, 6, 4], [-7, 6, 6, 2]])
}

fn sample3() -> Matrix<3, 3, i64> {
    Matrix::new([[3, 0, 2], [2, 0, -2], [0, 1, 1]])
}

fn sign(row: usize, col: usize) -> i64 {
    if (row + col) % 2 == 0 {
        1
    } else {
        -1
    }
}

#[test]
fn transposing_twice_gives_the_matrix_back() {
    assert_eq!(sample4(), sample4().transpose().transpose());
    assert_eq!(sample3(), sample3().transpose().transpose());
    let two = Matrix::<2, 2, i32>::new([[1, 2], [3, 4]]);
    assert_eq!(Matrix::new([[1, 3], [2, 4]]), two.transpose());
    assert_eq!(two, two.transpose().transpose());
    let one = Matrix::<1, 1, i32>::new([[7]]);
    assert_eq!(one, one.transpose());
    let none = Matrix::<0, 0, i32>::new([]);
    assert_eq!(none, none.transpose());
    let floats = Matrix::<3, 3, f32>::new([[0.1, 0.2, 0.3], [1.5, -2.5, 3.5], [7.0, 8.0, 9.0]]);
    assert_eq!(floats, floats.transpose().transpose());
}

#[test]
fn determinant_of_an_identity_is_one() {
    assert_eq!(1, Matrix::<1, 1, i64>::identity().determinant());
    assert_eq!(1, Matrix::<2, 2, i64>::identity().determinant());
    assert_eq!(1, Matrix::<3, 3, i64>::identity().determinant());
    assert_eq!(1, Matrix::<4, 4, i64>::identity().determinant());
    assert_eq!(1.0, Matrix::<2, 2, f32>::identity().determinant());
    assert_eq!(1.0, Matrix::<3, 3, f32>::identity().determinant());
    assert_eq!(1.0, Matrix::<4, 4, f32>::identity().determinant());
}

#[test]
fn cofactor_is_the_signed_determinant_of_the_submatrix() {
    let m = sample4();
    for row in 0..4 {
        for col in 0..4 {
            let minor = m.submatrix(row, col).determinant();
            assert_eq!(minor, m.minor(row, col));
            assert_eq!(minor * sign(row, col), m.cofactor(row, col));
        }
    }
    let m = sample3();
    for row in 0..3 {
        for col in 0..3 {
            let minor = m.submatrix(row, col).determinant();
            assert_eq!(minor, m.minor(row, col));
            assert_eq!(minor * sign(row, col), m.cofactor(row, col));
        }
    }
    let m = Matrix::<2, 2, i64>::new([[4, 7], [2, 6]]);
    assert_eq!(6, m.cofactor(0, 0));
    assert_eq!(-2, m.cofactor(0, 1));
    assert_eq!(-7, m.cofactor(1, 0));
    assert_eq!(4, m.cofactor(1, 1));
}

#[test]
fn determinants_by_hand() {
    assert_eq!(-2.0, Matrix::<2, 2, f32>::new([[1.0, 2.0], [3.0, 4.0]]).determinant());
    assert_eq!(-2, Matrix::<2, 2, i32>::new([[1, 2], [3, 4]]).determinant());
    assert_eq!(5, Matrix::<1, 1, i32>::new([[5]]).determinant());
    assert_eq!(10, sample3().determinant());
    assert_eq!(-196, Matrix::<3, 3, i64>::new([[1, 2, 6], [-5, 8, -4], [2, 6, 4]]).determinant());
    assert_eq!(
        -4071,
        Matrix::<4, 4, i64>::new([[-2, -8, 3, 5], [-3, 1, 7, 3], [1, 2, -9, 6], [-6, 7, 7, -9]])
            .determinant()
    );
    assert_eq!(1620, sample4().determinant());
}

#[test]
fn a_matrix_times_its_adjugate_is_its_determinant_on_the_diagonal() {
    let m = sample4();
    let det = m.determinant();
    let mut adjugate = Matrix::<4, 4, i64>::default();
    for row in 0..4 {
        for col in 0..4 {
            adjugate.set(col, row, m.cofactor(row, col));
        }
    }
    let mut expected = Matrix::<4, 4, i64>::default();
    for i in 0..4 {
        expected.set(i, i, det);
    }
    assert_eq!(expected, m * adjugate);
    assert_eq!(expected, adjugate * m);
}

#[test]
fn inverse_of_a_matrix_of_determinant_one_is_exact() {
    let m = Matrix::<3, 3, i64>::new([[2, 3, 1], [1, 2, 1], [1, 1, 1]]);
    assert_eq!(1, m.determinant());
    assert!(m.is_invertible());
    let inverse = m.inverse().unwrap();
    assert_eq!(Matrix::new([[1, -2, 1], [0, 1, -1], [-1, 1, 1]]), inverse);
    assert_eq!(Matrix::<3, 3, i64>::identity(), m * inverse);
    assert_eq!(Matrix::<3, 3, i64>::identity(), inverse * m);
    assert_eq!(m.transpose().inverse().unwrap(), inverse.transpose());
}

#[test]
fn inverse_places_each_cofactor_over_the_determinant_transposed() {
    let m = Matrix::<2, 2, i64>::new([[4, 7], [2, 6]]);
    assert_eq!(10, m.determinant());
    assert_eq!(
        Some(Matrix::new([[6 / 10, -7 / 10], [-2 / 10, 4 / 10]])),
        m.inverse()
    );
    let m = Matrix::<2, 2, i64>::new([[40, 0], [20, 10]]);
    assert_eq!(Some(Matrix::new([[0, 0], [-20 / 400, 40 / 400]])), m.inverse());
    let m = Matrix::<2, 2, f32>::new([[4.0, 7.0], [2.0, 6.0]]);
    assert_eq!(
        Some(Matrix::<2, 2, f32>::new([[0.6, -0.7], [-0.2, 0.4]])),
        m.inverse()
    );
}

#[test]
fn a_singular_matrix_has_no_inverse() {
    let m = Matrix::<4, 4, f32>::new([
        [1.0, 2.0, 3.0, 4.0],
        [5.0, 6.0, 7.0, 8.0],
        [9.0, 10.0, 11.0, 12.0],
        [13.0, 14.0, 15.0, 16.0],
    ]);
    assert_eq!(0.0, m.determinant());
    assert!(!m.is_invertible());
    assert_eq!(None, m.inverse());
    let m = Matrix::<4, 4, i64>::new([[1, 2, 3, 4], [5, 6, 7, 8], [9, 10, 11, 12], [13, 14, 15, 16]]);
    assert_eq!(0, m.determinant());
    assert_eq!(None, m.inverse());
    assert_eq!(None, Matrix::<2, 2, i32>::new([[1, 2], [2, 4]]).inverse());
    assert_eq!(None, Matrix::<3, 3, i32>::default().inverse());
}

#[test]
fn submatrix_keeps_the_other_cells_in_order() {
    let m = sample4();
    assert_eq!(
        Matrix::new([[-2, -6, -3], [9, 6, 4], [6, 6, 2]]),
        m.submatrix(0, 0)
    );
    assert_eq!(
        Matrix::new([[9, 3, 0], [-5, -2, -6], [-4, 9, 6]]),
        m.submatrix(3, 3)
    );
    assert_eq!(
        Matrix::new([[9, 0, 9], [-5, -6, -3], [-7, 6, 2]]),
        m.submatrix(2, 1)
    );
    assert_eq!(Matrix::new([[3, 2], [0, 1]]), sample3().submatrix(1, 1));
    let two = Matrix::<2, 2, i32>::new([[1, 2], [3, 4]]);
    assert_eq!(Matrix::new([[4]]), two.submatrix(0, 0));
    assert_eq!(Matrix::new([[3]]), two.submatrix(0, 1));
    assert_eq!(Matrix::new([[2]]), two.submatrix(1, 0));
    assert_eq!(Matrix::new([[1]]), two.submatrix(1, 1));
}

#[test]
fn product_is_rows_times_columns() {
    let a = Matrix::<2, 2, i64>::new([[1, 2], [3, 4]]);
    let b = Matrix::<2, 2, i64>::new([[0, 1], [5, -1]]);
    assert_eq!(Matrix::new([[10, -1], [20, -1]]), a * b);
    assert_eq!(Matrix::new([[3, 4], [2, 6]]), b * a);
    assert_eq!([5, 11], a * [1, 2]);
    assert_eq!([5, 11], a.transform([1, 2]));
    let id = Matrix::<4, 4, i64>::identity();
    assert_eq!(sample4(), id * sample4());
    assert_eq!(sample4(), sample4() * id);
    assert_eq!(
        (sample4() * sample4().transpose()) * id,
        sample4() * (sample4().transpose() * id)
    );
}

#[test]
fn cells_are_read_and_written_by_row_and_column() {
    let mut m = Matrix::<2, 3, i32>::default();
    assert_eq!(Matrix::new([[0, 0, 0], [0, 0, 0]]), m);
    m.set(1, 2, 7);
    m.set(0, 1, -4);
    assert_eq!(Matrix::new([[0, -4, 0], [0, 0, 7]]), m);
    assert_eq!(7, m[(1, 2)]);
    assert_eq!(-4, m[(0, 1)]);
    assert_eq!(0, m[(0, 0)]);
    assert_eq!(m, Matrix::from([[0, -4, 0], [0, 0, 7]]));
}

#[test]
fn rows_of_a_list_are_cut_or_padded_to_the_matrix() {
    let m = Matrix::<2, 3, i32>::from(vec![vec![1, 2, 3, 4, 5], vec![6]]);
    assert_eq!(Matrix::new([[1, 2, 3], [6, 0, 0]]), m);
    let m = Matrix::<2, 2, i32>::from(vec![vec![1], vec![2, 3], vec![4, 5]]);
    assert_eq!(Matrix::new([[1, 0], [2, 3]]), m);
    let m = Matrix::<2, 2, i32>::from(vec![]);
    assert_eq!(Matrix::new([[0, 0], [0, 0]]), m);
    let m = Matrix::<3, 2, i32>::from(vec![vec![], vec![9, 8]]);
    assert_eq!(Matrix::new([[0, 0], [9, 8], [0, 0]]), m);
}

#[test]
fn builders_fill_the_cells_they_name() {
    assert_eq!(
        Matrix::new([[1, 0, 0, 5], [0, 1, 0, -3], [0, 0, 1, 2], [0, 0, 0, 1]]),
        Matrix::<4, 4, i64>::translation(5, -3, 2)
    );
    assert_eq!(
        Matrix::new([[1, 0, 5], [0, 1, -3], [0, 0, 2]]),
        Matrix::<3, 3, i64>::translation(5, -3, 2)
    );
    assert_eq!(
        Matrix::new([[1, 5], [0, -3]]),
        Matrix::<2, 2, i64>::translation(5, -3, 0)
    );
    assert_eq!(
        Matrix::new([[2, 0, 0, 0], [0, 3, 0, 0], [0, 0, 4, 0], [0, 0, 0, 1]]),
        Matrix::<4, 4, i64>::scaling(2, 3, 4)
    );
    assert_eq!(Matrix::new([[2, 0], [0, 3]]), Matrix::<2, 2, i64>::scaling(2, 3, 4));
    assert_eq!(
        Matrix::new([[1, 1, 2, 0], [3, 1, 4, 0], [5, 6, 1, 0], [0, 0, 0, 1]]),
        Matrix::<4, 4, i64>::shearing(1, 2, 3, 4, 5, 6)
    );
    assert_eq!(
        Matrix::new([[1, 1, 2], [3, 1, 4], [5, 6, 1]]),
        Matrix::<3, 3, i64>::shearing(1, 2, 3, 4, 5, 6)
    );
    assert_eq!(
        Matrix::new([[1, 0, 0, 0], [0, 3, -4, 0], [0, 4, 3, 0], [0, 0, 0, 1]]),
        Matrix::<4, 4, i64>::rotation_around_x_axis(3, 4)
    );
    assert_eq!(
        Matrix::new([[3, 0, 4, 0], [0, 1, 0, 0], [-4, 0, 3, 0], [0, 0, 0, 1]]),
        Matrix::<4, 4, i64>::rotation_around_y_axis(3, 4)
    );
    assert_eq!(
        Matrix::new([[3, -4, 0, 0], [4, 3, 0, 0], [0, 0, 1, 0], [0, 0, 0, 1]]),
        Matrix::<4, 4, i64>::rotation_around_z_axis(3, 4)
    );
    assert_eq!(
        Matrix::new([[3, -4], [4, 3]]),
        Matrix::<2, 2, i64>::rotation_around_z_axis(3, 4)
    );
}

#[test]
fn transforms_of_points() {
    assert_eq!(
        [2.0, 1.0, 7.0, 1.0],
        Matrix::<4, 4, f32>::translation(5.0, -3.0, 2.0).transform([-3.0, 4.0, 5.0, 1.0])
    );
    assert_eq!(
        [2, 1, 7, 1],
        Matrix::<4, 4, i64>::translation(5, -3, 2).transform([-3, 4, 5, 1])
    );
    assert_eq!(
        [-8.0, 18.0, 32.0, 1.0],
        Matrix::<4, 4, f32>::scaling(2.0, 3.0, 4.0).transform([-4.0, 6.0, 8.0, 1.0])
    );
    let quarter = std::f32::consts::PI / 2.0;
    let turned = Matrix::<4, 4, f32>::rotation_around_z_axis(quarter.cos(), quarter.sin())
        .transform([1.0, 0.0, 0.0, 1.0]);
    let expected = [0.0, 1.0, 0.0, 1.0];
    for slot in 0..4 {
        assert!(turned[slot].approx_eq(expected[slot], F32Margin::zero().epsilon(0.000_001)));
    }
}
