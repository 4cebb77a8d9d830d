use matrix::Axis;
use matrix::ColVector;
use matrix::Matrix;
use matrix::One;
use matrix::RowVector;
use matrix::SparseMatrix;
use matrix::Zero;
use rand::Rng;
use rand::SeedableRng;
use rand_chacha::ChaCha8Rng;

fn sample() -> Matrix<i64> {
    Matrix::new([[1, 2, 3], [4, 5, 6]])
}

#[test]
fn buffer_length_matches_shape() {
    let m = sample();
    let all = [
        m.clone(),
        m.transpose(),
        m.as_shape(3, 2),
        m.concat(&m, Axis::ROW),
        m.concat(&m, Axis::COLUMN),
        m.sum(Some(Axis::ROW)),
        m.sum(Some(Axis::COLUMN)),
        m.sum(None),
        &m * &m.transpose(),
        &m + &m,
        -&m,
        Matrix::zero(4, 7),
        Matrix::one(1, 1),
        Matrix::eye(5),
        Matrix::from_vec(vec![1, 2, 3, 4], 4, 1),
        Matrix::from_vec2d(vec![vec![1, 2, 3], vec![4]], 2, 2),
        m.diag_row(),
        m.diag_col(),
        m.to_sparse().to_dence(),
    ];
    for x in all.iter() {
        assert!(x.rows() > 0);
        assert!(x.cols() > 0);
        assert_eq!(x.to_slice().len(), x.rows() * x.cols());
    }
}

#[test]
fn transpose_twice_is_identity() {
    let m = sample();
    assert_eq!(m.transpose().transpose(), m);
    let row = Matrix::new_row_vector([1, 2, 3, 4]);
    assert_eq!(row.transpose(), Matrix::new_col_vector([1, 2, 3, 4]));
    assert_eq!(row.transpose().transpose(), row);
    let one = Matrix::new([[7]]);
    assert_eq!(one.transpose(), one);
}

#[test]
fn transpose_of_a_wide_matrix() {
    assert_eq!(
        sample().transpose(),
        Matrix::new([[1, 4], [2, 5], [3, 6]])
    );
}

#[test]
fn product_with_identity() {
    let m = sample();
    assert_eq!(&m * &Matrix::<i64>::eye(3), m);
    assert_eq!(&Matrix::<i64>::eye(2) * &m, m);
    let col = Matrix::new_col_vector([3i64, 4, 5]);
    assert_eq!(&col * &Matrix::<i64>::eye(1), col);
    assert_eq!(&Matrix::<i64>::eye(3) * &col, col);
    let one = Matrix::new([[9i64]]);
    assert_eq!(&one * &Matrix::<i64>::eye(1), one);
}

#[test]
fn sum_with_negation_is_zero() {
    let m = Matrix::new([[1i64, -2, 3], [-4, 5, -6]]);
    assert_eq!(&m + &(-&m), Matrix::<i64>::zero_like(&m));
    assert_eq!(Matrix::<i64>::zero_like(&m), Matrix::new([[0, 0, 0], [0, 0, 0]]));
}

#[test]
fn row_sums_agree_with_column_sums_of_transpose() {
    let m = sample();
    let by_rows = m.sum(Some(Axis::ROW));
    let by_cols = m.transpose().sum(Some(Axis::COLUMN));
    assert_eq!(by_rows, Matrix::new_col_vector([6, 15]));
    assert_eq!(by_cols, Matrix::new_row_vector([6, 15]));
    assert_eq!(by_rows.as_shape(1, 2), by_cols);
}

#[test]
fn sums_of_a_square_matrix() {
    let x = Matrix::new([[1i64, 2, 3], [4, 5, 6], [7, 8, 9]]);
    assert_eq!(x.sum(Some(Axis::ROW)), Matrix::new_col_vector([6, 15, 24]));
    assert_eq!(
        x.sum(Some(Axis::COLUMN)),
        Matrix::new_row_vector([12, 15, 18])
    );
    assert_eq!(x.sum(None), Matrix::new([[45]]));
}

#[test]
fn sparse_round_trip() {
    let m = Matrix::new([[0i64, 0, 0], [0, 7, 0], [0, 0, 0], [1, 0, 2]]);
    let s = m.to_sparse();
    assert_eq!(s.values(), &[7, 1, 2]);
    assert_eq!(s.col_indices(), &[1, 0, 2]);
    assert_eq!(s.row_pointers(), &[0, 0, 1, 1, 3]);
    assert_eq!(s.to_dence(), m);
    let z = Matrix::<i64>::zero(2, 3);
    let sz = z.to_sparse();
    assert_eq!(sz.values().len(), 0);
    assert_eq!(sz.row_pointers(), &[0, 0, 0]);
    assert_eq!(sz.to_dence(), z);
}

#[test]
fn sparse_form_of_a_wide_matrix() {
    let s = SparseMatrix::new([[0i64, 5, 0, 0, 6], [1, 0, 0, 0, 0]]);
    assert_eq!(s.rows(), 2);
    assert_eq!(s.cols(), 5);
    assert_eq!(s.values(), &[5, 6, 1]);
    assert_eq!(s.col_indices(), &[1, 4, 0]);
    assert_eq!(s.row_pointers(), &[0, 2, 3]);
    assert_eq!(
        s.to_dence(),
        Matrix::new([[0, 5, 0, 0, 6], [1, 0, 0, 0, 0]])
    );
}

#[test]
fn sparse_times_column() {
    let s = SparseMatrix::new([[1i64, 0, 2], [0, 0, 0], [0, 3, 0]]);
    let v = Matrix::new_col_vector([10i64, 20, 30]);
    assert_eq!(&s * &v, Matrix::new_col_vector([70, 0, 60]));
    assert_eq!(s.times_col(&v), &s.to_dence() * &v);
    assert_eq!(s.clone() * v.clone(), Matrix::new_col_vector([70, 0, 60]));
}

#[test]
fn product_paths() {
    let a = Matrix::new([[2i64]]);
    let b = Matrix::new([[3i64]]);
    assert_eq!(&a * &b, Matrix::new([[6]]));
    let m = sample();
    assert_eq!(&a * &m, Matrix::new([[2, 4, 6], [8, 10, 12]]));
    assert_eq!(&m * &b, Matrix::new([[3, 6, 9], [12, 15, 18]]));
    let row = Matrix::new_row_vector([1i64, 2, 3]);
    let col = Matrix::new_col_vector([4i64, 5, 6]);
    assert_eq!(&row * &col, Matrix::new([[32]]));
    assert_eq!(
        &col * &row,
        Matrix::new([[4, 8, 12], [5, 10, 15], [6, 12, 18]])
    );
    let wide = Matrix::new([[1i64, 0], [0, 1], [2, 3]]);
    assert_eq!(&row * &wide, Matrix::new_row_vector([7, 11]));
    assert_eq!(&m * &col, Matrix::new_col_vector([32, 77]));
    assert_eq!(&m * &wide, Matrix::new([[7, 11], [16, 23]]));
    assert_eq!(m.times(&wide), Matrix::new([[7, 11], [16, 23]]));
}

#[test]
fn dot_product_of_slices() {
    assert_eq!(matrix::dot::dot(&[1i64, 2, 3], &[4, 5, 6]), 32);
    assert_eq!(matrix::dot::dot::<i64>(&[], &[]), 0);
}

#[test]
fn reductions_of_vectors_along_the_long_axis() {
    let row = Matrix::new_row_vector([3i64, 1, 2]);
    assert_eq!(row.sum(Some(Axis::ROW)), Matrix::new([[6]]));
    assert_eq!(row.max(Some(Axis::ROW)), Matrix::new([[3]]));
    assert_eq!(row.min(Some(Axis::ROW)), Matrix::new([[1]]));
    let col = row.transpose();
    assert_eq!(col.sum(Some(Axis::COLUMN)), Matrix::new([[6]]));
    assert_eq!(col.sum(None), row.sum(None));
    assert_eq!(col.max(Some(Axis::ROW)), col);
}

#[test]
fn reduce_with_a_closure() {
    let m = sample();
    let first = |s: &[i64]| s[0];
    assert_eq!(m.reduce(Some(Axis::ROW), &first), Matrix::new_col_vector([1, 4]));
    assert_eq!(
        m.reduce(Some(Axis::COLUMN), &first),
        Matrix::new_row_vector([1, 2, 3])
    );
    assert_eq!(m.reduce(None, &first), Matrix::new([[1]]));
    assert_eq!(m.reduce_rows(&|s: &[i64]| s[s.len() - 1]), vec![3, 6]);
}

#[test]
fn slice_reducers() {
    assert_eq!(matrix::ops::sum::sum_slice(&[1i64, 2, 3, 4]), 10);
    assert_eq!(matrix::ops::minmax::max_slice(&[1i64, 9, 3]), 9);
    assert_eq!(matrix::ops::minmax::min_slice(&[4i64, 9, 3]), 3);
    assert_eq!(matrix::ops::normalize::sum_squares_slice(&[1i64, 2, 3]), 14);
}

#[test]
fn element_access() {
    let mut m = sample();
    assert_eq!(m.get(1, 2), Some(6));
    assert_eq!(m.get(2, 0), None);
    assert_eq!(m.get(0, 3), None);
    assert_eq!(m.get_ref(0, 1), Some(&2));
    assert_eq!(m.get_ref(5, 5), None);
    assert!(m.get_mut(2, 2).is_none());
    *m.get_mut(1, 0).unwrap() = 40;
    assert_eq!(m, Matrix::new([[1, 2, 3], [40, 5, 6]]));
    assert_eq!(&m[1], &[40, 5, 6]);
    m.index_mut(0)[2] = 30;
    assert_eq!(m.to_slice(), &[1, 2, 30, 40, 5, 6]);
    assert!(!m.is_scalar());
    let s = Matrix::new([[8]]);
    assert!(s.is_scalar());
    assert_eq!(s.as_scalar(), Some(8));
}

#[test]
fn constructors() {
    assert_eq!(
        Matrix::from_vec(vec![1, 2, 3, 4, 5, 6], 2, 3),
        sample()
    );
    assert_eq!(
        Matrix::from_vec2d(vec![vec![1, 2, 3], vec![4, 5, 6]], 2, 3),
        sample()
    );
    assert_eq!(
        Matrix::from_vec2d(vec![vec![1], vec![2, 3, 4, 5], vec![], vec![6]], 2, 3),
        sample()
    );
    assert_eq!(Matrix::from_slice(&[[1, 2, 3], [4, 5, 6]][..]), sample());
    assert_eq!(
        Matrix::from_vec_row(vec![1, 2, 3]),
        Matrix::new_row_vector([1, 2, 3])
    );
    assert_eq!(
        Matrix::from_vec_col(vec![1, 2, 3]),
        Matrix::new_col_vector([1, 2, 3])
    );
    assert_eq!(Matrix::filled(2, 2, 7), Matrix::new([[7, 7], [7, 7]]));
    assert_eq!(Matrix::<u8>::one(1, 3), Matrix::new([[1, 1, 1]]));
    assert_eq!(
        Matrix::<i32>::one_like(&sample()),
        Matrix::new([[1, 1, 1], [1, 1, 1]])
    );
    assert_eq!(
        Matrix::<u16>::eye(3),
        Matrix::new([[1, 0, 0], [0, 1, 0], [0, 0, 1]])
    );
    assert_eq!(sample().rows(), 2);
    assert_eq!(sample().cols(), 3);
}

#[test]
fn equality_looks_at_the_shape() {
    let a = Matrix::new([[1, 2, 3, 4]]);
    let b = Matrix::new([[1, 2], [3, 4]]);
    assert_ne!(a, b);
    assert_eq!(a.as_shape(2, 2), b);
    assert_ne!(b, Matrix::new([[1, 2], [3, 5]]));
}

#[test]
fn reshape_keeps_row_major_order() {
    let mut m = Matrix::new([[1, 2, 3], [4, 5, 6], [7, 8, 9]]);
    m.reshape(1, 9);
    assert_eq!(m.to_slice(), &[1, 2, 3, 4, 5, 6, 7, 8, 9]);
    assert_eq!(m.rows(), 1);
    assert_eq!(m.cols(), 9);
    m.reshape(9, 1);
    assert_eq!(m, Matrix::new_col_vector([1, 2, 3, 4, 5, 6, 7, 8, 9]));
}

#[test]
fn concat_of_matrices_that_are_not_square() {
    let a = sample();
    let b = Matrix::new([[7, 8], [9, 10]]);
    assert_eq!(
        a.concat(&b, Axis::COLUMN),
        Matrix::new([[1, 2, 3, 7, 8], [4, 5, 6, 9, 10]])
    );
    let c = Matrix::new([[7, 8, 9]]);
    assert_eq!(
        a.concat(&c, Axis::ROW),
        Matrix::new([[1, 2, 3], [4, 5, 6], [7, 8, 9]])
    );
}

#[test]
fn transpose_of_a_concatenation() {
    let a = sample();
    let b = Matrix::new([[7, 8, 9]]);
    assert_eq!(
        a.concat(&b, Axis::ROW).transpose(),
        a.transpose().concat(&b.transpose(), Axis::COLUMN)
    );
}

#[test]
fn element_wise_engine() {
    let m = sample();
    assert_eq!(m.map(|x: i64| x * x), Matrix::new([[1, 4, 9], [16, 25, 36]]));
    assert_eq!(
        m.zip_with(&m, |x: i64, y: i64| x * 10 + y),
        Matrix::new([[11, 22, 33], [44, 55, 66]])
    );
    let mut n = sample();
    n.map_assign(|x: i64| x + 1);
    assert_eq!(n, Matrix::new([[2, 3, 4], [5, 6, 7]]));
    n.zip_assign(&m, |x: i64, y: i64| x - y);
    assert_eq!(n, Matrix::<i64>::one(2, 3));
}

#[test]
fn arithmetic_in_place() {
    let mut m = sample();
    m.add_assign(&sample());
    assert_eq!(m, Matrix::new([[2, 4, 6], [8, 10, 12]]));
    m.sub_assign(&Matrix::one(2, 3));
    assert_eq!(m, Matrix::new([[1, 3, 5], [7, 9, 11]]));
    m.mul_assign(3);
    assert_eq!(m, Matrix::new([[3, 9, 15], [21, 27, 33]]));
    m.div_assign(2);
    assert_eq!(m, Matrix::new([[1, 4, 7], [10, 13, 16]]));
}

#[test]
fn arithmetic_by_name_and_by_operator() {
    let a = sample();
    let b = Matrix::new([[6, 5, 4], [3, 2, 1]]);
    assert_eq!(a.plus(&b), Matrix::new([[7, 7, 7], [7, 7, 7]]));
    assert_eq!(a.minus(&b), Matrix::new([[-5, -3, -1], [1, 3, 5]]));
    assert_eq!(a.negated(), Matrix::new([[-1, -2, -3], [-4, -5, -6]]));
    assert_eq!(a.scaled(2), &a * 2);
    assert_eq!(a.clone() * 2, Matrix::new([[2, 4, 6], [8, 10, 12]]));
    assert_eq!(&a / 2, Matrix::new([[0, 1, 1], [2, 2, 3]]));
    assert_eq!(a.divided(2), a.clone() / 2);
    assert_eq!(a.cwise_mul(&b), Matrix::new([[6, 10, 12], [12, 10, 6]]));
    assert_eq!(b.cwise_div(&a), Matrix::new([[6, 2, 1], [0, 0, 0]]));
    assert_eq!(a.cwise_max(&b), Matrix::new([[6, 5, 4], [4, 5, 6]]));
    assert_eq!(a.cwise_min(&b), Matrix::new([[1, 2, 3], [3, 2, 1]]));
}

#[test]
fn maps_against_bounds() {
    let m = Matrix::new([[-3i64, -1, 0, 1, 2, 5]]);
    assert_eq!(m.step(), Matrix::new([[0, 0, 0, 1, 1, 1]]));
    assert_eq!(m.relu(), Matrix::new([[0, 0, 0, 1, 2, 5]]));
    assert_eq!(m.clamp(-1, 2), Matrix::new([[-1, -1, 0, 1, 2, 2]]));
    assert_eq!(m.repeat(-1, 2), Matrix::new([[0, -1, 0, 1, 2, 2]]));
}

#[test]
fn division_along_an_axis() {
    let m = Matrix::new([[2i64, 4, 6], [10, 20, 30]]);
    assert_eq!(
        m.div_axis(&Matrix::new_col_vector([2, 10]), Some(Axis::ROW)),
        Matrix::new([[1, 2, 3], [1, 2, 3]])
    );
    assert_eq!(
        m.div_axis(&Matrix::new_row_vector([2, 4, 6]), Some(Axis::COLUMN)),
        Matrix::new([[1, 1, 1], [5, 5, 5]])
    );
    assert_eq!(
        m.div_axis(&Matrix::new([[2]]), None),
        Matrix::new([[1, 2, 3], [5, 10, 15]])
    );
    assert_eq!(
        m.sum_squares(Some(Axis::ROW)),
        Matrix::new_col_vector([56, 1400])
    );
    assert_eq!(
        m.sum_squares(Some(Axis::COLUMN)),
        Matrix::new_row_vector([104, 416, 936])
    );
    assert_eq!(m.sum_squares(None), Matrix::new([[1456]]));
    assert_eq!(
        m.normalize1(Some(Axis::ROW)),
        Matrix::new([[0, 0, 0], [0, 0, 0]])
    );
    let k = Matrix::new([[6i64, 0], [0, 6]]);
    assert_eq!(k.normalize1(Some(Axis::COLUMN)), Matrix::<i64>::eye(2));
}

#[test]
fn diagonal_forms() {
    let v = Matrix::new_row_vector([1u32, 2]);
    assert_eq!(v.diag(), Matrix::new([[1, 0], [0, 2]]));
    let m = Matrix::new([[1u32, 2, 3], [4, 5, 6]]);
    assert_eq!(
        m.diag_row(),
        Matrix::new([[1, 2, 3, 0, 0, 0], [0, 0, 0, 4, 5, 6]])
    );
    assert_eq!(
        m.diag_col(),
        Matrix::new([[1, 0, 0], [4, 0, 0], [0, 2, 0], [0, 5, 0], [0, 0, 3], [0, 0, 6]])
    );
}

#[test]
fn text_form() {
    let m = Matrix::new([[1, 2, 3], [4, 5, 6]]);
    assert_eq!(m.to_text(), "[\n [ 1 2 3 ]\n [ 4 5 6 ]\n]");
    let f = Matrix::new([[0.5, 2.], [3.25, -1.]]);
    assert_eq!(
        f.to_text(),
        "[\n [ 0.5000 2.0000 ]\n [ 3.2500 -1.0000 ]\n]"
    );
    let texts = vec!["a".to_string(), "bc".to_string()];
    assert_eq!(matrix::format::layout(&texts, 2, 1), "[\n [ a ]\n [ bc ]\n]");
    assert_eq!(matrix::format::layout(&texts, 1, 2), "[\n [ a bc ]\n]");
}

#[test]
fn random_fill_draws_from_the_engine() {
    let mut engine = ChaCha8Rng::seed_from_u64(42);
    let m = Matrix::<i64>::rand(3, 4, &mut engine);
    assert_eq!(m.rows(), 3);
    assert_eq!(m.cols(), 4);
    assert_eq!(m.to_slice().len(), 12);
    let mut again = ChaCha8Rng::seed_from_u64(42);
    let expected: Vec<i64> = (0..12).map(|_| again.gen::<i64>()).collect();
    assert_eq!(m.to_slice(), &expected[..]);
    let next = Matrix::<i64>::rand(3, 4, &mut engine);
    assert_ne!(m, next);
    let mut other = ChaCha8Rng::seed_from_u64(7);
    let bytes = Matrix::<u8>::rand(1, 5, &mut other);
    let mut other_again = ChaCha8Rng::seed_from_u64(7);
    let expected_bytes: Vec<u8> = (0..5).map(|_| other_again.gen::<u8>()).collect();
    assert_eq!(bytes.to_slice(), &expected_bytes[..]);
}

#[test]
fn chunk_lengths() {
    assert_eq!(matrix::par::min_chunk_len(10, 3), 3);
    assert_eq!(matrix::par::min_chunk_len(2, 4), 0);
    assert_eq!(matrix::par::min_chunk_len(12, 1), 12);
    assert!(matrix::par::default_min_chunk_len(1000) <= 1000);
    assert_eq!(matrix::par::default_min_chunk_len(0), 0);
}

#[test]
fn vectors() {
    let mut r = RowVector::new([1, 2, 3]);
    assert_eq!(r.dim(), 3);
    assert_eq!(r.get_ref(1), Some(&2));
    assert_eq!(r.get_ref(3), None);
    *r.get_mut(0).unwrap() = 9;
    assert_eq!(r.get_ref(0), Some(&9));
    assert!(r.get_mut(3).is_none());
    let mut c = ColVector::from_vec(vec![4, 5]);
    assert_eq!(c.dim(), 2);
    assert_eq!(c.get_ref(1), Some(&5));
    assert_eq!(c.get_ref(2), None);
    *c.get_mut(1).unwrap() = 6;
    assert_eq!(c.get_ref(1), Some(&6));
    assert_eq!(ColVector::new([7]).dim(), 1);
    assert_eq!(RowVector::from_vec(vec![1, 2, 3, 4]).dim(), 4);
}

#[test]
fn identities_of_the_integer_types() {
    assert_eq!(<i8 as Zero>::zero(), 0);
    assert_eq!(<u64 as One>::one(), 1);
    assert!(Zero::is_zero(&0usize));
    assert!(!Zero::is_zero(&-3i32));
}

#[test]
fn activations_over_an_integer_function() {
    let m = Matrix::new([[1i64, 2], [3, 4]]);
    let double = |x: i64| 2 * x;
    assert_eq!(m.softmax(double), Matrix::new([[0, 0], [0, 0]]));
    let n = Matrix::new([[4i64, 4]]);
    assert_eq!(n.softmax(|x: i64| x + 3), Matrix::new([[0, 0]]));
    let k = Matrix::new([[0i64, 1, -2]]);
    assert_eq!(k.sigmoid(|x: i64| x * x), Matrix::new([[1, 0, 0]]));
    let v = Matrix::new([[3i64, 4], [6, 8]]);
    assert_eq!(
        v.normalize2(Some(Axis::ROW), |s: i64| s / 5),
        Matrix::new([[0, 0], [0, 0]])
    );
    assert_eq!(
        v.normalize2(None, |s: i64| s / 25),
        Matrix::new([[0, 0], [1, 1]])
    );
}
