use matrix::Axis;
use matrix::Matrix;

#[test]
fn to_slice() {
    let x = Matrix::new([[1., 2., 3.], [4., 5., 6.], [7., 8., 9.]]);
    assert_eq!(x.to_slice(), &[1., 2., 3., 4., 5., 6., 7., 8., 9.]);
}

#[test]
fn reshape() {
    let mut x = Matrix::new([[1., 2., 3.], [4., 5., 6.], [7., 8., 9.]]);
    x.reshape(1, 9);
    assert_eq!(
        x,
        Matrix::new_row_vector([1., 2., 3., 4., 5., 6., 7., 8., 9.])
    );
}

#[test]
fn transpose() {
    let x = Matrix::new([[1., 2., 3.], [4., 5., 6.], [7., 8., 9.]]);
    assert_eq!(
        x.transpose(),
        Matrix::new([[1., 4., 7.], [2., 5., 8.], [3., 6., 9.]])
    );
}

#[test]
fn neg() {
    let x = Matrix::new([[1., 2., 3.], [4., 5., 6.], [7., 8., 9.]]);
    assert_eq!(
        -x,
        Matrix::new([[-1., -2., -3.], [-4., -5., -6.], [-7., -8., -9.]])
    );
}

#[test]
fn add() {
    let x = Matrix::new([[1., 2., 3.], [4., 5., 6.], [7., 8., 9.]]);
    let y = Matrix::new([[9., 8., 7.], [6., 5., 4.], [3., 2., 1.]]);
    assert_eq!(
        &x + &y,
        Matrix::new([[10., 10., 10.], [10., 10., 10.], [10., 10., 10.]])
    );
    assert_eq!(
        x.clone() + &y,
        Matrix::new([[10., 10., 10.], [10., 10., 10.], [10., 10., 10.]])
    );
    assert_eq!(
        &x + y.clone(),
        Matrix::new([[10., 10., 10.], [10., 10., 10.], [10., 10., 10.]])
    );
    assert_eq!(
        x + y,
        Matrix::new([[10., 10., 10.], [10., 10., 10.], [10., 10., 10.]])
    );
}

#[test]
fn sub() {
    let x = Matrix::new([[1., 2., 3.], [4., 5., 6.], [7., 8., 9.]]);
    let y = Matrix::new([[9., 8., 7.], [6., 5., 4.], [3., 2., 1.]]);
    assert_eq!(
        &x - &y,
        Matrix::new([[-8., -6., -4.], [-2., 0., 2.], [4., 6., 8.]])
    );
    assert_eq!(
        x.clone() - &y,
        Matrix::new([[-8., -6., -4.], [-2., 0., 2.], [4., 6., 8.]])
    );
    assert_eq!(
        &x - y.clone(),
        Matrix::new([[-8., -6., -4.], [-2., 0., 2.], [4., 6., 8.]])
    );
    assert_eq!(
        x - y,
        Matrix::new([[-8., -6., -4.], [-2., 0., 2.], [4., 6., 8.]])
    );
}

#[test]
fn cwise_mul() {
    let x = Matrix::new([[1., 2., 3.], [4., 5., 6.], [7., 8., 9.]]);
    let y = Matrix::new([[9., 8., 7.], [6., 5., 4.], [3., 2., 1.]]);
    assert_eq!(
        x.cwise_mul(&y),
        Matrix::new([[9., 16., 21.], [24., 25., 24.], [21., 16., 9.]])
    );
}

#[test]
fn cwise_div() {
    let x = Matrix::new([[1., 2., 3.], [4., 5., 6.], [7., 8., 9.]]);
    let y = Matrix::new([[1., 2., 3.], [4., 5., 6.], [7., 8., 9.]]);
    assert_eq!(
        x.cwise_div(&y),
        Matrix::new([[1., 1., 1.], [1., 1., 1.], [1., 1., 1.]])
    );
}

#[test]
fn cwise_max() {
    let x = Matrix::new([[1., 2., 3.], [4., 5., 6.], [7., 8., 9.]]);
    let y = Matrix::new([[9., 8., 7.], [6., 5., 4.], [3., 2., 1.]]);
    assert_eq!(
        x.cwise_max(&y),
        Matrix::new([[9., 8., 7.], [6., 5., 6.], [7., 8., 9.]])
    );
}

#[test]
fn cwise_min() {
    let x = Matrix::new([[1., 2., 3.], [4., 5., 6.], [7., 8., 9.]]);
    let y = Matrix::new([[9., 8., 7.], [6., 5., 4.], [3., 2., 1.]]);
    assert_eq!(
        x.cwise_min(&y),
        Matrix::new([[1., 2., 3.], [4., 5., 4.], [3., 2., 1.]])
    );
}

#[test]
fn max() {
    let x = Matrix::new([[1., 2., 3.], [4., 5., 6.], [7., 8., 9.]]);
    assert_eq!(x.max(Some(Axis::ROW)), Matrix::new_col_vector([3., 6., 9.]));
    assert_eq!(
        x.max(Some(Axis::COLUMN)),
        Matrix::new_row_vector([7., 8., 9.])
    );
    assert_eq!(x.max(None), Matrix::new([[9.]]));
}

#[test]
fn min() {
    let x = Matrix::new([[1., 2., 3.], [4., 5., 6.], [7., 8., 9.]]);
    assert_eq!(x.min(Some(Axis::ROW)), Matrix::new_col_vector([1., 4., 7.]));
    assert_eq!(
        x.min(Some(Axis::COLUMN)),
        Matrix::new_row_vector([1., 2., 3.])
    );
    assert_eq!(x.min(None), Matrix::new([[1.]]));
}

#[test]
fn triangle_func() {
    let x = Matrix::new([[1., 2., 3.], [4., 5., 6.], [7., 8., 9.]]);
    assert_eq!(
        x.map(|v: f64| v.sin()),
        Matrix::new([
            [(1_f64).sin(), (2_f64).sin(), (3_f64).sin()],
            [(4_f64).sin(), (5_f64).sin(), (6_f64).sin()],
            [(7_f64).sin(), (8_f64).sin(), (9_f64).sin()]
        ])
    );
    assert_eq!(
        x.map(|v: f64| v.cos()),
        Matrix::new([
            [(1_f64).cos(), (2_f64).cos(), (3_f64).cos()],
            [(4_f64).cos(), (5_f64).cos(), (6_f64).cos()],
            [(7_f64).cos(), (8_f64).cos(), (9_f64).cos()]
        ])
    );
}

#[test]
fn index() {
    let x = Matrix::new([[1., 2., 3.], [4., 5., 6.], [7., 8., 9.]]);
    assert_eq!(x[0][0], 1.);
    assert_eq!(x[2][2], 9.);

    let mut y = Matrix::new([[1., 2., 3.], [4., 5., 6.], [7., 8., 9.]]);
    assert_eq!(y[0][0], 1.);
    y.index_mut(0)[0] = -2.;
    assert_eq!(y[0][0], -2.);
}

#[test]
fn concat() {
    let x = Matrix::new([[1., 2., 3.], [4., 5., 6.], [7., 8., 9.]]);
    let y = Matrix::new([[9., 8., 7.], [6., 5., 4.], [3., 2., 1.]]);
    assert_eq!(
        x.concat(&y, Axis::ROW),
        Matrix::new([
            [1., 2., 3.],
            [4., 5., 6.],
            [7., 8., 9.],
            [9., 8., 7.],
            [6., 5., 4.],
            [3., 2., 1.]
        ])
    );
    assert_eq!(
        x.concat(&y, Axis::COLUMN),
        Matrix::new([
            [1., 2., 3., 9., 8., 7.],
            [4., 5., 6., 6., 5., 4.],
            [7., 8., 9., 3., 2., 1.],
        ])
    );
}

#[test]
fn clamp() {
    let x = Matrix::new([[-2., -1., -0.5, 0., 0.5, 1., 2.]]);
    assert_eq!(
        x.clamp(-1., 1.),
        Matrix::new([[-1., -1., -0.5, 0., 0.5, 1., 1.]])
    );
}

#[test]
fn repeat() {
    let x = Matrix::new([[-2., -1.5, -1., -0.5, 0., 0.5, 1., 1.5, 2.]]);
    assert_eq!(
        x.repeat(-1., 1.),
        Matrix::new([[0., 0.5, -1., -0.5, 0., 0.5, 1., -0.5, 0.]])
    );
}

#[test]
fn floor() {
    let x = Matrix::new_col_vector([1., 2., 3.]);
    assert_eq!(
        x.map(|v: f64| v.floor()),
        Matrix::new_col_vector([1_f64.floor(), 2_f64.floor(), 3_f64.floor()])
    );
}
