use matrix::Axis;
use matrix::Matrix;
use matrix::One;
use matrix::SparseMatrix;
use matrix::Zero;
use std::ops::Add;
use std::ops::Div;
use std::ops::Mul;
use std::ops::Neg;
use std::ops::Sub;

/// A floating-point element with the identities that the library asks for.
#[derive(Clone, Copy, Debug, PartialEq, PartialOrd)]
struct F64(f64);

impl Add for F64 {
    type Output = F64;

    fn add(self, rhs: F64) -> F64 {
        F64(self.0 + rhs.0)
    }
}

impl Mul for F64 {
    type Output = F64;

    fn mul(self, rhs: F64) -> F64 {
        F64(self.0 * rhs.0)
    }
}

impl Div for F64 {
    type Output = F64;

    fn div(self, rhs: F64) -> F64 {
        F64(self.0 / rhs.0)
    }
}

impl Sub for F64 {
    type Output = F64;

    fn sub(self, rhs: F64) -> F64 {
        F64(self.0 - rhs.0)
    }
}

impl Neg for F64 {
    type Output = F64;

    fn neg(self) -> F64 {
        F64(-self.0)
    }
}

impl Zero for F64 {
    fn zero_spec() -> F64 {
        F64(0.)
    }

    fn zero() -> F64 {
        F64(0.)
    }

    fn is_zero(&self) -> bool {
        self.0 == 0.
    }
}

impl One for F64 {
    fn one_spec() -> F64 {
        F64(1.)
    }

    fn one() -> F64 {
        F64(1.)
    }
}

fn dense<const R: usize, const C: usize>(data: [[f64; C]; R]) -> Matrix<F64> {
    Matrix::new(data.map(|row| row.map(F64)))
}

fn dense_row<const C: usize>(data: [f64; C]) -> Matrix<F64> {
    Matrix::new_row_vector(data.map(F64))
}

fn dense_col<const R: usize>(data: [f64; R]) -> Matrix<F64> {
    Matrix::new_col_vector(data.map(F64))
}

#[test]
fn matmul() {
    let x = dense([[1., 2., 3.], [4., 5., 6.]]);
    let y = dense([[1., 2., 3., 4.], [5., 6., 7., 8.], [9., 10., 11., 12.]]);

    assert_eq!(
        &x * &y,
        dense([[38., 44., 50., 56.], [83., 98., 113., 128.]])
    );
    assert_eq!(
        x.clone() * &y,
        dense([[38., 44., 50., 56.], [83., 98., 113., 128.]])
    );
    assert_eq!(
        &x * y.clone(),
        dense([[38., 44., 50., 56.], [83., 98., 113., 128.]])
    );
    assert_eq!(
        x * y,
        dense([[38., 44., 50., 56.], [83., 98., 113., 128.]])
    );

    let x = dense([[1., 2., 3., 4., 5.]]);
    let y = dense([[5., 4., 3., 2., 1.]]).transpose();
    assert_eq!(&x * &y, dense([[35.]]));
    assert_eq!(
        &y * &x,
        dense([
            [5., 10., 15., 20., 25.],
            [4., 8., 12., 16., 20.],
            [3., 6., 9., 12., 15.],
            [2., 4., 6., 8., 10.],
            [1., 2., 3., 4., 5.]
        ])
    );

    let x = dense([[1., 2., 3.], [4., 5., 6.], [7., 8., 9.]]);
    let y = dense([[1., 2., 3.]]).transpose();
    assert_eq!(&x * &y, dense([[14., 32., 50.]]).transpose());
    assert_eq!(y.transpose() * &x, dense([[30., 36., 42.]]));

    let x = dense([
        [1., -1., 0., 0., 0., 0., 0., 0., 0.],
        [1., 0., 0., -1., 0., 0., 0., 0., 0.],
        [0., 1., -1., 0., 0., 0., 0., 0., 0.],
        [0., 1., 0., 0., -1., 0., 0., 0., 0.],
        [0., 0., 1., 0., 0., -1., 0., 0., 0.],
        [0., 0., 0., 1., -1., 0., 0., 0., 0.],
        [0., 0., 0., 1., 0., 0., -1., 0., 0.],
        [0., 0., 0., 0., 1., -1., 0., 0., 0.],
        [0., 0., 0., 0., 1., 0., 0., -1., 0.],
        [0., 0., 0., 0., 0., 1., 0., 0., -1.],
        [0., 0., 0., 0., 0., 0., 1., -1., 0.],
        [0., 0., 0., 0., 0., 0., 0., 1., -1.],
    ]);
    let y = Matrix::<F64>::one(9, 1);
    assert_eq!(&x * &y, Matrix::<F64>::zero(12, 1));

    let x = dense([[0.1, 0.3, 0.5], [0.2, 0.4, 0.6]]);
    let y = dense([[1.0, 0.5]]);
    assert_eq!(&y * &x, dense([[0.2, 0.5, 0.8]]));
}

#[test]
fn sum() {
    let x = dense([[1., 2., 3., 4.], [5., 6., 7., 8.], [9., 10., 11., 12.]]);
    assert_eq!(x.sum(Some(Axis::ROW)), dense_col([10., 26., 42.]));
    assert_eq!(x.sum(Some(Axis::COLUMN)), dense_row([15., 18., 21., 24.]));
    assert_eq!(x.sum(None), dense([[78.]]));
}

#[test]
fn relu() {
    let x = dense([[-1., 2., -3.], [4., -5., 6.], [-7., 8., 9.]]);
    assert_eq!(x.relu(), dense([[0., 2., 0.], [4., 0., 6.], [0., 8., 9.]]));
}

#[test]
fn step() {
    let x = dense([[-2., -1., 0., 1., 2.]]);
    assert_eq!(x.step(), dense([[0., 0., 0., 1., 1.]]));
}

#[test]
fn normalize1() {
    let x = dense([[1., 2., 3.], [4., 5., 6.], [7., 8., 9.]]);
    assert_eq!(
        x.normalize1(None),
        dense([
            [1. / 45., 2. / 45., 3. / 45.],
            [4. / 45., 5. / 45., 6. / 45.],
            [7. / 45., 8. / 45., 9. / 45.]
        ])
    );
    assert_eq!(
        x.normalize1(Some(Axis::ROW)),
        dense([
            [1. / 6., 2. / 6., 3. / 6.],
            [4. / 15., 5. / 15., 6. / 15.],
            [7. / 24., 8. / 24., 9. / 24.]
        ])
    );
    assert_eq!(
        x.normalize1(Some(Axis::COLUMN)),
        dense([
            [1. / 12., 2. / 15., 3. / 18.],
            [4. / 12., 5. / 15., 6. / 18.],
            [7. / 12., 8. / 15., 9. / 18.]
        ])
    );
}

fn normalized2(x: &Matrix<F64>, axis: Option<Axis>) -> Matrix<F64> {
    x.normalize2(axis, |v: F64| F64(v.0.sqrt()))
}

#[test]
fn normalize2() {
    let x = dense([[1., 2., 3.], [4., 5., 6.], [7., 8., 9.]]);
    assert_eq!(
        normalized2(&x, None),
        dense([
            [
                1. / (285_f64).sqrt(),
                2. / (285_f64).sqrt(),
                3. / (285_f64).sqrt()
            ],
            [
                4. / (285_f64).sqrt(),
                5. / (285_f64).sqrt(),
                6. / (285_f64).sqrt()
            ],
            [
                7. / (285_f64).sqrt(),
                8. / (285_f64).sqrt(),
                9. / (285_f64).sqrt()
            ]
        ])
    );
    assert_eq!(
        normalized2(&x, Some(Axis::ROW)),
        dense([
            [
                1. / (14_f64).sqrt(),
                2. / (14_f64).sqrt(),
                3. / (14_f64).sqrt()
            ],
            [
                4. / (77_f64).sqrt(),
                5. / (77_f64).sqrt(),
                6. / (77_f64).sqrt()
            ],
            [
                7. / (194_f64).sqrt(),
                8. / (194_f64).sqrt(),
                9. / (194_f64).sqrt()
            ]
        ])
    );
    assert_eq!(
        normalized2(&x, Some(Axis::COLUMN)),
        dense([
            [
                1. / (66_f64).sqrt(),
                2. / (93_f64).sqrt(),
                3. / (126_f64).sqrt()
            ],
            [
                4. / (66_f64).sqrt(),
                5. / (93_f64).sqrt(),
                6. / (126_f64).sqrt()
            ],
            [
                7. / (66_f64).sqrt(),
                8. / (93_f64).sqrt(),
                9. / (126_f64).sqrt()
            ]
        ])
    );
}

#[test]
fn diag() {
    let x = dense_col([1., 2., 3.]);
    assert_eq!(x.diag(), dense([[1., 0., 0.], [0., 2., 0.], [0., 0., 3.]]));
    let y = dense([[1., 2., 3.], [4., 5., 6.], [7., 8., 9.]]);
    assert_eq!(
        y.diag_row(),
        dense([
            [1., 2., 3., 0., 0., 0., 0., 0., 0.],
            [0., 0., 0., 4., 5., 6., 0., 0., 0.],
            [0., 0., 0., 0., 0., 0., 7., 8., 9.]
        ])
    );
    assert_eq!(
        y.diag_col(),
        dense([
            [1., 0., 0.],
            [4., 0., 0.],
            [7., 0., 0.],
            [0., 2., 0.],
            [0., 5., 0.],
            [0., 8., 0.],
            [0., 0., 3.],
            [0., 0., 6.],
            [0., 0., 9.]
        ])
    )
}

#[test]
fn sparse() {
    let data = [
        [1., 0., 0., 0.],
        [0., 2., 1., 0.],
        [3., 0., 0., 2.],
        [0., 0., 1., 0.],
    ];
    let x = SparseMatrix::new(data.map(|row| row.map(F64)));
    assert_eq!(x.rows(), 4);
    assert_eq!(x.cols(), 4);
    assert_eq!(
        x.values(),
        &[F64(1.), F64(2.), F64(1.), F64(3.), F64(2.), F64(1.)]
    );
    assert_eq!(x.col_indices(), &[0, 1, 2, 0, 3, 2]);
    assert_eq!(x.row_pointers(), &[0, 1, 3, 5, 6]);
    assert_eq!(x, dense(data).to_sparse());
    assert_eq!(
        x.to_dence(),
        dense([
            [1., 0., 0., 0.],
            [0., 2., 1., 0.],
            [3., 0., 0., 2.],
            [0., 0., 1., 0.],
        ])
    )
}

#[test]
fn norms_from_pieces() {
    let x = dense([[3., 4.], [6., 8.]]);
    let norms = x
        .sum_squares(Some(Axis::ROW))
        .map(|v: F64| F64(v.0.sqrt()));
    assert_eq!(norms, dense_col([5., 10.]));
    assert_eq!(
        x.div_axis(&norms, Some(Axis::ROW)),
        dense([[0.6, 0.8], [0.6, 0.8]])
    );
    assert_eq!(normalized2(&x, Some(Axis::ROW)), dense([[0.6, 0.8], [0.6, 0.8]]));
}

#[test]
fn sigmoid() {
    let x = dense([[0., 1.], [-1., 2.]]);
    let s = x.sigmoid(|v: F64| F64(v.0.exp()));
    assert_eq!(
        s,
        dense([
            [0.5, 1. / (1. + (-1_f64).exp())],
            [1. / (1. + (1_f64).exp()), 1. / (1. + (-2_f64).exp())]
        ])
    );
}

#[test]
fn softmax() {
    let x = dense([[1., 2., 3.]]);
    let s = x.softmax(|v: F64| F64(v.0.exp()));
    let e = [(-2_f64).exp(), (-1_f64).exp(), (0_f64).exp()];
    let total = 0. + e[0] + e[1] + e[2];
    assert_eq!(s, dense([[e[0] / total, e[1] / total, e[2] / total]]));
    let sum: f64 = s.to_slice().iter().map(|v| v.0).sum();
    assert!((sum - 1.).abs() < 1e-12);
}
