use num::complex::Complex;
use num::{One, Zero};
use qompute::{ComplexObject, Operator, QomputeTypeError, Scalar, Shape};

/// Single-precision complex numbers as the scalars of the library.
#[derive(Copy, Clone, Debug, PartialEq)]
struct C(Complex<f32>);

impl Scalar for C {
    type Real = f32;

    fn zero() -> Self {
        C(Complex::zero())
    }

    fn one() -> Self {
        C(Complex::one())
    }

    fn from_real(re: f32) -> Self {
        C(Complex::from(re))
    }

    fn add(self, rhs: Self) -> Self {
        C(self.0 + rhs.0)
    }

    fn sub(self, rhs: Self) -> Self {
        C(self.0 - rhs.0)
    }

    fn mul(self, rhs: Self) -> Self {
        C(self.0 * rhs.0)
    }

    fn conj(self) -> Self {
        C(self.0.conj())
    }

    fn equals(self, rhs: Self) -> bool {
        self.0 == rhs.0
    }
}

fn c(re: f32, im: f32) -> C {
    C(Complex::new(re, im))
}

fn reals(rows: &[[f32; 2]]) -> Operator<C> {
    Operator::from_real_rows(rows)
}

fn sqrt_half() -> C {
    C(Complex::from(0.5).sqrt())
}

fn gate_i() -> Operator<C> {
    reals(&[[1., 0.], [0., 1.]])
}

fn gate_zero() -> Operator<C> {
    reals(&[[0., 0.], [0., 0.]])
}

fn gate_h() -> Operator<C> {
    reals(&[[1., 1.], [1., -1.]]).scale(sqrt_half())
}

fn gate_x() -> Operator<C> {
    reals(&[[0., 1.], [1., 0.]])
}

fn gate_y() -> Operator<C> {
    Operator::from([[c(0., 0.), c(0., -1.)], [c(0., 1.), c(0., 0.)]])
}

fn gate_z() -> Operator<C> {
    reals(&[[1., 0.], [0., -1.]])
}

#[test]
fn test_involutory() {
    let i = gate_i();
    let h = gate_h();
    let x = gate_x();
    let y = gate_y();
    let z = gate_z();
    let zero = gate_zero();

    assert_eq!(&x.matmul(&x), &i);
    assert_eq!(&y.matmul(&y), &i);
    assert_eq!(&z.matmul(&z), &i);

    assert_eq!(&x.scale(c(0., -1.)).matmul(&y).matmul(&z), &i);

    assert_eq!(
        i.tensorprod(&i),
        Operator::from_diag([1., 1., 1., 1.].into_iter().map(C::from_real).collect())
    );

    assert_eq!(
        h.tensorprod(&i),
        Operator::<C>::from_real_rows(&[
            [1., 0., 1., 0.],
            [0., 1., 0., 1.],
            [1., 0., -1., 0.],
            [0., 1., 0., -1.]
        ])
        .scale(sqrt_half()),
    );

    assert_eq!(
        i.tensorprod(&h),
        Operator::<C>::from_real_rows(&[
            [1., 1., 0., 0.],
            [1., -1., 0., 0.],
            [0., 0., 1., 1.],
            [0., 0., 1., -1.]
        ])
        .scale(sqrt_half()),
    );

    assert_eq!(
        h.tensorprod(&i),
        Operator::try_from([
            [i.clone(), i.clone()],
            [i.clone(), i.scale(c(-1., 0.))]
        ])
        .unwrap()
        .scale(sqrt_half()),
    );

    assert_eq!(
        i.tensorprod(&h),
        Operator::<C>::from_real_rows(&[
            [1., 1., 0., 0.],
            [1., -1., 0., 0.],
            [0., 0., 1., 1.],
            [0., 0., 1., -1.]
        ])
        .scale(sqrt_half()),
    );

    assert_eq!(
        i.tensorprod(&h),
        Operator::try_from([[h.clone(), zero.clone()], [zero.clone(), h.clone()]]).unwrap(),
    );
}

#[test]
fn block_assembly_places_each_block() {
    let h = gate_h();
    let zero = gate_zero();
    let s = sqrt_half();
    let n = C(-s.0);
    let o = c(0., 0.);
    let assembled =
        Operator::try_from([[h.clone(), zero.clone()], [zero.clone(), h.clone()]]).unwrap();
    assert_eq!(assembled.shape, Shape { rows: 4, cols: 4 });
    assert_eq!(
        assembled,
        Operator::from([[s, s, o, o], [s, n, o, o], [o, o, s, s], [o, o, s, n]])
    );
}

#[test]
fn block_assembly_of_a_wide_grid() {
    let a = Operator::<C>::from_real_rows(&[[1., 2.]]);
    let b = Operator::<C>::from_real_rows(&[[3., 4.]]);
    let d = Operator::<C>::from_real_rows(&[[5., 6.]]);
    let assembled = Operator::try_from([[a, b, d]]).unwrap();
    assert_eq!(
        assembled,
        Operator::<C>::from_real_rows(&[[1., 2., 3., 4., 5., 6.]])
    );
    let tall = Operator::try_from([
        [Operator::<C>::from_real_rows(&[[1.], [2.]])],
        [Operator::<C>::from_real_rows(&[[3.], [4.]])],
    ])
    .unwrap();
    assert_eq!(tall, Operator::<C>::from_real_rows(&[[1.], [2.], [3.], [4.]]));
}

#[test]
fn block_assembly_rejects_blocks_of_different_shapes() {
    let small = Operator::<C>::from_real_rows(&[[1.]]);
    let r = Operator::try_from([[gate_i(), small]]);
    assert_eq!(r, Err(QomputeTypeError::NonMatchingSizes));
    let swapped = Operator::try_from([
        [Operator::<C>::from_real_rows(&[[1., 2.]]), Operator::<C>::from_real_rows(&[[1., 2.]])],
        [Operator::<C>::from_real_rows(&[[1., 2.]]), Operator::<C>::from_real_rows(&[[1.], [2.]])],
    ]);
    assert_eq!(swapped, Err(QomputeTypeError::NonMatchingSizes));
}

#[test]
fn block_assembly_rejects_an_empty_grid() {
    let no_rows: [[Operator<C>; 2]; 0] = [];
    assert_eq!(Operator::try_from(no_rows), Err(QomputeTypeError::EmptyInput));
    let no_cols: [[Operator<C>; 0]; 3] = [[], [], []];
    assert_eq!(Operator::try_from(no_cols), Err(QomputeTypeError::EmptyInput));
}

#[test]
fn identity_seeded_operator() {
    let square = Operator::<C>::new_with_shape(Shape { rows: 3, cols: 3 });
    assert_eq!(
        square,
        Operator::<C>::from_real_rows(&[[1., 0., 0.], [0., 1., 0.], [0., 0., 1.]])
    );
    let wide = Operator::<C>::new_with_shape(Shape { rows: 2, cols: 3 });
    assert_eq!(wide, Operator::<C>::from_real_rows(&[[1., 0., 0.], [0., 1., 0.]]));
    let tall = Operator::<C>::new_with_shape(Shape { rows: 3, cols: 1 });
    assert_eq!(tall, Operator::<C>::from_real_rows(&[[1.], [0.], [0.]]));
    let empty = Operator::<C>::new_with_shape(Shape { rows: 0, cols: 4 });
    assert_eq!(empty.shape, Shape { rows: 0, cols: 4 });
    assert!(empty.inner.is_empty());
}

#[test]
fn backing_length_is_rows_times_cols() {
    let a = Operator::<C>::new_with_shape(Shape { rows: 2, cols: 5 });
    assert_eq!(a.inner.len(), a.shape.rows * a.shape.cols);
    let d = Operator::from_diag(vec![c(1., 0.), c(2., 0.), c(3., 0.)]);
    assert_eq!(d.inner.len(), d.shape.rows * d.shape.cols);
    let t = a.tensorprod(&d);
    assert_eq!(t.inner.len(), t.shape.rows * t.shape.cols);
    let g = a.dagger();
    assert_eq!(g.inner.len(), g.shape.rows * g.shape.cols);
    let p = g.matmul(&a);
    assert_eq!(p.inner.len(), p.shape.rows * p.shape.cols);
    assert_eq!(ComplexObject::size(&p), 25);
    assert_eq!(ComplexObject::rows(&g), 5);
    assert_eq!(ComplexObject::cols(&g), 2);
}

#[test]
fn diagonal_operator() {
    let d = Operator::from_diag(vec![c(1., 0.), c(0., 1.), c(-1., 0.)]);
    assert_eq!(d.shape, Shape { rows: 3, cols: 3 });
    assert_eq!(
        d,
        Operator::from([
            [c(1., 0.), c(0., 0.), c(0., 0.)],
            [c(0., 0.), c(0., 1.), c(0., 0.)],
            [c(0., 0.), c(0., 0.), c(-1., 0.)],
        ])
    );
    let none = Operator::<C>::from_diag(Vec::new());
    assert_eq!(none.shape, Shape { rows: 0, cols: 0 });
}

#[test]
fn operator_index_is_row_major() {
    let mut op = Operator::<C>::from_real_rows(&[[1., 2., 3.], [4., 5., 6.]]);
    assert_eq!(op.inner[1 * 3 + 2], c(6., 0.));
    assert_eq!(*op.index((1, 2)), c(6., 0.));
    assert_eq!(*op.index((0, 1)), c(2., 0.));
    *op.index_mut((1, 0)) = c(0., 7.);
    assert_eq!(
        op,
        Operator::from([[c(1., 0.), c(2., 0.), c(3., 0.)], [c(0., 7.), c(5., 0.), c(6., 0.)]])
    );
    assert_eq!(*ComplexObject::index(&op, (1, 0)), c(0., 7.));
}

#[test]
fn dagger_of_an_operator_transposes_and_conjugates() {
    let a = Operator::from([
        [c(1., 1.), c(2., -2.), c(3., 0.)],
        [c(0., 4.), c(5., 5.), c(6., -6.)],
    ]);
    let d = a.dagger();
    assert_eq!(d.shape, Shape { rows: 3, cols: 2 });
    assert_eq!(
        d,
        Operator::from([[c(1., -1.), c(0., -4.)], [c(2., 2.), c(5., -5.)], [c(3., 0.), c(6., 6.)]])
    );
    assert_eq!(d.dagger(), a);
}

#[test]
fn sum_with_dagger_is_hermitian() {
    let a = Operator::from([[c(1., 2.), c(3., -4.)], [c(-5., 6.), c(7., 8.)]]);
    let h = a.add(&a.dagger());
    assert_eq!(
        h,
        Operator::from([[c(2., 0.), c(-2., -10.)], [c(-2., 10.), c(14., 0.)]])
    );
    assert!(h.hermitian());
    assert!(!a.hermitian());
}

#[test]
fn operator_that_is_not_square_is_not_hermitian() {
    let wide = Operator::<C>::from_real_rows(&[[1., 0., 0.], [0., 1., 0.]]);
    assert!(!wide.hermitian());
    let column = Operator::<C>::from_real_rows(&[[1.], [1.]]);
    assert!(!column.hermitian());
}

#[test]
fn hermitian_looks_at_every_entry() {
    let upper_only = Operator::from([
        [c(1., 0.), c(0., 0.), c(0., 0.)],
        [c(0., 0.), c(1., 0.), c(0., 1.)],
        [c(0., 0.), c(0., 1.), c(1., 0.)],
    ]);
    assert!(!upper_only.hermitian());
    let imaginary_diagonal = Operator::from([[c(0., 1.)]]);
    assert!(!imaginary_diagonal.hermitian());
}

#[test]
fn identity_is_neutral_for_the_product() {
    let a = Operator::from([[c(1., 2.), c(3., -4.)], [c(-5., 6.), c(7., 8.)]]);
    let id = Operator::<C>::new_with_shape(a.shape);
    assert_eq!(id.matmul(&a), a);
    assert_eq!(a.matmul(&id), a);
}

#[test]
fn product_of_operators_that_are_not_square() {
    let a = Operator::<C>::from_real_rows(&[[1., 2., 3.], [4., 5., 6.]]);
    let b = Operator::<C>::from_real_rows(&[[1., 0.], [0., 1.], [2., 2.]]);
    let p = a.matmul(&b);
    assert_eq!(p.shape, Shape { rows: 2, cols: 2 });
    assert_eq!(p, Operator::<C>::from_real_rows(&[[7., 8.], [16., 17.]]));
    let q = b.matmul(&a);
    assert_eq!(q.shape, Shape { rows: 3, cols: 3 });
    assert_eq!(
        q,
        Operator::<C>::from_real_rows(&[[1., 2., 3.], [4., 5., 6.], [10., 14., 18.]])
    );
}

#[test]
fn sum_difference_and_scaling_of_operators() {
    let a = Operator::<C>::from_real_rows(&[[1., 2.], [3., 4.]]);
    let b = Operator::<C>::from_real_rows(&[[10., 20.], [30., 40.]]);
    assert_eq!(a.add(&b), Operator::<C>::from_real_rows(&[[11., 22.], [33., 44.]]));
    assert_eq!(b.sub(&a), Operator::<C>::from_real_rows(&[[9., 18.], [27., 36.]]));
    assert_eq!(
        a.scale(c(0., 1.)),
        Operator::from([[c(0., 1.), c(0., 2.)], [c(0., 3.), c(0., 4.)]])
    );
}

#[test]
fn tensor_product_multiplies_the_shapes() {
    let a = Operator::<C>::from_real_rows(&[[1., 2., 3.], [4., 5., 6.]]);
    let b = Operator::<C>::from_real_rows(&[[1., 0.], [0., 1.], [1., 1.], [2., 0.]]);
    let t = a.tensorprod(&b);
    assert_eq!(t.shape, Shape { rows: 2 * 4, cols: 3 * 2 });
    assert_eq!(*t.index((1 * 4 + 3, 2 * 2 + 0)), c(12., 0.));
    assert_eq!(*t.index((0 * 4 + 2, 1 * 2 + 1)), c(2., 0.));
    assert_eq!(*t.index((1 * 4 + 0, 0 * 2 + 1)), c(0., 0.));
    let u = b.tensorprod(&a);
    assert_eq!(u.shape, Shape { rows: 8, cols: 6 });
    assert_eq!(ComplexObject::tensorprod(&a, &b), t);
}

#[test]
fn tensor_product_of_small_operators() {
    let x = gate_x();
    let z = gate_z();
    assert_eq!(
        x.tensorprod(&z),
        Operator::<C>::from_real_rows(&[
            [0., 0., 1., 0.],
            [0., 0., 0., -1.],
            [1., 0., 0., 0.],
            [0., -1., 0., 0.]
        ])
    );
}

#[test]
fn product_of_operators_is_associative() {
    let a = Operator::<C>::from_real_rows(&[[1., 2.], [3., 4.], [5., 6.]]);
    let b = Operator::from([
        [c(0., 1.), c(2., 0.), c(1., 1.)],
        [c(1., 0.), c(0., -1.), c(3., 0.)],
    ]);
    let d = Operator::<C>::from_real_rows(&[[1.], [2.], [-1.]]);
    let left = a.matmul(&b).matmul(&d);
    let right = a.matmul(&b.matmul(&d));
    assert_eq!(left.shape, Shape { rows: 3, cols: 1 });
    assert_eq!(left, right);
    assert_eq!(left, Operator::from([[c(-1., -4.)], [c(1., -8.)], [c(3., -12.)]]));
}
