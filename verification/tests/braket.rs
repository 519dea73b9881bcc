use num::complex::Complex;
use num::{One, Zero};
use qompute::{
    Bra, ComplexObject, Ket, Operator, Orientation, QomputeTypeError, Scalar, Shape, ToBra, ToKet,
    ToOperator,
};

/// Single-precision complex numbers as the scalars of the library.
#[derive(Copy, Clone, Debug, PartialEq)]
struct C(Complex<f32>);

impl Scalar for C {
    type Real = f32;

    fn zero() -> Self {
        C(Complex::zero())
    }

    fn one() -> Self {
        C(Complex::one())
    }

    fn from_real(re: f32) -> Self {
        C(Complex::from(re))
    }

    fn add(self, rhs: Self) -> Self {
        C(self.0 + rhs.0)
    }

    fn sub(self, rhs: Self) -> Self {
        C(self.0 - rhs.0)
    }

    fn mul(self, rhs: Self) -> Self {
        C(self.0 * rhs.0)
    }

    fn conj(self) -> Self {
        C(self.0.conj())
    }

    fn equals(self, rhs: Self) -> bool {
        self.0 == rhs.0
    }
}

fn c(re: f32, im: f32) -> C {
    C(Complex::new(re, im))
}

#[test]
fn test_braket() {
    let x = Ket::from([c(1., 2.)]);
    let y = Ket::from([c(2., 1.0)]);

    let z = Ket::from([c(3., 3.)]);

    assert_eq!(z, x.add(&y));
    assert_eq!(z.dagger().dot(&z), c(18., 0.));
    assert_eq!(z.dagger().dot(&y), c(9., -3.));
    assert_eq!(z.dagger().dot(&x), c(9., 3.));

    let w = Bra::from([c(3., -3.)]);
    assert_eq!(z.dagger(), w);

    let z_proj = z.outer(&z.dagger());
    let z_proj_op = Operator::from([[c(18., 0.)]]);

    assert_eq!(z_proj, z_proj_op);
    assert_eq!(x.scale(c(1., -2.)), Ket::from([c(5.0, 0.)]));

    let mut x = Ket::new(5);
    let mut y = Ket::new(5);

    (0..5)
        .map(|i| Complex::new(0.5, 0.) * i as f32)
        .enumerate()
        .for_each(|(i, f)| *x.index_mut(i) = C(f));

    (0..5)
        .map(|i| Complex::new(0., -0.5) * i as f32)
        .enumerate()
        .for_each(|(i, f)| *y.index_mut(i) = C(f));

    assert_eq!(
        y.dagger().dot(&x),
        C((0..5)
            .map(|i| 0.25 * (i * i) as f32 * Complex::new(0., 1.))
            .sum::<Complex<f32>>())
    );
}

#[test]
fn test_operator() {
    let op1 = Operator::from([[c(1., 0.), c(0., 1.)], [c(0., -1.), c(0., 0.)]]);

    assert!(op1.hermitian());
    assert_eq!(*op1.index((0, 0)), c(1., 0.));
    assert_eq!(*op1.index((0, 1)), c(0., 1.));
    assert_eq!(*op1.index((1, 0)), c(0., -1.));
    assert_eq!(*op1.index((1, 1)), c(0., 0.));

    let op2 = Operator::<C>::from_real_rows(&[[0., 2.], [1., 0.]]);
    let op3 = op1.matmul(&op2);

    assert_eq!(
        op3,
        Operator::from([[c(0., 1.), c(2., 0.)], [c(0., 0.), c(0., -2.)]])
    );
}

#[test]
fn shape_transpose_swaps_rows_and_cols() {
    let s = Shape { rows: 2, cols: 5 };
    assert_eq!(s.transpose(), Shape { rows: 5, cols: 2 });
    assert_eq!(s.transpose().transpose(), s);
}

#[test]
fn shape_size_is_rows_times_cols() {
    assert_eq!(Shape { rows: 3, cols: 4 }.size(), 12);
    assert_eq!(Shape { rows: 0, cols: 4 }.size(), 0);
    assert_eq!(Shape { rows: 7, cols: 1 }.size(), 7);
}

#[test]
fn shape_converts_to_and_from_pairs() {
    let s = Shape::from((3, 4));
    assert_eq!(s, Shape { rows: 3, cols: 4 });
    let (rows, cols): (usize, usize) = s.into();
    assert_eq!((rows, cols), (3, 4));
}

#[test]
fn orientation_negation() {
    assert_eq!(-Orientation::Row, Orientation::Column);
    assert_eq!(-Orientation::Column, Orientation::Row);
    assert_eq!(-Orientation::NonOriented, Orientation::NonOriented);
}

#[test]
fn orientation_of_each_kind() {
    assert_eq!(<Ket<C> as ComplexObject<C>>::ORIENTATION, Orientation::Column);
    assert_eq!(<Bra<C> as ComplexObject<C>>::ORIENTATION, Orientation::Row);
    assert_eq!(
        <Operator<C> as ComplexObject<C>>::ORIENTATION,
        Orientation::NonOriented
    );
    assert_eq!(<C as ComplexObject<C>>::ORIENTATION, Orientation::NonOriented);
}

#[test]
fn error_messages() {
    assert_eq!(
        QomputeTypeError::NonMatchingSizes.message(),
        "It seems your types don't match size."
    );
    assert_eq!(
        QomputeTypeError::EmptyInput.message(),
        "You may have passed in a value with zero size, when a non-zero size was expected"
    );
}

#[test]
fn new_ket_and_bra_hold_zeros() {
    let k = Ket::<C>::new(3);
    assert_eq!(k.inner, vec![c(0., 0.); 3]);
    let b = Bra::<C>::new(0);
    assert!(b.inner.is_empty());
}

#[test]
fn ket_shape_is_one_column() {
    let k = Ket::from([c(1., 0.), c(2., 0.), c(3., 0.)]);
    assert_eq!(k.shape(), Shape { rows: 3, cols: 1 });
    assert_eq!(ComplexObject::rows(&k), 3);
    assert_eq!(ComplexObject::cols(&k), 1);
    assert_eq!(ComplexObject::size(&k), 3);
    assert_eq!(k.inner.len(), k.shape().rows * k.shape().cols);
}

#[test]
fn bra_shape_is_one_row() {
    let b = Bra::from([c(1., 0.), c(2., 0.)]);
    assert_eq!(b.shape(), Shape { rows: 1, cols: 2 });
    assert_eq!(ComplexObject::rows(&b), 1);
    assert_eq!(ComplexObject::cols(&b), 2);
    assert_eq!(ComplexObject::size(&b), 2);
    assert_eq!(b.inner.len(), b.shape().rows * b.shape().cols);
}

#[test]
fn scalar_is_a_one_by_one_object() {
    let z = c(1., 2.);
    assert_eq!(ComplexObject::shape(&z), Shape { rows: 1, cols: 1 });
    assert_eq!(ComplexObject::size(&z), 1);
    assert_eq!(ComplexObject::dagger(&z), c(1., -2.));
    assert!(ComplexObject::hermitian(&z));
    assert_eq!(ComplexObject::tensorprod(&z, &c(0., 1.)), c(-2., 1.));
    assert_eq!(*ComplexObject::index(&z, ()), z);
    let mut w = z;
    *ComplexObject::index_mut(&mut w, ()) = c(5., 5.);
    assert_eq!(w, c(5., 5.));
}

#[test]
fn kets_and_bras_are_never_hermitian() {
    assert!(!Ket::from([c(1., 0.)]).hermitian());
    assert!(!Bra::from([c(1., 0.)]).hermitian());
    assert!(!Ket::<C>::new(0).hermitian());
}

#[test]
fn ket_from_slice_and_from_reals() {
    let values = vec![c(1., 1.), c(2., -2.)];
    let k = Ket::from(values.as_slice());
    assert_eq!(k.inner, values);
    let r = Ket::<C>::from_reals(&[1.5, -2.]);
    assert_eq!(r, Ket::from([c(1.5, 0.), c(-2., 0.)]));
    let b = Bra::<C>::from_reals(&[0.25]);
    assert_eq!(b, Bra::from([c(0.25, 0.)]));
    let e = Bra::<C>::from(values.as_slice());
    assert_eq!(e.inner, values);
}

#[test]
fn collected_scalars_become_kets_and_bras() {
    let values: Vec<C> = [1., 2., 3.].into_iter().map(C::from_real).collect();
    assert_eq!(
        values.clone().to_ket(),
        Ket::from([c(1., 0.), c(2., 0.), c(3., 0.)])
    );
    assert_eq!(
        values.to_bra(),
        Bra::from([c(1., 0.), c(2., 0.), c(3., 0.)])
    );
}

#[test]
fn rows_become_an_operator() {
    let rows = vec![[c(1., 0.), c(2., 0.), c(3., 0.)], [c(4., 0.), c(5., 0.), c(6., 0.)]];
    let op = rows.as_slice().to_operator();
    assert_eq!(op.shape, Shape { rows: 2, cols: 3 });
    assert_eq!(*op.index((1, 0)), c(4., 0.));
    assert_eq!(*op.index((0, 2)), c(3., 0.));
    assert_eq!(op, Operator::<C>::from_real_rows(&[[1., 2., 3.], [4., 5., 6.]]));
}

#[test]
fn ket_index_reads_and_writes_one_entry() {
    let mut k = Ket::from([c(1., 0.), c(2., 0.), c(3., 0.)]);
    assert_eq!(*k.index(1), c(2., 0.));
    *k.index_mut(1) = c(9., 9.);
    assert_eq!(k, Ket::from([c(1., 0.), c(9., 9.), c(3., 0.)]));
    let mut b = Bra::from([c(1., 0.), c(2., 0.)]);
    *b.index_mut(0) = c(0., 1.);
    assert_eq!(*b.index(0), c(0., 1.));
    assert_eq!(*b.index(1), c(2., 0.));
}

#[test]
fn dagger_of_a_ket_is_the_conjugated_bra() {
    let k = Ket::from([c(1., 2.), c(-3., 4.), c(0., -1.)]);
    let b: Bra<C> = k.dagger();
    assert_eq!(b, Bra::from([c(1., -2.), c(-3., -4.), c(0., 1.)]));
    let back: Ket<C> = b.dagger();
    assert_eq!(back, k);
}

#[test]
fn dagger_twice_gives_the_bra_back() {
    let b = Bra::from([c(1., 2.), c(-3., 4.)]);
    assert_eq!(b.dagger().dagger(), b);
}

#[test]
fn sum_and_difference_of_kets_and_bras() {
    let a = Ket::from([c(1., 2.), c(3., 4.)]);
    let b = Ket::from([c(10., 20.), c(30., 40.)]);
    assert_eq!(a.add(&b), Ket::from([c(11., 22.), c(33., 44.)]));
    assert_eq!(b.sub(&a), Ket::from([c(9., 18.), c(27., 36.)]));
    let x = Bra::from([c(1., 0.)]);
    let y = Bra::from([c(0., 1.)]);
    assert_eq!(x.add(&y), Bra::from([c(1., 1.)]));
    assert_eq!(x.sub(&y), Bra::from([c(1., -1.)]));
    assert_eq!(y.scale(c(0., 1.)), Bra::from([c(-1., 0.)]));
}

#[test]
fn inner_product_does_not_conjugate() {
    let b = Bra::from([c(0., 1.), c(2., 0.)]);
    let k = Ket::from([c(0., 1.), c(3., 0.)]);
    assert_eq!(b.dot(&k), c(5., 0.));
    assert_eq!(Bra::<C>::new(0).dot(&Ket::new(0)), c(0., 0.));
}

#[test]
fn inner_product_is_additive() {
    let a = Ket::from([c(1., 2.), c(3., -1.)]);
    let b = Ket::from([c(-2., 1.), c(0., 4.)]);
    let x = Ket::from([c(2., 0.), c(1., 1.)]);
    let whole = a.add(&b).dagger().dot(&x);
    let parts = C::add(a.dagger().dot(&x), b.dagger().dot(&x));
    assert_eq!(whole, parts);
    assert_eq!(whole, c(4., -6.));
}

#[test]
fn outer_product_has_a_row_for_each_ket_entry() {
    let k = Ket::from([c(1., 0.), c(2., 0.), c(0., 1.)]);
    let b = Bra::from([c(1., 0.), c(0., 1.)]);
    let op = k.outer(&b);
    assert_eq!(op.shape, Shape { rows: 3, cols: 2 });
    assert_eq!(
        op,
        Operator::from([
            [c(1., 0.), c(0., 1.)],
            [c(2., 0.), c(0., 2.)],
            [c(0., 1.), c(-1., 0.)],
        ])
    );
}

#[test]
fn tensor_product_of_kets() {
    let a = Ket::from([c(1., 0.), c(2., 0.)]);
    let b = Ket::from([c(3., 0.), c(0., 1.), c(5., 0.)]);
    let t = a.tensorprod(&b);
    assert_eq!(t.shape(), Shape { rows: 6, cols: 1 });
    assert_eq!(
        t,
        Ket::from([c(3., 0.), c(0., 1.), c(5., 0.), c(6., 0.), c(0., 2.), c(10., 0.)])
    );
    assert_eq!(ComplexObject::tensorprod(&a, &b), t);
}

#[test]
fn tensor_product_of_bras() {
    let a = Bra::from([c(1., 0.), c(0., 1.)]);
    let b = Bra::from([c(2., 0.), c(3., 0.)]);
    let t = a.tensorprod(&b);
    assert_eq!(t.shape(), Shape { rows: 1, cols: 4 });
    assert_eq!(t, Bra::from([c(2., 0.), c(3., 0.), c(0., 2.), c(0., 3.)]));
    assert_eq!(a.tensorprod(&Bra::new(0)), Bra::new(0));
}
