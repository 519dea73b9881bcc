//! What kets, bras, operators and bare scalars have in common.

use vstd::prelude::*;
use crate::bra::Bra;
use crate::ket::Ket;
use crate::operator::Operator;
use crate::index::offset;
use crate::scalar::{is_conjugate, is_entrywise_conjugate, is_product, Scalar};
use crate::shape::{Orientation, Shape};

verus! {

/// A linear object over the scalars `S`: a matrix of some shape, of which a
/// ket uses one column, a bra one row, and a bare scalar one entry.
pub trait ComplexObject<S: Scalar>: Sized {
    /// The kind of the conjugate transpose.
    type ConjugateTranspose;

    /// The kind of the product of a conjugate transpose with an object.
    type InnerProduct;

    /// The kind of the product of an object with a conjugate transpose.
    type OuterProduct;

    /// What names an entry.
    type IndexType;

    /// The object holds one scalar for each entry of its shape.
    spec fn is_valid(&self) -> bool;

    /// The number of rows and of columns.
    spec fn extent(&self) -> Shape;

    /// The entry in row `i` and column `j`.
    spec fn at(&self, i: int, j: int) -> S;

    /// The row and the column of the entry that `idx` names.
    spec fn position(idx: Self::IndexType) -> (int, int);

    /// `r` is a conjugate transpose of the object: rows and columns have
    /// changed places, and each entry is a conjugate of the entry that it
    /// came from.
    spec fn is_dagger_outcome(&self, r: &Self::ConjugateTranspose) -> bool;

    /// What the test for hermiticity may answer for this object.
    spec fn is_hermitian_outcome(&self, b: bool) -> bool;

    /// Whether `(i, j)` names an entry of the object.
    open spec fn covers(&self, i: int, j: int) -> bool {
        0 <= i < self.extent().rows && 0 <= j < self.extent().cols
    }

    /// Whether objects of this kind are rows, columns or neither.
    const ORIENTATION: Orientation;

    /// The conjugate transpose: rows and columns change places, and each
    /// entry is conjugated.
    fn dagger(&self) -> (r: Self::ConjugateTranspose)
        requires
            self.is_valid(),
        ensures
            self.is_dagger_outcome(&r),
    ;

    /// The shape.
    fn shape(&self) -> (s: Shape)
        requires
            self.is_valid(),
        ensures
            s == self.extent(),
            s.area() <= usize::MAX,
    ;

    /// The Kronecker product of `self` and `rhs`.
    fn tensorprod(&self, rhs: &Self) -> (r: Self)
        requires
            self.is_valid(),
            rhs.is_valid(),
            self.extent().rows * rhs.extent().rows <= usize::MAX,
            self.extent().cols * rhs.extent().cols <= usize::MAX,
            (self.extent().rows * rhs.extent().rows) * (self.extent().cols * rhs.extent().cols)
                <= usize::MAX,
        ensures
            r.is_valid(),
            r.extent().rows == self.extent().rows * rhs.extent().rows,
            r.extent().cols == self.extent().cols * rhs.extent().cols,
            forall|i0: int, j0: int, i1: int, j1: int|
                self.covers(i0, j0) && rhs.covers(i1, j1) ==> is_product(
                    #[trigger] self.at(i0, j0),
                    #[trigger] rhs.at(i1, j1),
                    r.at(i0 * rhs.extent().rows + i1, j0 * rhs.extent().cols + j1),
                ),
    ;

    /// The number of columns.
    fn cols(&self) -> (n: usize)
        requires
            self.is_valid(),
        ensures
            n == self.extent().cols,
    {
        self.shape().cols
    }

    /// The number of rows.
    fn rows(&self) -> (n: usize)
        requires
            self.is_valid(),
        ensures
            n == self.extent().rows,
    {
        self.shape().rows
    }

    /// The number of entries.
    fn size(&self) -> (n: usize)
        requires
            self.is_valid(),
        ensures
            n == self.extent().area(),
    {
        self.shape().size()
    }

    /// Whether the object equals its own conjugate transpose.
    fn hermitian(&self) -> (b: bool)
        requires
            self.is_valid(),
        ensures
            self.is_hermitian_outcome(b),
    ;

    /// A reference to the entry that `idx` names.
    fn index(&self, idx: Self::IndexType) -> (r: &S)
        requires
            self.is_valid(),
            self.covers(Self::position(idx).0, Self::position(idx).1),
        ensures
            *r == self.at(Self::position(idx).0, Self::position(idx).1),
    ;

    /// A mutable reference to the entry that `idx` names. Writing through
    /// it changes that entry and no other.
    fn index_mut(&mut self, idx: Self::IndexType) -> (r: &mut S)
        requires
            old(self).is_valid(),
            old(self).covers(Self::position(idx).0, Self::position(idx).1),
        ensures
            *r == old(self).at(Self::position(idx).0, Self::position(idx).1),
            final(self).is_valid(),
            final(self).extent() == old(self).extent(),
            final(self).at(Self::position(idx).0, Self::position(idx).1) == *final(r),
            forall|i: int, j: int|
                old(self).covers(i, j) && (i, j) != Self::position(idx)
                    ==> #[trigger] final(self).at(i, j) == old(self).at(i, j),
    ;
}

impl<S: Scalar> ComplexObject<S> for Operator<S> {
    type ConjugateTranspose = Operator<S>;

    type InnerProduct = Operator<S>;

    type OuterProduct = Operator<S>;

    type IndexType = (usize, usize);

    open spec fn is_valid(&self) -> bool {
        self.wf()
    }

    open spec fn extent(&self) -> Shape {
        self.dims()
    }

    open spec fn at(&self, i: int, j: int) -> S {
        self.entry(i, j)
    }

    open spec fn position(idx: (usize, usize)) -> (int, int) {
        (idx.0 as int, idx.1 as int)
    }

    open spec fn is_dagger_outcome(&self, r: &Operator<S>) -> bool {
        self.is_dagger(r)
    }

    open spec fn is_hermitian_outcome(&self, b: bool) -> bool {
        self.is_hermitian_answer(b)
    }

    const ORIENTATION: Orientation = Orientation::NonOriented;

    fn dagger(&self) -> (r: Operator<S>) {
        Operator::dagger(self)
    }

    fn shape(&self) -> (s: Shape) {
        proof {
            vstd::std_specs::vec::axiom_spec_len(&self.inner);
        }
        Operator::shape(self)
    }

    fn tensorprod(&self, rhs: &Operator<S>) -> (r: Operator<S>) {
        let r = Operator::tensorprod(self, rhs);
        proof {
            assert forall|i0: int, j0: int, i1: int, j1: int|
                self.covers(i0, j0) && rhs.covers(i1, j1) implies is_product(
                #[trigger] self.at(i0, j0),
                #[trigger] rhs.at(i1, j1),
                r.at(i0 * rhs.extent().rows + i1, j0 * rhs.extent().cols + j1),
            ) by {
                assert(self.is_tensorprod_at(rhs, &r, i0, j0, i1, j1));
            }
        }
        r
    }

    fn hermitian(&self) -> (b: bool) {
        Operator::hermitian(self)
    }

    fn index(&self, idx: (usize, usize)) -> (r: &S) {
        Operator::index(self, idx)
    }

    fn index_mut(&mut self, idx: (usize, usize)) -> (r: &mut S) {
        Operator::index_mut(self, idx)
    }
}

impl<S: Scalar> ComplexObject<S> for Ket<S> {
    type ConjugateTranspose = Bra<S>;

    type InnerProduct = S;

    type OuterProduct = Operator<S>;

    type IndexType = usize;

    open spec fn is_valid(&self) -> bool {
        true
    }

    open spec fn extent(&self) -> Shape {
        self.dims()
    }

    open spec fn at(&self, i: int, j: int) -> S {
        self@[i]
    }

    open spec fn position(idx: usize) -> (int, int) {
        (idx as int, 0)
    }

    open spec fn is_dagger_outcome(&self, r: &Bra<S>) -> bool {
        is_entrywise_conjugate(self@, r@)
    }

    open spec fn is_hermitian_outcome(&self, b: bool) -> bool {
        !b
    }

    const ORIENTATION: Orientation = Orientation::Column;

    fn dagger(&self) -> (r: Bra<S>) {
        Ket::dagger(self)
    }

    fn shape(&self) -> (s: Shape) {
        proof {
            vstd::std_specs::vec::axiom_spec_len(&self.inner);
        }
        Ket::shape(self)
    }

    fn tensorprod(&self, rhs: &Ket<S>) -> (r: Ket<S>) {
        proof {
            vstd::std_specs::vec::axiom_spec_len(&self.inner);
            vstd::std_specs::vec::axiom_spec_len(&rhs.inner);
        }
        let r = Ket::tensorprod(self, rhs);
        proof {
            assert forall|i0: int, j0: int, i1: int, j1: int|
                self.covers(i0, j0) && rhs.covers(i1, j1) implies is_product(
                #[trigger] self.at(i0, j0),
                #[trigger] rhs.at(i1, j1),
                r.at(i0 * rhs.extent().rows + i1, j0 * rhs.extent().cols + j1),
            ) by {
                assert(offset(rhs@.len() as int, i0, i1) == i0 * rhs.extent().rows + i1);
            }
        }
        r
    }

    fn hermitian(&self) -> (b: bool) {
        Ket::hermitian(self)
    }

    fn index(&self, idx: usize) -> (r: &S) {
        proof {
            vstd::std_specs::vec::axiom_spec_len(&self.inner);
        }
        Ket::index(self, idx)
    }

    fn index_mut(&mut self, idx: usize) -> (r: &mut S) {
        proof {
            vstd::std_specs::vec::axiom_spec_len(&self.inner);
        }
        Ket::index_mut(self, idx)
    }
}

impl<S: Scalar> ComplexObject<S> for Bra<S> {
    type ConjugateTranspose = Ket<S>;

    type InnerProduct = S;

    type OuterProduct = Operator<S>;

    type IndexType = usize;

    open spec fn is_valid(&self) -> bool {
        true
    }

    open spec fn extent(&self) -> Shape {
        self.dims()
    }

    open spec fn at(&self, i: int, j: int) -> S {
        self@[j]
    }

    open spec fn position(idx: usize) -> (int, int) {
        (0, idx as int)
    }

    open spec fn is_dagger_outcome(&self, r: &Ket<S>) -> bool {
        is_entrywise_conjugate(self@, r@)
    }

    open spec fn is_hermitian_outcome(&self, b: bool) -> bool {
        !b
    }

    const ORIENTATION: Orientation = Orientation::Row;

    fn dagger(&self) -> (r: Ket<S>) {
        Bra::dagger(self)
    }

    fn shape(&self) -> (s: Shape) {
        proof {
            vstd::std_specs::vec::axiom_spec_len(&self.inner);
        }
        Bra::shape(self)
    }

    fn tensorprod(&self, rhs: &Bra<S>) -> (r: Bra<S>) {
        proof {
            vstd::std_specs::vec::axiom_spec_len(&self.inner);
            vstd::std_specs::vec::axiom_spec_len(&rhs.inner);
        }
        let r = Bra::tensorprod(self, rhs);
        proof {
            assert forall|i0: int, j0: int, i1: int, j1: int|
                self.covers(i0, j0) && rhs.covers(i1, j1) implies is_product(
                #[trigger] self.at(i0, j0),
                #[trigger] rhs.at(i1, j1),
                r.at(i0 * rhs.extent().rows + i1, j0 * rhs.extent().cols + j1),
            ) by {
                assert(offset(rhs@.len() as int, j0, j1) == j0 * rhs.extent().cols + j1);
            }
        }
        r
    }

    fn hermitian(&self) -> (b: bool) {
        Bra::hermitian(self)
    }

    fn index(&self, idx: usize) -> (r: &S) {
        proof {
            vstd::std_specs::vec::axiom_spec_len(&self.inner);
        }
        Bra::index(self, idx)
    }

    fn index_mut(&mut self, idx: usize) -> (r: &mut S) {
        proof {
            vstd::std_specs::vec::axiom_spec_len(&self.inner);
        }
        Bra::index_mut(self, idx)
    }
}

impl<S: Scalar> ComplexObject<S> for S {
    type ConjugateTranspose = S;

    type InnerProduct = S;

    type OuterProduct = S;

    type IndexType = ();

    open spec fn is_valid(&self) -> bool {
        true
    }

    open spec fn extent(&self) -> Shape {
        Shape { rows: 1, cols: 1 }
    }

    open spec fn at(&self, i: int, j: int) -> S {
        *self
    }

    open spec fn position(idx: ()) -> (int, int) {
        (0, 0)
    }

    open spec fn is_dagger_outcome(&self, r: &S) -> bool {
        is_conjugate(*self, *r)
    }

    open spec fn is_hermitian_outcome(&self, b: bool) -> bool {
        b
    }

    const ORIENTATION: Orientation = Orientation::NonOriented;

    fn dagger(&self) -> (r: S) {
        self.conj()
    }

    fn shape(&self) -> (s: Shape) {
        Shape { cols: 1, rows: 1 }
    }

    fn tensorprod(&self, rhs: &S) -> (r: S) {
        self.mul(*rhs)
    }

    fn hermitian(&self) -> (b: bool) {
        true
    }

    fn index(&self, idx: ()) -> (r: &S) {
        self
    }

    fn index_mut(&mut self, idx: ()) -> (r: &mut S) {
        self
    }
}

} // verus!
