//! Arithmetic: sums and differences of like objects, the inner product of a
//! bra and a ket, the outer product of a ket and a bra, the product of two
//! operators, and the product of any object with a scalar.
//!
//! No operand is changed; each result is a new object.

use vstd::prelude::*;
use crate::bra::Bra;
use crate::index::{holds_before, lemma_holds_after_update, lemma_offset_in_bounds, offset};
use crate::ket::Ket;
use crate::operator::Operator;
use crate::scalar::{
    is_difference, is_dot, is_entrywise_difference, is_entrywise_sum, is_partial_dot, is_product,
    is_scaled, is_sum, Scalar,
};
use crate::shape::Shape;
use crate::vector::{added, dotted, scaled, subtracted};

verus! {

impl<S: Scalar> Ket<S> {
    /// The sum of two kets of one shape, that is of one length, entry by
    /// entry.
    pub fn add(&self, rhs: &Ket<S>) -> (r: Ket<S>)
        requires
            self@.len() == rhs@.len(),
        ensures
            is_entrywise_sum(self@, rhs@, r@),
    {
        Ket { inner: added(&self.inner, &rhs.inner) }
    }

    /// The difference of two kets of one shape, that is of one length, entry
    /// by entry.
    pub fn sub(&self, rhs: &Ket<S>) -> (r: Ket<S>)
        requires
            self@.len() == rhs@.len(),
        ensures
            is_entrywise_difference(self@, rhs@, r@),
    {
        Ket { inner: subtracted(&self.inner, &rhs.inner) }
    }

    /// Each entry times `factor`, the entry on the left.
    pub fn scale(&self, factor: S) -> (r: Ket<S>)
        ensures
            is_scaled(self@, factor, r@),
    {
        Ket { inner: scaled(&self.inner, factor) }
    }

    /// `r` is an outer product of `self` and `rhs`: it has a row for each
    /// entry of `self` and a column for each entry of `rhs`, and its entry
    /// `(i, j)` is a product of `self[i]` and `rhs[j]`.
    pub open spec fn is_outer(&self, rhs: &Bra<S>, r: &Operator<S>) -> bool {
        &&& r.wf()
        &&& r.dims().rows == self@.len()
        &&& r.dims().cols == rhs@.len()
        &&& forall|i: int, j: int|
            r.has_entry(i, j) ==> is_product(self@[i], rhs@[j], #[trigger] r.entry(i, j))
    }

    /// The outer product of a ket and a bra.
    #[verifier::loop_isolation(false)]
    pub fn outer(&self, rhs: &Bra<S>) -> (r: Operator<S>)
        requires
            self@.len() * rhs@.len() <= usize::MAX,
        ensures
            self.is_outer(rhs, &r),
    {
        let rows: usize = self.inner.len();
        let cols: usize = rhs.inner.len();
        let ghost cell = |a: int, b: int, x: S| is_product(self@[a], rhs@[b], x);
        let mut op: Operator<S> = Operator::new_with_shape(Shape { rows, cols });
        let mut row: usize = 0;
        while row < rows
            invariant
                row <= rows,
                op.wf(),
                op.shape == (Shape { rows, cols }),
                holds_before(op.inner@, cols as int, row as int, 0, cell),
            decreases rows - row,
        {
            let mut col: usize = 0;
            while col < cols
                invariant
                    col <= cols,
                    op.wf(),
                    op.shape == (Shape { rows, cols }),
                    holds_before(op.inner@, cols as int, row as int, col as int, cell),
                decreases cols - col,
            {
                let x: S = self.inner[row].mul(rhs.inner[col]);
                proof {
                    lemma_holds_after_update(
                        op.inner@,
                        x,
                        rows as int,
                        cols as int,
                        row as int,
                        col as int,
                        cell,
                    );
                }
                *op.index_mut((row, col)) = x;
                col += 1;
            }
            row += 1;
        }
        op
    }
}

impl<S: Scalar> Bra<S> {
    /// The sum of two bras of one shape, that is of one length, entry by
    /// entry.
    pub fn add(&self, rhs: &Bra<S>) -> (r: Bra<S>)
        requires
            self@.len() == rhs@.len(),
        ensures
            is_entrywise_sum(self@, rhs@, r@),
    {
        Bra { inner: added(&self.inner, &rhs.inner) }
    }

    /// The difference of two bras of one shape, that is of one length, entry
    /// by entry.
    pub fn sub(&self, rhs: &Bra<S>) -> (r: Bra<S>)
        requires
            self@.len() == rhs@.len(),
        ensures
            is_entrywise_difference(self@, rhs@, r@),
    {
        Bra { inner: subtracted(&self.inner, &rhs.inner) }
    }

    /// Each entry times `factor`, the entry on the left.
    pub fn scale(&self, factor: S) -> (r: Bra<S>)
        ensures
            is_scaled(self@, factor, r@),
    {
        Bra { inner: scaled(&self.inner, factor) }
    }

    /// The inner product of a bra and a ket of one length: the sum of the
    /// products of their entries, in their order. Neither operand is
    /// conjugated here: for the hermitian inner product of two kets, take
    /// the `dagger` of the first.
    pub fn dot(&self, rhs: &Ket<S>) -> (r: S)
        requires
            self@.len() == rhs@.len(),
        ensures
            is_dot(self@, rhs@, r),
    {
        dotted(&self.inner, &rhs.inner)
    }
}

impl<S: Scalar> Operator<S> {
    /// `r` has the shape of `self` and `rhs`, and each entry of it is a sum
    /// of their entries in that place.
    pub open spec fn is_sum_with(&self, rhs: &Operator<S>, r: &Operator<S>) -> bool {
        &&& r.wf()
        &&& r.dims() == self.dims()
        &&& forall|i: int, j: int|
            r.has_entry(i, j) ==> is_sum(
                self.entry(i, j),
                rhs.entry(i, j),
                #[trigger] r.entry(i, j),
            )
    }

    /// `r` has the shape of `self` and `rhs`, and each entry of it is a
    /// difference of their entries in that place.
    pub open spec fn is_difference_with(&self, rhs: &Operator<S>, r: &Operator<S>) -> bool {
        &&& r.wf()
        &&& r.dims() == self.dims()
        &&& forall|i: int, j: int|
            r.has_entry(i, j) ==> is_difference(
                self.entry(i, j),
                rhs.entry(i, j),
                #[trigger] r.entry(i, j),
            )
    }

    /// `r` has the shape of `self`, and each entry of it is a product of the
    /// entry of `self` in that place with `factor`.
    pub open spec fn is_scaled_by(&self, factor: S, r: &Operator<S>) -> bool {
        &&& r.wf()
        &&& r.dims() == self.dims()
        &&& forall|i: int, j: int|
            r.has_entry(i, j) ==> is_product(self.entry(i, j), factor, #[trigger] r.entry(i, j))
    }

    /// `r` is a product of `self` and `rhs`: it has the rows of `self` and
    /// the columns of `rhs`, and its entry `(i, j)` is a sum over `k` of the
    /// products of entry `(i, k)` of `self` and entry `(k, j)` of `rhs`.
    pub open spec fn is_matmul(&self, rhs: &Operator<S>, r: &Operator<S>) -> bool {
        &&& r.wf()
        &&& r.dims().rows == self.dims().rows
        &&& r.dims().cols == rhs.dims().cols
        &&& forall|i: int, j: int|
            r.has_entry(i, j) ==> is_dot(self.row(i), rhs.col(j), #[trigger] r.entry(i, j))
    }

    /// The sum of two operators of one shape, entry by entry.
    pub fn add(&self, rhs: &Operator<S>) -> (r: Operator<S>)
        requires
            self.wf(),
            rhs.wf(),
            self.dims() == rhs.dims(),
        ensures
            self.is_sum_with(rhs, &r),
    {
        let r = Operator { shape: self.shape, inner: added(&self.inner, &rhs.inner) };
        proof {
            assert forall|i: int, j: int| r.has_entry(i, j) implies is_sum(
                self.entry(i, j),
                rhs.entry(i, j),
                #[trigger] r.entry(i, j),
            ) by {
                lemma_offset_in_bounds(self.shape.rows as int, self.shape.cols as int, i, j);
                let at = offset(self.shape.cols as int, i, j);
                assert(is_sum(self.inner@[at], rhs.inner@[at], r.inner@[at]));
            }
        }
        r
    }

    /// The difference of two operators of one shape, entry by entry.
    pub fn sub(&self, rhs: &Operator<S>) -> (r: Operator<S>)
        requires
            self.wf(),
            rhs.wf(),
            self.dims() == rhs.dims(),
        ensures
            self.is_difference_with(rhs, &r),
    {
        let r = Operator { shape: self.shape, inner: subtracted(&self.inner, &rhs.inner) };
        proof {
            assert forall|i: int, j: int| r.has_entry(i, j) implies is_difference(
                self.entry(i, j),
                rhs.entry(i, j),
                #[trigger] r.entry(i, j),
            ) by {
                lemma_offset_in_bounds(self.shape.rows as int, self.shape.cols as int, i, j);
                let at = offset(self.shape.cols as int, i, j);
                assert(is_difference(self.inner@[at], rhs.inner@[at], r.inner@[at]));
            }
        }
        r
    }

    /// Each entry times `factor`, the entry on the left.
    pub fn scale(&self, factor: S) -> (r: Operator<S>)
        requires
            self.wf(),
        ensures
            self.is_scaled_by(factor, &r),
    {
        let r = Operator { shape: self.shape, inner: scaled(&self.inner, factor) };
        proof {
            assert forall|i: int, j: int| r.has_entry(i, j) implies is_product(
                self.entry(i, j),
                factor,
                #[trigger] r.entry(i, j),
            ) by {
                lemma_offset_in_bounds(self.shape.rows as int, self.shape.cols as int, i, j);
                let at = offset(self.shape.cols as int, i, j);
                assert(is_product(self.inner@[at], factor, r.inner@[at]));
            }
        }
        r
    }

    /// The matrix product of `self` and `rhs`, where `self` has as many
    /// columns as `rhs` has rows.
    #[verifier::loop_isolation(false)]
    pub fn matmul(&self, rhs: &Operator<S>) -> (r: Operator<S>)
        requires
            self.wf(),
            rhs.wf(),
            self.dims().cols == rhs.dims().rows,
            self.dims().rows * rhs.dims().cols <= usize::MAX,
        ensures
            self.is_matmul(rhs, &r),
    {
        let rows: usize = self.shape.rows;
        let cols: usize = rhs.shape.cols;
        let ks: usize = self.shape.cols;
        let ghost cell = |a: int, b: int, x: S| is_dot(self.row(a), rhs.col(b), x);
        let mut op: Operator<S> = Operator::new_with_shape(Shape { rows, cols });
        let mut row: usize = 0;
        while row < rows
            invariant
                row <= rows,
                op.wf(),
                op.shape == (Shape { rows, cols }),
                holds_before(op.inner@, cols as int, row as int, 0, cell),
            decreases rows - row,
        {
            let mut col: usize = 0;
            while col < cols
                invariant
                    col <= cols,
                    op.wf(),
                    op.shape == (Shape { rows, cols }),
                    holds_before(op.inner@, cols as int, row as int, col as int, cell),
                decreases cols - col,
            {
                let mut acc: S = S::zero();
                let mut k: usize = 0;
                while k < ks
                    invariant
                        k <= ks,
                        is_partial_dot(self.row(row as int), rhs.col(col as int), k as nat, acc),
                    decreases ks - k,
                {
                    let term: S = (*self.index((row, k))).mul(*rhs.index((k, col)));
                    let next: S = acc.add(term);
                    proof {
                        assert(is_partial_dot(
                            self.row(row as int),
                            rhs.col(col as int),
                            k as nat,
                            acc,
                        ) && is_product(
                            self.row(row as int)[k as int],
                            rhs.col(col as int)[k as int],
                            term,
                        ) && is_sum(acc, term, next));
                    }
                    acc = next;
                    k += 1;
                }
                proof {
                    lemma_holds_after_update(
                        op.inner@,
                        acc,
                        rows as int,
                        cols as int,
                        row as int,
                        col as int,
                        cell,
                    );
                }
                *op.index_mut((row, col)) = acc;
                col += 1;
            }
            row += 1;
        }
        op
    }
}

} // verus!
