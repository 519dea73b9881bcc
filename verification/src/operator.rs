//! Operators: dense complex matrices in row-major order.

use vstd::prelude::*;
use vstd::std_specs::convert::FromSpecImpl;
use crate::index::{
    comes_before, holds_before, holds_before_in_grid, lemma_holds_after_push,
    lemma_holds_after_update, lemma_holds_after_update_in_grid, lemma_offset_in_bounds,
    lemma_offset_surjective, lemma_product_bounded, offset, precedes,
};
use crate::scalar::{
    is_conjugate, is_conjugate_comparison, is_one, is_product, is_real, is_zero, Scalar,
};
use crate::shape::Shape;
use crate::vector::zeros;

verus! {

/// A matrix of scalars, stored row by row.
#[derive(Clone, Debug, PartialEq)]
pub struct Operator<S: Scalar> {
    pub shape: Shape,
    pub inner: Vec<S>,
}

impl<S: Scalar> Operator<S> {
    /// The number of rows and of columns.
    pub open spec fn dims(&self) -> Shape {
        self.shape
    }

    /// The backing sequence holds exactly one scalar for each entry.
    pub open spec fn wf(&self) -> bool {
        self.inner@.len() == self.shape.rows * self.shape.cols
    }

    /// The entry in row `i` and column `j`.
    pub open spec fn entry(&self, i: int, j: int) -> S {
        self.inner@[offset(self.shape.cols as int, i, j)]
    }

    /// Whether `(i, j)` names an entry of this operator.
    pub open spec fn has_entry(&self, i: int, j: int) -> bool {
        0 <= i < self.shape.rows && 0 <= j < self.shape.cols
    }

    /// Row `i`, from left to right.
    pub open spec fn row(&self, i: int) -> Seq<S> {
        Seq::new(self.shape.cols as nat, |k: int| self.entry(i, k))
    }

    /// Column `j`, from top to bottom.
    pub open spec fn col(&self, j: int) -> Seq<S> {
        Seq::new(self.shape.rows as nat, |k: int| self.entry(k, j))
    }

    /// `r` has shape `shape`, a one in each diagonal entry and a zero in
    /// every other entry.
    pub open spec fn is_identity(shape: Shape, r: &Operator<S>) -> bool {
        &&& r.wf()
        &&& r.dims() == shape
        &&& forall|i: int, j: int|
            r.has_entry(i, j) ==> if i == j {
                is_one(#[trigger] r.entry(i, j))
            } else {
                is_zero(#[trigger] r.entry(i, j))
            }
    }

    /// `r` is the square operator with `diag` along its diagonal and a zero
    /// in every other entry.
    pub open spec fn is_diagonal(diag: Seq<S>, r: &Operator<S>) -> bool {
        &&& r.wf()
        &&& r.dims().rows == diag.len()
        &&& r.dims().cols == diag.len()
        &&& forall|i: int, j: int|
            r.has_entry(i, j) ==> if i == j {
                #[trigger] r.entry(i, j) == diag[i]
            } else {
                is_zero(#[trigger] r.entry(i, j))
            }
    }

    /// `r` has the rows of `rows`, entry by entry.
    pub open spec fn is_from_rows<const N: usize>(rows: Seq<[S; N]>, r: &Operator<S>) -> bool {
        &&& r.wf()
        &&& r.dims().rows == rows.len()
        &&& r.dims().cols == N
        &&& forall|i: int, j: int| r.has_entry(i, j) ==> #[trigger] r.entry(i, j) == rows[i][j]
    }

    /// `r` has, entry by entry, the scalars of the real numbers in `rows`.
    pub open spec fn is_from_real_rows<const N: usize>(
        rows: Seq<[S::Real; N]>,
        r: &Operator<S>,
    ) -> bool {
        &&& r.wf()
        &&& r.dims().rows == rows.len()
        &&& r.dims().cols == N
        &&& forall|i: int, j: int|
            r.has_entry(i, j) ==> is_real(rows[i][j], #[trigger] r.entry(i, j))
    }

    /// `r` is a conjugate transpose of `self`: rows and columns change
    /// places, and entry `(i, j)` of `r` is a conjugate of entry `(j, i)` of
    /// `self`.
    pub open spec fn is_dagger(&self, r: &Operator<S>) -> bool {
        &&& r.wf()
        &&& r.dims() == self.dims().transposed()
        &&& forall|i: int, j: int|
            r.has_entry(i, j) ==> is_conjugate(self.entry(j, i), #[trigger] r.entry(i, j))
    }

    /// `b` is an answer that the test for hermiticity may give: `true` only
    /// where `self` is square and each entry's conjugate compared equal to
    /// the entry across the diagonal, `false` only where `self` is not
    /// square or some entry's conjugate compared unequal to it.
    pub open spec fn is_hermitian_answer(&self, b: bool) -> bool {
        if b {
            &&& self.dims().is_square()
            &&& forall|i: int, j: int|
                self.has_entry(i, j) ==> is_conjugate_comparison(
                    #[trigger] self.entry(i, j),
                    self.entry(j, i),
                    true,
                )
        } else {
            ||| !self.dims().is_square()
            ||| exists|i: int, j: int|
                self.has_entry(i, j) && is_conjugate_comparison(
                    #[trigger] self.entry(i, j),
                    self.entry(j, i),
                    false,
                )
        }
    }

    /// The entry of `r` that stands for entry `(i0, j0)` of `self` and entry
    /// `(i1, j1)` of `rhs` is a product of these two.
    pub open spec fn is_tensorprod_at(
        &self,
        rhs: &Operator<S>,
        r: &Operator<S>,
        i0: int,
        j0: int,
        i1: int,
        j1: int,
    ) -> bool {
        is_product(
            self.entry(i0, j0),
            rhs.entry(i1, j1),
            r.entry(i0 * rhs.shape.rows + i1, j0 * rhs.shape.cols + j1),
        )
    }

    /// `r` is a Kronecker product of `self` and `rhs`: its rows and columns
    /// are as many as the products of theirs, and its entry
    /// `(i0 * R1 + i1, j0 * C1 + j1)`, where `rhs` has `R1` rows and `C1`
    /// columns, is a product of entry `(i0, j0)` of `self` and entry
    /// `(i1, j1)` of `rhs`.
    pub open spec fn is_tensorprod(&self, rhs: &Operator<S>, r: &Operator<S>) -> bool {
        &&& r.wf()
        &&& r.dims().rows == self.dims().rows * rhs.dims().rows
        &&& r.dims().cols == self.dims().cols * rhs.dims().cols
        &&& forall|i0: int, j0: int, i1: int, j1: int|
            self.has_entry(i0, j0) && rhs.has_entry(i1, j1) ==> #[trigger] self.is_tensorprod_at(
                rhs,
                r,
                i0,
                j0,
                i1,
                j1,
            )
    }

    /// The operator of the given shape with a one in each diagonal entry and
    /// a zero in every other entry: the identity where the shape is square.
    #[verifier::loop_isolation(false)]
    pub fn new_with_shape(shape: Shape) -> (r: Operator<S>)
        requires
            shape.area() <= usize::MAX,
        ensures
            Self::is_identity(shape, &r),
    {
        let mut op = Operator { shape, inner: zeros(shape.size()) };
        let diagonal: usize = if shape.cols < shape.rows {
            shape.cols
        } else {
            shape.rows
        };
        assert forall|i: int, j: int| op.has_entry(i, j) implies is_zero(
            #[trigger] op.entry(i, j),
        ) by {
            lemma_offset_in_bounds(shape.rows as int, shape.cols as int, i, j);
        }
        let mut d: usize = 0;
        while d < diagonal
            invariant
                d <= diagonal,
                op.wf(),
                op.dims() == shape,
                forall|i: int, j: int|
                    op.has_entry(i, j) ==> if i == j && i < d {
                        is_one(#[trigger] op.entry(i, j))
                    } else {
                        is_zero(#[trigger] op.entry(i, j))
                    },
            decreases diagonal - d,
        {
            *op.index_mut((d, d)) = S::one();
            d += 1;
        }
        op
    }

    /// The square operator with `diag` along its diagonal and zero elsewhere.
    #[verifier::loop_isolation(false)]
    pub fn from_diag(diag: Vec<S>) -> (r: Operator<S>)
        ensures
            Self::is_diagonal(diag@, &r),
    {
        let n: usize = diag.len();
        let ghost cell = |a: int, b: int, x: S|
            if a == b {
                x == diag@[a]
            } else {
                is_zero(x)
            };
        let mut inner: Vec<S> = Vec::new();
        let mut i: usize = 0;
        while i < n
            invariant
                i <= n,
                inner@.len() == offset(n as int, i as int, 0),
                holds_before(inner@, n as int, i as int, 0, cell),
            decreases n - i,
        {
            let zero: S = S::zero();
            let mut j: usize = 0;
            while j < n
                invariant
                    j <= n,
                    inner@.len() == offset(n as int, i as int, j as int),
                    holds_before(inner@, n as int, i as int, j as int, cell),
                decreases n - j,
            {
                let x: S = if i == j {
                    diag[i]
                } else {
                    zero
                };
                proof {
                    lemma_holds_after_push(inner@, x, n as int, i as int, j as int, cell);
                }
                inner.push(x);
                j += 1;
            }
            proof {
                assert(offset(n as int, i as int, n as int) == offset(n as int, i + 1, 0))
                    by (nonlinear_arith);
            }
            i += 1;
        }
        Operator { shape: Shape { rows: n, cols: n }, inner }
    }

    /// The operator with the given rows.
    #[verifier::loop_isolation(false)]
    pub fn from_rows<const N: usize>(rows: &[[S; N]]) -> (r: Operator<S>)
        ensures
            Self::is_from_rows(rows@, &r),
    {
        let m: usize = rows.len();
        let ghost cell = |a: int, b: int, x: S| x == rows@[a][b];
        let mut inner: Vec<S> = Vec::new();
        let mut i: usize = 0;
        while i < m
            invariant
                i <= m,
                inner@.len() == offset(N as int, i as int, 0),
                holds_before(inner@, N as int, i as int, 0, cell),
            decreases m - i,
        {
            let mut j: usize = 0;
            while j < N
                invariant
                    j <= N,
                    inner@.len() == offset(N as int, i as int, j as int),
                    holds_before(inner@, N as int, i as int, j as int, cell),
                decreases N - j,
            {
                let x: S = rows[i][j];
                proof {
                    lemma_holds_after_push(inner@, x, N as int, i as int, j as int, cell);
                }
                inner.push(x);
                j += 1;
            }
            proof {
                assert(offset(N as int, i as int, N as int) == offset(N as int, i + 1, 0))
                    by (nonlinear_arith);
            }
            i += 1;
        }
        Operator { shape: Shape { rows: m, cols: N }, inner }
    }

    /// The operator whose rows hold the scalars of the real numbers in
    /// `rows`.
    #[verifier::loop_isolation(false)]
    pub fn from_real_rows<const N: usize>(rows: &[[S::Real; N]]) -> (r: Operator<S>)
        ensures
            Self::is_from_real_rows(rows@, &r),
    {
        let m: usize = rows.len();
        let ghost cell = |a: int, b: int, x: S| is_real(rows@[a][b], x);
        let mut inner: Vec<S> = Vec::new();
        let mut i: usize = 0;
        while i < m
            invariant
                i <= m,
                inner@.len() == offset(N as int, i as int, 0),
                holds_before(inner@, N as int, i as int, 0, cell),
            decreases m - i,
        {
            let mut j: usize = 0;
            while j < N
                invariant
                    j <= N,
                    inner@.len() == offset(N as int, i as int, j as int),
                    holds_before(inner@, N as int, i as int, j as int, cell),
                decreases N - j,
            {
                let x: S = S::from_real(rows[i][j]);
                proof {
                    lemma_holds_after_push(inner@, x, N as int, i as int, j as int, cell);
                }
                inner.push(x);
                j += 1;
            }
            proof {
                assert(offset(N as int, i as int, N as int) == offset(N as int, i + 1, 0))
                    by (nonlinear_arith);
            }
            i += 1;
        }
        Operator { shape: Shape { rows: m, cols: N }, inner }
    }

    /// The conjugate transpose.
    #[verifier::loop_isolation(false)]
    pub fn dagger(&self) -> (r: Operator<S>)
        requires
            self.wf(),
        ensures
            self.is_dagger(&r),
    {
        proof {
            vstd::std_specs::vec::axiom_spec_len(&self.inner);
            assert(self.shape.rows * self.shape.cols == self.shape.cols * self.shape.rows)
                by (nonlinear_arith);
        }
        let rows: usize = self.shape.cols;
        let cols: usize = self.shape.rows;
        let ghost cell = |a: int, b: int, x: S| is_conjugate(self.entry(b, a), x);
        let mut op: Operator<S> = Operator::new_with_shape(self.shape.transpose());
        let mut i: usize = 0;
        while i < rows
            invariant
                i <= rows,
                op.wf(),
                op.shape == self.shape.transposed(),
                holds_before(op.inner@, cols as int, i as int, 0, cell),
            decreases rows - i,
        {
            let mut j: usize = 0;
            while j < cols
                invariant
                    j <= cols,
                    op.wf(),
                    op.shape == self.shape.transposed(),
                    holds_before(op.inner@, cols as int, i as int, j as int, cell),
                decreases cols - j,
            {
                let x: S = (*self.index((j, i))).conj();
                proof {
                    lemma_holds_after_update(
                        op.inner@,
                        x,
                        rows as int,
                        cols as int,
                        i as int,
                        j as int,
                        cell,
                    );
                }
                *op.index_mut((i, j)) = x;
                j += 1;
            }
            i += 1;
        }
        op
    }

    /// The shape.
    pub fn shape(&self) -> (s: Shape)
        ensures
            s == self.dims(),
    {
        self.shape
    }

    /// Whether the operator equals its own conjugate transpose: it is
    /// square, and the conjugate of each entry compares equal to the entry
    /// across the diagonal.
    #[verifier::loop_isolation(false)]
    pub fn hermitian(&self) -> (b: bool)
        requires
            self.wf(),
        ensures
            self.is_hermitian_answer(b),
    {
        if self.shape != self.shape.transpose() {
            return false;
        }
        let n: usize = self.shape.rows;
        let mut i: usize = 0;
        while i < n
            invariant
                i <= n,
                forall|a: int, b: int|
                    self.has_entry(a, b) && precedes(a, b, i as int, 0)
                        ==> is_conjugate_comparison(
                        #[trigger] self.entry(a, b),
                        self.entry(b, a),
                        true,
                    ),
            decreases n - i,
        {
            let mut j: usize = 0;
            while j < n
                invariant
                    j <= n,
                    forall|a: int, b: int|
                        self.has_entry(a, b) && precedes(a, b, i as int, j as int)
                            ==> is_conjugate_comparison(
                            #[trigger] self.entry(a, b),
                            self.entry(b, a),
                            true,
                        ),
                decreases n - j,
            {
                let conjugate: S = (*self.index((i, j))).conj();
                let same: bool = conjugate.equals(*self.index((j, i)));
                proof {
                    assert(is_conjugate(self.entry(i as int, j as int), conjugate));
                    assert(is_conjugate_comparison(
                        self.entry(i as int, j as int),
                        self.entry(j as int, i as int),
                        same,
                    ));
                }
                if !same {
                    return false;
                }
                j += 1;
            }
            i += 1;
        }
        true
    }

    /// The place of entry `(i, j)` in the backing sequence.
    fn place(&self, i: usize, j: usize) -> (at: usize)
        requires
            self.wf(),
            self.has_entry(i as int, j as int),
        ensures
            at == offset(self.shape.cols as int, i as int, j as int),
            at < self.inner@.len(),
    {
        proof {
            vstd::std_specs::vec::axiom_spec_len(&self.inner);
            lemma_offset_in_bounds(
                self.shape.rows as int,
                self.shape.cols as int,
                i as int,
                j as int,
            );
        }
        i * self.shape.cols + j
    }

    /// A reference to the entry in row `idx.0` and column `idx.1`.
    pub fn index(&self, idx: (usize, usize)) -> (r: &S)
        requires
            self.wf(),
            self.has_entry(idx.0 as int, idx.1 as int),
        ensures
            *r == self.entry(idx.0 as int, idx.1 as int),
    {
        let at: usize = self.place(idx.0, idx.1);
        &self.inner[at]
    }

    /// A mutable reference to the entry in row `idx.0` and column `idx.1`.
    /// Writing through it changes that entry and no other.
    pub fn index_mut(&mut self, idx: (usize, usize)) -> (r: &mut S)
        requires
            old(self).wf(),
            old(self).has_entry(idx.0 as int, idx.1 as int),
        ensures
            *r == old(self).entry(idx.0 as int, idx.1 as int),
            final(self).wf(),
            final(self).dims() == old(self).dims(),
            final(self).inner@ == old(self).inner@.update(
                offset(old(self).shape.cols as int, idx.0 as int, idx.1 as int),
                *final(r),
            ),
            final(self).entry(idx.0 as int, idx.1 as int) == *final(r),
            forall|i: int, j: int|
                old(self).has_entry(i, j) && (i != idx.0 || j != idx.1)
                    ==> #[trigger] final(self).entry(i, j) == old(self).entry(i, j),
    {
        let at: usize = self.place(idx.0, idx.1);
        proof {
            let cols = self.shape.cols as int;
            assert forall|i: int, j: int|
                self.has_entry(i, j) && (i != idx.0 || j != idx.1) implies {
                &&& #[trigger] offset(cols, i, j) != at
                &&& 0 <= offset(cols, i, j) < self.inner@.len()
            } by {
                lemma_offset_in_bounds(self.shape.rows as int, cols, i, j);
                if offset(cols, i, j) == at {
                    crate::index::lemma_offset_injective(cols, i, j, idx.0 as int, idx.1 as int);
                }
            }
        }
        &mut self.inner[at]
    }

    /// The Kronecker product of `self` and `rhs`.
    #[verifier::loop_isolation(false)]
    pub fn tensorprod(&self, rhs: &Operator<S>) -> (r: Operator<S>)
        requires
            self.wf(),
            rhs.wf(),
            self.dims().rows * rhs.dims().rows <= usize::MAX,
            self.dims().cols * rhs.dims().cols <= usize::MAX,
            (self.dims().rows * rhs.dims().rows) * (self.dims().cols * rhs.dims().cols)
                <= usize::MAX,
        ensures
            self.is_tensorprod(rhs, &r),
    {
        let lhs_rows: usize = self.shape.rows;
        let lhs_cols: usize = self.shape.cols;
        let rhs_rows: usize = rhs.shape.rows;
        let rhs_cols: usize = rhs.shape.cols;
        let out_shape = Shape { rows: lhs_rows * rhs_rows, cols: lhs_cols * rhs_cols };
        let ghost cell = |a0: int, b0: int, a1: int, b1: int, x: S|
            is_product(self.entry(a0, b0), rhs.entry(a1, b1), x);
        let mut op: Operator<S> = Operator::new_with_shape(out_shape);
        let mut i0: usize = 0;
        while i0 < lhs_rows
            invariant
                i0 <= lhs_rows,
                op.wf(),
                op.shape == out_shape,
                holds_before_in_grid(
                    op.inner@,
                    lhs_cols as int,
                    rhs_rows as int,
                    rhs_cols as int,
                    i0 as int,
                    0,
                    0,
                    0,
                    cell,
                ),
            decreases lhs_rows - i0,
        {
            proof {
                lemma_product_bounded(i0 as int, rhs_rows as int, lhs_rows as int, rhs_rows as int);
            }
            let i_off: usize = i0 * rhs_rows;
            let mut j0: usize = 0;
            while j0 < lhs_cols
                invariant
                    j0 <= lhs_cols,
                    op.wf(),
                    op.shape == out_shape,
                    holds_before_in_grid(
                        op.inner@,
                        lhs_cols as int,
                        rhs_rows as int,
                        rhs_cols as int,
                        i0 as int,
                        j0 as int,
                        0,
                        0,
                        cell,
                    ),
                decreases lhs_cols - j0,
            {
                proof {
                    lemma_product_bounded(
                        j0 as int,
                        rhs_cols as int,
                        lhs_cols as int,
                        rhs_cols as int,
                    );
                }
                let j_off: usize = j0 * rhs_cols;
                let mut i1: usize = 0;
                while i1 < rhs_rows
                    invariant
                        i1 <= rhs_rows,
                        op.wf(),
                        op.shape == out_shape,
                        holds_before_in_grid(
                            op.inner@,
                            lhs_cols as int,
                            rhs_rows as int,
                            rhs_cols as int,
                            i0 as int,
                            j0 as int,
                            i1 as int,
                            0,
                            cell,
                        ),
                    decreases rhs_rows - i1,
                {
                    let mut j1: usize = 0;
                    while j1 < rhs_cols
                        invariant
                            j1 <= rhs_cols,
                            op.wf(),
                            op.shape == out_shape,
                            holds_before_in_grid(
                                op.inner@,
                                lhs_cols as int,
                                rhs_rows as int,
                                rhs_cols as int,
                                i0 as int,
                                j0 as int,
                                i1 as int,
                                j1 as int,
                                cell,
                            ),
                        decreases rhs_cols - j1,
                    {
                        let x: S = (*self.index((i0, j0))).mul(*rhs.index((i1, j1)));
                        proof {
                            lemma_offset_in_bounds(
                                lhs_rows as int,
                                rhs_rows as int,
                                i0 as int,
                                i1 as int,
                            );
                            lemma_offset_in_bounds(
                                lhs_cols as int,
                                rhs_cols as int,
                                j0 as int,
                                j1 as int,
                            );
                            lemma_holds_after_update_in_grid(
                                op.inner@,
                                x,
                                lhs_rows as int,
                                lhs_cols as int,
                                rhs_rows as int,
                                rhs_cols as int,
                                i0 as int,
                                j0 as int,
                                i1 as int,
                                j1 as int,
                                cell,
                            );
                        }
                        *op.index_mut((i_off + i1, j_off + j1)) = x;
                        j1 += 1;
                    }
                    i1 += 1;
                }
                j0 += 1;
            }
            i0 += 1;
        }
        proof {
            assert forall|a0: int, b0: int, a1: int, b1: int|
                self.has_entry(a0, b0) && rhs.has_entry(a1, b1)
                implies #[trigger] self.is_tensorprod_at(rhs, &op, a0, b0, a1, b1) by {
                assert(comes_before(a0, b0, a1, b1, lhs_rows as int, 0, 0, 0));
                assert(cell(
                    a0,
                    b0,
                    a1,
                    b1,
                    op.inner@[offset(
                        lhs_cols * rhs_cols,
                        offset(rhs_rows as int, a0, a1),
                        offset(rhs_cols as int, b0, b1),
                    )],
                ));
            }
        }
        op
    }
}

/// Two operators of one shape with the same entry in each place have the
/// same backing sequence.
pub proof fn lemma_same_entries<S: Scalar>(a: Operator<S>, b: Operator<S>)
    requires
        a.wf(),
        b.wf(),
        a.dims() == b.dims(),
        forall|i: int, j: int| a.has_entry(i, j) ==> a.entry(i, j) == b.entry(i, j),
    ensures
        a.inner@ == b.inner@,
{
    assert forall|t: int| 0 <= t < a.inner@.len() implies a.inner@[t] == b.inner@[t] by {
        lemma_offset_surjective(a.shape.rows as int, a.shape.cols as int, t);
        let i = t / (a.shape.cols as int);
        let j = t % (a.shape.cols as int);
        assert(a.has_entry(i, j));
        assert(a.entry(i, j) == b.entry(i, j));
    }
    assert(a.inner@ =~= b.inner@);
}

impl<S: Scalar, const M: usize, const N: usize> From<[[S; N]; M]> for Operator<S> {
    /// The operator with the given rows.
    fn from(value: [[S; N]; M]) -> (r: Operator<S>)
        ensures
            Operator::is_from_rows(value@, &r),
    {
        Operator::from_rows(value.as_slice())
    }
}

/// `from` is specified by its own `ensures`; `from_spec` names an operator
/// that meets it.
impl<S: Scalar, const M: usize, const N: usize> FromSpecImpl<[[S; N]; M]> for Operator<S> {
    open spec fn obeys_from_spec() -> bool {
        false
    }

    open spec fn from_spec(value: [[S; N]; M]) -> Operator<S> {
        choose|r: Operator<S>| Operator::is_from_rows(value@, &r)
    }
}

} // verus!
