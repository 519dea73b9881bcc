//! Block assembly: one operator from a grid of operators of one shape.

use vstd::prelude::*;
use crate::index::{
    holds_before_in_grid, lemma_holds_after_update_in_grid, lemma_offset_in_bounds,
    lemma_product_bounded, offset,
};
use crate::operator::Operator;
use crate::scalar::Scalar;
use crate::shape::{QomputeTypeError, Shape};

verus! {

impl<S: Scalar> Operator<S> {
    /// Every block of the grid has the shape of its first block.
    pub open spec fn is_uniform_grid<const M: usize, const N: usize>(
        blocks: &[[Operator<S>; N]; M],
    ) -> bool {
        forall|i: int, j: int|
            0 <= i < M && 0 <= j < N ==> (#[trigger] blocks[i][j]).dims() == blocks[0][0].dims()
    }

    /// The entry of `r` that stands for entry `(i1, j1)` of block `(i0, j0)`
    /// is that entry.
    pub open spec fn is_assembly_at<const M: usize, const N: usize>(
        blocks: &[[Operator<S>; N]; M],
        r: &Operator<S>,
        i0: int,
        j0: int,
        i1: int,
        j1: int,
    ) -> bool {
        r.entry(i0 * blocks[0][0].shape.rows + i1, j0 * blocks[0][0].shape.cols + j1)
            == blocks[i0][j0].entry(i1, j1)
    }

    /// `r` is the grid's blocks laid side by side: with `Ri` rows and `Ci`
    /// columns in each block, `r` has `M * Ri` rows and `N * Ci` columns, and
    /// block `(i0, j0)` fills rows `i0 * Ri ..` and columns `j0 * Ci ..` of it.
    pub open spec fn is_assembly<const M: usize, const N: usize>(
        blocks: &[[Operator<S>; N]; M],
        r: &Operator<S>,
    ) -> bool {
        &&& r.wf()
        &&& r.dims().rows == M * blocks[0][0].dims().rows
        &&& r.dims().cols == N * blocks[0][0].dims().cols
        &&& forall|i0: int, j0: int, i1: int, j1: int|
            0 <= i0 < M && 0 <= j0 < N && blocks[0][0].has_entry(i1, j1)
                ==> #[trigger] Self::is_assembly_at(blocks, r, i0, j0, i1, j1)
    }

    /// The operator made of an `M` by `N` grid of blocks of one shape.
    ///
    /// Fails with `EmptyInput` where the grid has no rows or no columns, and
    /// with `NonMatchingSizes` where two blocks differ in shape.
    #[verifier::loop_isolation(false)]
    pub fn try_from<const M: usize, const N: usize>(value: [[Operator<S>; N]; M]) -> (r: Result<
        Operator<S>,
        QomputeTypeError,
    >)
        requires
            M > 0 && N > 0 && Self::is_uniform_grid(&value) ==> {
                &&& forall|i: int, j: int|
                    0 <= i < M && 0 <= j < N ==> (#[trigger] value[i][j]).wf()
                &&& M * value[0][0].dims().rows <= usize::MAX
                &&& N * value[0][0].dims().cols <= usize::MAX
                &&& (M * value[0][0].dims().rows) * (N * value[0][0].dims().cols) <= usize::MAX
            },
        ensures
            M == 0 || N == 0 ==> r == Err::<Operator<S>, QomputeTypeError>(
                QomputeTypeError::EmptyInput,
            ),
            M > 0 && N > 0 && !Self::is_uniform_grid(&value) ==> r == Err::<
                Operator<S>,
                QomputeTypeError,
            >(QomputeTypeError::NonMatchingSizes),
            M > 0 && N > 0 && Self::is_uniform_grid(&value) ==> r.is_ok() && Self::is_assembly(
                &value,
                &r.unwrap(),
            ),
    {
        if M == 0 || N == 0 {
            return Err(QomputeTypeError::EmptyInput);
        }
        let inner_shape: Shape = value[0][0].shape;
        let mut i: usize = 0;
        while i < M
            invariant
                i <= M,
                forall|a: int, b: int|
                    0 <= a < i && 0 <= b < N ==> (#[trigger] value[a][b]).dims() == inner_shape,
            decreases M - i,
        {
            let mut j: usize = 0;
            while j < N
                invariant
                    j <= N,
                    forall|a: int, b: int|
                        0 <= a < i && 0 <= b < N ==> (#[trigger] value[a][b]).dims()
                            == inner_shape,
                    forall|b: int|
                        0 <= b < j ==> (#[trigger] value[i as int][b]).dims() == inner_shape,
                decreases N - j,
            {
                if value[i][j].shape != inner_shape {
                    return Err(QomputeTypeError::NonMatchingSizes);
                }
                j += 1;
            }
            i += 1;
        }
        let rows: usize = inner_shape.rows;
        let cols: usize = inner_shape.cols;
        let op_shape = Shape { rows: M * rows, cols: N * cols };
        let ghost cell = |a0: int, b0: int, a1: int, b1: int, x: S|
            x == value[a0][b0].entry(a1, b1);
        let mut op: Operator<S> = Operator::new_with_shape(op_shape);
        let mut i0: usize = 0;
        while i0 < M
            invariant
                i0 <= M,
                op.wf(),
                op.shape == op_shape,
                holds_before_in_grid(
                    op.inner@,
                    N as int,
                    rows as int,
                    cols as int,
                    i0 as int,
                    0,
                    0,
                    0,
                    cell,
                ),
            decreases M - i0,
        {
            proof {
                lemma_product_bounded(i0 as int, rows as int, M as int, rows as int);
            }
            let i_off: usize = i0 * rows;
            let mut j0: usize = 0;
            while j0 < N
                invariant
                    j0 <= N,
                    op.wf(),
                    op.shape == op_shape,
                    holds_before_in_grid(
                        op.inner@,
                        N as int,
                        rows as int,
                        cols as int,
                        i0 as int,
                        j0 as int,
                        0,
                        0,
                        cell,
                    ),
                decreases N - j0,
            {
                proof {
                    lemma_product_bounded(j0 as int, cols as int, N as int, cols as int);
                }
                let j_off: usize = j0 * cols;
                let mut i1: usize = 0;
                while i1 < rows
                    invariant
                        i1 <= rows,
                        op.wf(),
                        op.shape == op_shape,
                        holds_before_in_grid(
                            op.inner@,
                            N as int,
                            rows as int,
                            cols as int,
                            i0 as int,
                            j0 as int,
                            i1 as int,
                            0,
                            cell,
                        ),
                    decreases rows - i1,
                {
                    let mut j1: usize = 0;
                    while j1 < cols
                        invariant
                            j1 <= cols,
                            op.wf(),
                            op.shape == op_shape,
                            holds_before_in_grid(
                                op.inner@,
                                N as int,
                                rows as int,
                                cols as int,
                                i0 as int,
                                j0 as int,
                                i1 as int,
                                j1 as int,
                                cell,
                            ),
                        decreases cols - j1,
                    {
                        assert(value[i0 as int][j0 as int].dims() == inner_shape);
                        assert(value[i0 as int][j0 as int].wf());
                        let x: S = *value[i0][j0].index((i1, j1));
                        proof {
                            lemma_offset_in_bounds(M as int, rows as int, i0 as int, i1 as int);
                            lemma_offset_in_bounds(N as int, cols as int, j0 as int, j1 as int);
                            lemma_holds_after_update_in_grid(
                                op.inner@,
                                x,
                                M as int,
                                N as int,
                                rows as int,
                                cols as int,
                                i0 as int,
                                j0 as int,
                                i1 as int,
                                j1 as int,
                                cell,
                            );
                        }
                        *op.index_mut((i_off + i1, j_off + j1)) = x;
                        j1 += 1;
                    }
                    i1 += 1;
                }
                j0 += 1;
            }
            i0 += 1;
        }
        proof {
            assert forall|a0: int, b0: int, a1: int, b1: int|
                0 <= a0 < M && 0 <= b0 < N && value[0][0].has_entry(
                    a1,
                    b1,
                ) implies #[trigger] Self::is_assembly_at(&value, &op, a0, b0, a1, b1) by {
                assert(cell(
                    a0,
                    b0,
                    a1,
                    b1,
                    op.inner@[offset(
                        N * cols,
                        offset(rows as int, a0, a1),
                        offset(cols as int, b0, b1),
                    )],
                ));
            }
        }
        Ok(op)
    }
}

} // verus!
