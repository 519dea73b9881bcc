//! Row-major storage: where the entry in row `i` and column `j` of a matrix
//! with `cols` columns lies in its backing sequence, and what a loop that
//! walks a matrix entry by entry has done so far.

use vstd::prelude::*;
use vstd::arithmetic::div_mod::{
    lemma_div_pos_is_pos, lemma_fundamental_div_mod, lemma_mod_bound, lemma_multiply_divide_lt,
};

verus! {

/// The place of entry `(i, j)` in the backing sequence of a matrix with
/// `cols` columns.
pub open spec fn offset(cols: int, i: int, j: int) -> int {
    i * cols + j
}

/// An entry inside a `rows` by `cols` matrix lies inside its backing
/// sequence.
pub proof fn lemma_offset_in_bounds(rows: int, cols: int, i: int, j: int)
    requires
        0 <= i < rows,
        0 <= j < cols,
    ensures
        0 <= i * cols <= offset(cols, i, j) < rows * cols,
        offset(cols, i, j) < i * cols + cols <= rows * cols,
{
    assert(0 <= i * cols) by (nonlinear_arith)
        requires
            0 <= i,
            0 <= cols,
    ;
    assert(i * cols + cols == (i + 1) * cols) by (nonlinear_arith);
    assert((i + 1) * cols <= rows * cols) by (nonlinear_arith)
        requires
            i + 1 <= rows,
            0 <= cols,
    ;
}

/// Two entries with the same place in the backing sequence are the same
/// entry.
pub proof fn lemma_offset_injective(cols: int, i: int, j: int, p: int, q: int)
    requires
        0 <= j < cols,
        0 <= q < cols,
        offset(cols, i, j) == offset(cols, p, q),
    ensures
        i == p,
        j == q,
{
    if i < p {
        assert((i + 1) * cols <= p * cols) by (nonlinear_arith)
            requires
                i + 1 <= p,
                0 <= cols,
        ;
        assert((i + 1) * cols == i * cols + cols) by (nonlinear_arith);
    } else if p < i {
        assert((p + 1) * cols <= i * cols) by (nonlinear_arith)
            requires
                p + 1 <= i,
                0 <= cols,
        ;
        assert((p + 1) * cols == p * cols + cols) by (nonlinear_arith);
    }
}

/// Every place in the backing sequence of a `rows` by `cols` matrix is the
/// place of an entry: that in row `t / cols` and column `t % cols`.
pub proof fn lemma_offset_surjective(rows: int, cols: int, t: int)
    requires
        0 <= t < rows * cols,
        0 <= rows,
        0 <= cols,
    ensures
        0 < cols,
        0 <= t / cols < rows,
        0 <= t % cols < cols,
        offset(cols, t / cols, t % cols) == t,
{
    if cols == 0 {
        assert(rows * cols == 0) by (nonlinear_arith)
            requires
                cols == 0,
        ;
    }
    lemma_fundamental_div_mod(t, cols);
    lemma_mod_bound(t, cols);
    lemma_div_pos_is_pos(t, cols);
    assert(cols * rows == rows * cols) by (nonlinear_arith);
    lemma_multiply_divide_lt(t, cols, rows);
    assert(cols * (t / cols) == (t / cols) * cols) by (nonlinear_arith);
}

/// The product of two bounded numbers is bounded by the product of the
/// bounds.
pub proof fn lemma_product_bounded(a: int, b: int, x: int, y: int)
    requires
        0 <= a <= x,
        0 <= b <= y,
    ensures
        0 <= a * b <= x * y,
{
    assert(0 <= a * b <= x * y) by (nonlinear_arith)
        requires
            0 <= a <= x,
            0 <= b <= y,
    ;
}

/// Whether the loop nest `for a in .. { for b in ..` reaches `(a, b)` before
/// it reaches `(i, j)`.
pub open spec fn precedes(a: int, b: int, i: int, j: int) -> bool {
    a < i || (a == i && b < j)
}

/// In the backing sequence `inner` of a matrix with `cols` columns, `cell`
/// holds of every entry that a walk row by row reaches before `(i, j)`.
pub open spec fn holds_before<S>(
    inner: Seq<S>,
    cols: int,
    i: int,
    j: int,
    cell: spec_fn(int, int, S) -> bool,
) -> bool {
    forall|a: int, b: int|
        0 <= a && 0 <= b < cols && precedes(a, b, i, j) ==> cell(
            a,
            b,
            inner[#[trigger] offset(cols, a, b)],
        )
}

/// A walk that has built the matrix up to `(i, j)` and appends what belongs
/// at `(i, j)` has built it up to `(i, j + 1)`.
pub proof fn lemma_holds_after_push<S>(
    inner: Seq<S>,
    x: S,
    cols: int,
    i: int,
    j: int,
    cell: spec_fn(int, int, S) -> bool,
)
    requires
        0 <= i,
        0 <= j < cols,
        inner.len() == offset(cols, i, j),
        holds_before(inner, cols, i, j, cell),
        cell(i, j, x),
    ensures
        holds_before(inner.push(x), cols, i, j + 1, cell),
{
    assert forall|a: int, b: int| 0 <= a && 0 <= b < cols && precedes(a, b, i, j + 1) implies cell(
        a,
        b,
        inner.push(x)[#[trigger] offset(cols, a, b)],
    ) by {
        if precedes(a, b, i, j) {
            lemma_offset_in_bounds(i + 1, cols, a, b);
            if a < i {
                lemma_offset_in_bounds(i, cols, a, b);
            }
        }
    }
}

/// A walk that has filled the matrix up to `(i, j)` and writes what belongs
/// at `(i, j)` has filled it up to `(i, j + 1)`.
pub proof fn lemma_holds_after_update<S>(
    inner: Seq<S>,
    x: S,
    rows: int,
    cols: int,
    i: int,
    j: int,
    cell: spec_fn(int, int, S) -> bool,
)
    requires
        0 <= i < rows,
        0 <= j < cols,
        inner.len() == rows * cols,
        holds_before(inner, cols, i, j, cell),
        cell(i, j, x),
    ensures
        holds_before(inner.update(offset(cols, i, j), x), cols, i, j + 1, cell),
{
    lemma_offset_in_bounds(rows, cols, i, j);
    assert forall|a: int, b: int| 0 <= a && 0 <= b < cols && precedes(a, b, i, j + 1) implies cell(
        a,
        b,
        inner.update(offset(cols, i, j), x)[#[trigger] offset(cols, a, b)],
    ) by {
        lemma_offset_in_bounds(rows, cols, a, b);
        if offset(cols, a, b) == offset(cols, i, j) {
            lemma_offset_injective(cols, a, b, i, j);
        }
    }
}

/// Whether the loop nest `for a in .. { for b in .. { for c in .. { for d in ..`
/// reaches `(a, b, c, d)` before it reaches `(i, j, k, l)`.
pub open spec fn comes_before(
    a: int,
    b: int,
    c: int,
    d: int,
    i: int,
    j: int,
    k: int,
    l: int,
) -> bool {
    a < i || (a == i && (b < j || (b == j && (c < k || (c == k && d < l)))))
}

/// The matrix is a grid of blocks of `r1` rows and `c1` columns, `c0` blocks
/// wide, and `inner` is its backing sequence. `cell` holds of every entry
/// that a walk block by block, and row by row inside a block, reaches
/// before entry `(i1, j1)` of block `(i0, j0)`.
pub open spec fn holds_before_in_grid<S>(
    inner: Seq<S>,
    c0: int,
    r1: int,
    c1: int,
    i0: int,
    j0: int,
    i1: int,
    j1: int,
    cell: spec_fn(int, int, int, int, S) -> bool,
) -> bool {
    forall|a0: int, b0: int, a1: int, b1: int|
        0 <= a0 && 0 <= b0 < c0 && 0 <= a1 < r1 && 0 <= b1 < c1 && comes_before(
            a0,
            b0,
            a1,
            b1,
            i0,
            j0,
            i1,
            j1,
        ) ==> #[trigger] cell(
            a0,
            b0,
            a1,
            b1,
            inner[offset(c0 * c1, offset(r1, a0, a1), offset(c1, b0, b1))],
        )
}

/// A walk that has filled the grid up to entry `(i1, j1)` of block
/// `(i0, j0)` and writes what belongs there has filled it up to the next
/// entry of that block.
pub proof fn lemma_holds_after_update_in_grid<S>(
    inner: Seq<S>,
    x: S,
    r0: int,
    c0: int,
    r1: int,
    c1: int,
    i0: int,
    j0: int,
    i1: int,
    j1: int,
    cell: spec_fn(int, int, int, int, S) -> bool,
)
    requires
        0 <= i0 < r0,
        0 <= j0 < c0,
        0 <= i1 < r1,
        0 <= j1 < c1,
        inner.len() == (r0 * r1) * (c0 * c1),
        holds_before_in_grid(inner, c0, r1, c1, i0, j0, i1, j1, cell),
        cell(i0, j0, i1, j1, x),
    ensures
        holds_before_in_grid(
            inner.update(offset(c0 * c1, offset(r1, i0, i1), offset(c1, j0, j1)), x),
            c0,
            r1,
            c1,
            i0,
            j0,
            i1,
            j1 + 1,
            cell,
        ),
{
    let at = offset(c0 * c1, offset(r1, i0, i1), offset(c1, j0, j1));
    lemma_offset_in_bounds(r0, r1, i0, i1);
    lemma_offset_in_bounds(c0, c1, j0, j1);
    lemma_offset_in_bounds(r0 * r1, c0 * c1, offset(r1, i0, i1), offset(c1, j0, j1));
    assert forall|a0: int, b0: int, a1: int, b1: int|
        0 <= a0 && 0 <= b0 < c0 && 0 <= a1 < r1 && 0 <= b1 < c1 && comes_before(
            a0,
            b0,
            a1,
            b1,
            i0,
            j0,
            i1,
            j1 + 1,
        ) implies #[trigger] cell(
        a0,
        b0,
        a1,
        b1,
        inner.update(at, x)[offset(c0 * c1, offset(r1, a0, a1), offset(c1, b0, b1))],
    ) by {
        let other = offset(c0 * c1, offset(r1, a0, a1), offset(c1, b0, b1));
        lemma_offset_in_bounds(r0, r1, a0, a1);
        lemma_offset_in_bounds(c0, c1, b0, b1);
        lemma_offset_in_bounds(r0 * r1, c0 * c1, offset(r1, a0, a1), offset(c1, b0, b1));
        if other == at {
            lemma_offset_injective(
                c0 * c1,
                offset(r1, a0, a1),
                offset(c1, b0, b1),
                offset(r1, i0, i1),
                offset(c1, j0, j1),
            );
            lemma_offset_injective(r1, a0, a1, i0, i1);
            lemma_offset_injective(c1, b0, b1, j0, j1);
        }
    }
}

} // verus!
