//! What kets and bras share: work on a plain sequence of scalars.

use vstd::prelude::*;
use crate::index::{holds_before, lemma_holds_after_update, lemma_offset_in_bounds, offset};
use crate::scalar::{
    is_dot, is_entrywise_conjugate, is_entrywise_difference, is_entrywise_real,
    is_entrywise_sum, is_partial_dot, is_product, is_scaled, is_sum, is_zero, Scalar,
};

verus! {

/// Every entry of `r` is a zero.
pub open spec fn is_all_zero<S: Scalar>(r: Seq<S>) -> bool {
    forall|i: int| 0 <= i < r.len() ==> is_zero(#[trigger] r[i])
}

/// `r` is a Kronecker product of `a` and `b`: it has an entry for each pair
/// of an entry of `a` and an entry of `b`, and entry `i0 * b.len() + i1` is a
/// product of `a[i0]` and `b[i1]`.
pub open spec fn is_kronecker<S: Scalar>(a: Seq<S>, b: Seq<S>, r: Seq<S>) -> bool {
    &&& r.len() == a.len() * b.len()
    &&& forall|i0: int, i1: int|
        0 <= i0 < a.len() && 0 <= i1 < b.len() ==> is_product(
            a[i0],
            b[i1],
            r[#[trigger] offset(b.len() as int, i0, i1)],
        )
}

/// `size` zeros.
pub(crate) fn zeros<S: Scalar>(size: usize) -> (r: Vec<S>)
    ensures
        r@.len() == size,
        is_all_zero(r@),
{
    let zero: S = S::zero();
    let mut inner: Vec<S> = Vec::new();
    let mut n: usize = 0;
    while n < size
        invariant
            n <= size,
            inner@.len() == n,
            is_zero(zero),
            forall|k: int| 0 <= k < n ==> inner@[k] == zero,
        decreases size - n,
    {
        inner.push(zero);
        n += 1;
    }
    inner
}

/// A copy of the slice.
pub(crate) fn copied<S: Scalar>(value: &[S]) -> (r: Vec<S>)
    ensures
        r@ == value@,
{
    let mut inner: Vec<S> = Vec::new();
    let mut i: usize = 0;
    while i < value.len()
        invariant
            i <= value@.len(),
            inner@ == value@.take(i as int),
        decreases value@.len() - i,
    {
        inner.push(value[i]);
        i += 1;
    }
    inner
}

/// The scalars of the real numbers in the slice.
pub(crate) fn from_reals<S: Scalar>(value: &[S::Real]) -> (r: Vec<S>)
    ensures
        is_entrywise_real(value@, r@),
{
    let mut inner: Vec<S> = Vec::new();
    let mut i: usize = 0;
    while i < value.len()
        invariant
            i <= value@.len(),
            is_entrywise_real(value@.take(i as int), inner@),
        decreases value@.len() - i,
    {
        inner.push(S::from_real(value[i]));
        i += 1;
    }
    inner
}

/// The conjugate of each entry.
pub(crate) fn conjugated<S: Scalar>(value: &Vec<S>) -> (r: Vec<S>)
    ensures
        is_entrywise_conjugate(value@, r@),
{
    let mut inner: Vec<S> = Vec::new();
    let mut i: usize = 0;
    while i < value.len()
        invariant
            i <= value@.len(),
            is_entrywise_conjugate(value@.take(i as int), inner@),
        decreases value@.len() - i,
    {
        inner.push(value[i].conj());
        i += 1;
    }
    inner
}

/// The sum of each pair of entries.
pub(crate) fn added<S: Scalar>(lhs: &Vec<S>, rhs: &Vec<S>) -> (r: Vec<S>)
    requires
        lhs@.len() == rhs@.len(),
    ensures
        is_entrywise_sum(lhs@, rhs@, r@),
{
    let mut inner: Vec<S> = Vec::new();
    let mut i: usize = 0;
    while i < lhs.len()
        invariant
            i <= lhs@.len(),
            lhs@.len() == rhs@.len(),
            is_entrywise_sum(lhs@.take(i as int), rhs@, inner@),
        decreases lhs@.len() - i,
    {
        inner.push(lhs[i].add(rhs[i]));
        i += 1;
    }
    inner
}

/// The difference of each pair of entries.
pub(crate) fn subtracted<S: Scalar>(lhs: &Vec<S>, rhs: &Vec<S>) -> (r: Vec<S>)
    requires
        lhs@.len() == rhs@.len(),
    ensures
        is_entrywise_difference(lhs@, rhs@, r@),
{
    let mut inner: Vec<S> = Vec::new();
    let mut i: usize = 0;
    while i < lhs.len()
        invariant
            i <= lhs@.len(),
            lhs@.len() == rhs@.len(),
            is_entrywise_difference(lhs@.take(i as int), rhs@, inner@),
        decreases lhs@.len() - i,
    {
        inner.push(lhs[i].sub(rhs[i]));
        i += 1;
    }
    inner
}

/// Each entry times `factor`.
pub(crate) fn scaled<S: Scalar>(value: &Vec<S>, factor: S) -> (r: Vec<S>)
    ensures
        is_scaled(value@, factor, r@),
{
    let mut inner: Vec<S> = Vec::new();
    let mut i: usize = 0;
    while i < value.len()
        invariant
            i <= value@.len(),
            is_scaled(value@.take(i as int), factor, inner@),
        decreases value@.len() - i,
    {
        inner.push(value[i].mul(factor));
        i += 1;
    }
    inner
}

/// The sum over `k` of `lhs[k] * rhs[k]`, added up from zero in the order
/// of `k`.
pub(crate) fn dotted<S: Scalar>(lhs: &Vec<S>, rhs: &Vec<S>) -> (r: S)
    requires
        lhs@.len() == rhs@.len(),
    ensures
        is_dot(lhs@, rhs@, r),
{
    let mut acc: S = S::zero();
    let mut k: usize = 0;
    while k < lhs.len()
        invariant
            k <= lhs@.len(),
            lhs@.len() == rhs@.len(),
            is_partial_dot(lhs@, rhs@, k as nat, acc),
        decreases lhs@.len() - k,
    {
        let term: S = lhs[k].mul(rhs[k]);
        let next: S = acc.add(term);
        proof {
            assert(is_partial_dot(lhs@, rhs@, k as nat, acc) && is_product(
                lhs@[k as int],
                rhs@[k as int],
                term,
            ) && is_sum(acc, term, next));
        }
        acc = next;
        k += 1;
    }
    acc
}

/// The Kronecker product of two sequences.
#[verifier::loop_isolation(false)]
pub(crate) fn kronecker<S: Scalar>(lhs: &Vec<S>, rhs: &Vec<S>) -> (r: Vec<S>)
    requires
        lhs@.len() * rhs@.len() <= usize::MAX,
    ensures
        is_kronecker(lhs@, rhs@, r@),
{
    let n0: usize = lhs.len();
    let n1: usize = rhs.len();
    let ghost cell = |a: int, b: int, x: S| is_product(lhs@[a], rhs@[b], x);
    let mut out: Vec<S> = zeros(n0 * n1);
    let mut i0: usize = 0;
    while i0 < n0
        invariant
            i0 <= n0,
            out@.len() == n0 * n1,
            holds_before(out@, n1 as int, i0 as int, 0, cell),
        decreases n0 - i0,
    {
        let mut i1: usize = 0;
        while i1 < n1
            invariant
                i1 <= n1,
                out@.len() == n0 * n1,
                holds_before(out@, n1 as int, i0 as int, i1 as int, cell),
            decreases n1 - i1,
        {
            let x: S = lhs[i0].mul(rhs[i1]);
            proof {
                lemma_offset_in_bounds(n0 as int, n1 as int, i0 as int, i1 as int);
                lemma_holds_after_update(
                    out@,
                    x,
                    n0 as int,
                    n1 as int,
                    i0 as int,
                    i1 as int,
                    cell,
                );
            }
            out.set(i0 * n1 + i1, x);
            i1 += 1;
        }
        i0 += 1;
    }
    out
}

} // verus!
