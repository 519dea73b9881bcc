//! The scalars that kets, bras and operators hold.
//!
//! The library does no scalar arithmetic of its own: it is written against
//! the trait [`Scalar`], and every contract says which scalar operation,
//! applied to which entries, gave each entry of a result. Nothing is assumed
//! of an implementation, not even that an operation returns the same value
//! twice; a contract therefore speaks of *a* sum or *a* product, meaning any
//! value the operation may return.

use vstd::prelude::*;

verus! {

/// A complex scalar.
pub trait Scalar: Copy {
    /// The real numbers that embed into this scalar type.
    type Real: Copy;

    /// The additive identity.
    fn zero() -> Self;

    /// The multiplicative identity.
    fn one() -> Self;

    /// The scalar with the given real part and no imaginary part.
    fn from_real(re: Self::Real) -> Self;

    /// Addition.
    fn add(self, rhs: Self) -> Self;

    /// Subtraction.
    fn sub(self, rhs: Self) -> Self;

    /// Multiplication.
    fn mul(self, rhs: Self) -> Self;

    /// Complex conjugation.
    fn conj(self) -> Self;

    /// Comparison.
    fn equals(self, rhs: Self) -> bool;
}

/// `z` is a value that `S::zero()` may return.
pub open spec fn is_zero<S: Scalar>(z: S) -> bool {
    call_ensures(S::zero, (), z)
}

/// `o` is a value that `S::one()` may return.
pub open spec fn is_one<S: Scalar>(o: S) -> bool {
    call_ensures(S::one, (), o)
}

/// `r` is a value that `S::from_real(re)` may return.
pub open spec fn is_real<S: Scalar>(re: S::Real, r: S) -> bool {
    call_ensures(S::from_real, (re,), r)
}

/// `r` is a value that `a.add(b)` may return.
pub open spec fn is_sum<S: Scalar>(a: S, b: S, r: S) -> bool {
    call_ensures(S::add, (a, b), r)
}

/// `r` is a value that `a.sub(b)` may return.
pub open spec fn is_difference<S: Scalar>(a: S, b: S, r: S) -> bool {
    call_ensures(S::sub, (a, b), r)
}

/// `r` is a value that `a.mul(b)` may return.
pub open spec fn is_product<S: Scalar>(a: S, b: S, r: S) -> bool {
    call_ensures(S::mul, (a, b), r)
}

/// `r` is a value that `a.conj()` may return.
pub open spec fn is_conjugate<S: Scalar>(a: S, r: S) -> bool {
    call_ensures(S::conj, (a,), r)
}

/// `r` is an answer that `a.equals(b)` may give.
pub open spec fn is_comparison<S: Scalar>(a: S, b: S, r: bool) -> bool {
    call_ensures(S::equals, (a, b), r)
}

/// `r` is an answer that comparing a conjugate of `a` with `b` may give.
pub open spec fn is_conjugate_comparison<S: Scalar>(a: S, b: S, r: bool) -> bool {
    exists|c: S| is_conjugate(a, c) && is_comparison(c, b, r)
}

/// `r` holds, place by place, a sum of the entries of `a` and `b`.
pub open spec fn is_entrywise_sum<S: Scalar>(a: Seq<S>, b: Seq<S>, r: Seq<S>) -> bool {
    &&& r.len() == a.len()
    &&& forall|i: int| 0 <= i < a.len() ==> is_sum(a[i], b[i], #[trigger] r[i])
}

/// `r` holds, place by place, a difference of the entries of `a` and `b`.
pub open spec fn is_entrywise_difference<S: Scalar>(a: Seq<S>, b: Seq<S>, r: Seq<S>) -> bool {
    &&& r.len() == a.len()
    &&& forall|i: int| 0 <= i < a.len() ==> is_difference(a[i], b[i], #[trigger] r[i])
}

/// `r` holds, place by place, a product of the entry of `a` with `c`.
pub open spec fn is_scaled<S: Scalar>(a: Seq<S>, c: S, r: Seq<S>) -> bool {
    &&& r.len() == a.len()
    &&& forall|i: int| 0 <= i < a.len() ==> is_product(a[i], c, #[trigger] r[i])
}

/// `r` holds, place by place, a conjugate of the entry of `a`.
pub open spec fn is_entrywise_conjugate<S: Scalar>(a: Seq<S>, r: Seq<S>) -> bool {
    &&& r.len() == a.len()
    &&& forall|i: int| 0 <= i < a.len() ==> is_conjugate(a[i], #[trigger] r[i])
}

/// `r` holds, place by place, the scalar of the real number in `a`.
pub open spec fn is_entrywise_real<S: Scalar>(a: Seq<S::Real>, r: Seq<S>) -> bool {
    &&& r.len() == a.len()
    &&& forall|i: int| 0 <= i < a.len() ==> is_real(a[i], #[trigger] r[i])
}

/// `acc` is a value that adding the products `a[0] * b[0]`, ...,
/// `a[n - 1] * b[n - 1]` to a zero, one after the other in this order, may
/// give.
pub open spec fn is_partial_dot<S: Scalar>(a: Seq<S>, b: Seq<S>, n: nat, acc: S) -> bool
    decreases n,
{
    if n == 0 {
        is_zero(acc)
    } else {
        exists|before: S, term: S|
            {
                &&& is_partial_dot(a, b, (n - 1) as nat, before)
                &&& is_product(a[n - 1], b[n - 1], term)
                &&& #[trigger] is_sum(before, term, acc)
            }
    }
}

/// `r` is a value that the sum of the products `a[k] * b[k]` over all `k`,
/// added up from a zero in the order of `k`, may have.
pub open spec fn is_dot<S: Scalar>(a: Seq<S>, b: Seq<S>, r: S) -> bool {
    is_partial_dot(a, b, a.len(), r)
}

} // verus!
