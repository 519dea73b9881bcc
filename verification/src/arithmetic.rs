//! Descriptions of a scalar type's arithmetic, and the laws that one may
//! obey.
//!
//! The operations of a scalar type are code that the library runs and does
//! not look into. What holds of sums and products of matrices depends on
//! what holds of sums and products of scalars, so each law of the library is
//! stated for a description: mathematical functions that say what the
//! operations return, and the equations that the law needs of them.

use vstd::prelude::*;
use crate::scalar::{
    is_comparison, is_conjugate, is_one, is_partial_dot, is_product, is_sum, is_zero, Scalar,
};

verus! {

/// A description of the arithmetic of `S` by mathematical functions: what
/// its operations return, said without running them.
#[verifier::reject_recursive_types(S)]
pub struct Arithmetic<S> {
    pub zero: S,
    pub one: S,
    pub sum: spec_fn(S, S) -> S,
    pub product: spec_fn(S, S) -> S,
    pub conjugate: spec_fn(S) -> S,
    pub compares_equal: spec_fn(S, S) -> bool,
}

impl<S: Scalar> Arithmetic<S> {
    /// Whatever an operation of `S` returns is what this description says
    /// of it.
    pub open spec fn describes(self) -> bool {
        &&& forall|z: S| #[trigger] is_zero(z) ==> z == self.zero
        &&& forall|o: S| #[trigger] is_one(o) ==> o == self.one
        &&& forall|a: S, b: S, r: S| #[trigger] is_sum(a, b, r) ==> r == (self.sum)(a, b)
        &&& forall|a: S, b: S, r: S| #[trigger] is_product(a, b, r) ==> r == (self.product)(a, b)
        &&& forall|a: S, r: S| #[trigger] is_conjugate(a, r) ==> r == (self.conjugate)(a)
        &&& forall|a: S, b: S, r: bool| #[trigger]
            is_comparison(a, b, r) ==> r == (self.compares_equal)(a, b)
    }

    /// `a + b == b + a`.
    pub open spec fn sum_is_commutative(self) -> bool {
        forall|a: S, b: S| #[trigger] (self.sum)(a, b) == (self.sum)(b, a)
    }

    /// `(a + b) + c == a + (b + c)`.
    pub open spec fn sum_is_associative(self) -> bool {
        forall|a: S, b: S, c: S| #[trigger]
            (self.sum)((self.sum)(a, b), c) == (self.sum)(a, (self.sum)(b, c))
    }

    /// `0 + a == a == a + 0`.
    pub open spec fn zero_is_neutral(self) -> bool {
        &&& forall|a: S| #[trigger] (self.sum)(self.zero, a) == a
        &&& forall|a: S| #[trigger] (self.sum)(a, self.zero) == a
    }

    /// `1 * a == a == a * 1`.
    pub open spec fn one_is_neutral(self) -> bool {
        &&& forall|a: S| #[trigger] (self.product)(self.one, a) == a
        &&& forall|a: S| #[trigger] (self.product)(a, self.one) == a
    }

    /// `0 * a == 0 == a * 0`.
    pub open spec fn zero_annihilates(self) -> bool {
        &&& forall|a: S| #[trigger] (self.product)(self.zero, a) == self.zero
        &&& forall|a: S| #[trigger] (self.product)(a, self.zero) == self.zero
    }

    /// `(a + b) * c == a * c + b * c`.
    pub open spec fn product_distributes(self) -> bool {
        forall|a: S, b: S, c: S| #[trigger]
            (self.product)((self.sum)(a, b), c) == (self.sum)(
                (self.product)(a, c),
                (self.product)(b, c),
            )
    }

    /// `c * (a + b) == c * a + c * b`.
    pub open spec fn product_distributes_on_the_left(self) -> bool {
        forall|a: S, b: S, c: S| #[trigger]
            (self.product)(c, (self.sum)(a, b)) == (self.sum)(
                (self.product)(c, a),
                (self.product)(c, b),
            )
    }

    /// `(a * b) * c == a * (b * c)`.
    pub open spec fn product_is_associative(self) -> bool {
        forall|a: S, b: S, c: S| #[trigger]
            (self.product)((self.product)(a, b), c) == (self.product)(a, (self.product)(b, c))
    }

    /// The conjugate of the conjugate of `a` is `a`.
    pub open spec fn conjugate_is_involution(self) -> bool {
        forall|a: S| #[trigger] (self.conjugate)((self.conjugate)(a)) == a
    }

    /// The conjugate of `a + b` is the sum of the conjugates of `a` and `b`.
    pub open spec fn conjugate_is_additive(self) -> bool {
        forall|a: S, b: S| #[trigger]
            (self.conjugate)((self.sum)(a, b)) == (self.sum)(
                (self.conjugate)(a),
                (self.conjugate)(b),
            )
    }

    /// Every scalar compares equal to itself.
    pub open spec fn comparison_is_reflexive(self) -> bool {
        forall|a: S| #[trigger] (self.compares_equal)(a, a)
    }

    /// The sum of the products `a[0] * b[0]`, ..., `a[n - 1] * b[n - 1]`,
    /// added to zero one after the other in this order.
    pub open spec fn partial_dot(self, a: Seq<S>, b: Seq<S>, n: nat) -> S
        decreases n,
    {
        if n == 0 {
            self.zero
        } else {
            (self.sum)(self.partial_dot(a, b, (n - 1) as nat), (self.product)(a[n - 1], b[n - 1]))
        }
    }

    /// The sum of `s[0]`, ..., `s[n - 1]`, added to zero one after the other
    /// in this order.
    pub open spec fn total(self, s: Seq<S>, n: nat) -> S
        decreases n,
    {
        if n == 0 {
            self.zero
        } else {
            (self.sum)(self.total(s, (n - 1) as nat), s[n - 1])
        }
    }

    /// The only value that adding up the first `n` products may give is
    /// `partial_dot(a, b, n)`.
    pub proof fn lemma_partial_dot(self, a: Seq<S>, b: Seq<S>, n: nat, acc: S)
        requires
            self.describes(),
            is_partial_dot(a, b, n, acc),
        ensures
            acc == self.partial_dot(a, b, n),
        decreases n,
    {
        if n > 0 {
            let (before, term) = choose|before: S, term: S|
                {
                    &&& is_partial_dot(a, b, (n - 1) as nat, before)
                    &&& is_product(a[n - 1], b[n - 1], term)
                    &&& #[trigger] is_sum(before, term, acc)
                };
            self.lemma_partial_dot(a, b, (n - 1) as nat, before);
        }
    }
}

impl<S: Scalar> Arithmetic<S> {
    /// `(x + y) + (u + v) == (x + u) + (y + v)`.
    pub proof fn lemma_sum_interchange(self, x: S, y: S, u: S, v: S)
        requires
            self.sum_is_commutative(),
            self.sum_is_associative(),
        ensures
            (self.sum)((self.sum)(x, y), (self.sum)(u, v)) == (self.sum)(
                (self.sum)(x, u),
                (self.sum)(y, v),
            ),
    {
        assert((self.sum)((self.sum)(x, y), (self.sum)(u, v)) == (self.sum)(
            x,
            (self.sum)(y, (self.sum)(u, v)),
        ));
        assert((self.sum)((self.sum)(y, u), v) == (self.sum)(y, (self.sum)(u, v)));
        assert((self.sum)(y, u) == (self.sum)(u, y));
        assert((self.sum)((self.sum)(u, y), v) == (self.sum)(u, (self.sum)(y, v)));
        assert((self.sum)((self.sum)(x, u), (self.sum)(y, v)) == (self.sum)(
            x,
            (self.sum)(u, (self.sum)(y, v)),
        ));
    }

    /// Sequences that agree in their first `n` entries have the same total
    /// of these.
    pub proof fn lemma_total_of_equal_entries(self, s: Seq<S>, t: Seq<S>, n: nat)
        requires
            forall|k: int| 0 <= k < n ==> s[k] == t[k],
        ensures
            self.total(s, n) == self.total(t, n),
        decreases n,
    {
        if n > 0 {
            self.lemma_total_of_equal_entries(s, t, (n - 1) as nat);
        }
    }

    /// A dot product is the total of the products of the entries.
    pub proof fn lemma_partial_dot_is_total(self, a: Seq<S>, b: Seq<S>, p: Seq<S>, n: nat)
        requires
            forall|k: int| 0 <= k < n ==> p[k] == (self.product)(a[k], b[k]),
        ensures
            self.partial_dot(a, b, n) == self.total(p, n),
        decreases n,
    {
        if n > 0 {
            self.lemma_partial_dot_is_total(a, b, p, (n - 1) as nat);
        }
    }

    /// The total of sums is the sum of the totals.
    pub proof fn lemma_total_is_additive(self, s: Seq<S>, t: Seq<S>, both: Seq<S>, n: nat)
        requires
            self.sum_is_commutative(),
            self.sum_is_associative(),
            self.zero_is_neutral(),
            forall|k: int| 0 <= k < n ==> both[k] == (self.sum)(s[k], t[k]),
        ensures
            self.total(both, n) == (self.sum)(self.total(s, n), self.total(t, n)),
        decreases n,
    {
        if n == 0 {
            assert((self.sum)(self.zero, self.zero) == self.zero);
        } else {
            self.lemma_total_is_additive(s, t, both, (n - 1) as nat);
            self.lemma_sum_interchange(
                self.total(s, (n - 1) as nat),
                self.total(t, (n - 1) as nat),
                s[n - 1],
                t[n - 1],
            );
        }
    }

    /// The total of zeros is zero.
    pub proof fn lemma_total_of_zeros(self, s: Seq<S>, n: nat)
        requires
            self.zero_is_neutral(),
            forall|k: int| 0 <= k < n ==> s[k] == self.zero,
        ensures
            self.total(s, n) == self.zero,
        decreases n,
    {
        if n > 0 {
            self.lemma_total_of_zeros(s, (n - 1) as nat);
            assert((self.sum)(self.zero, self.zero) == self.zero);
        }
    }

    /// The total of the products with `c` on the right is the product of
    /// the total with `c`.
    pub proof fn lemma_total_times(self, s: Seq<S>, c: S, scaled: Seq<S>, n: nat)
        requires
            self.product_distributes(),
            self.zero_annihilates(),
            forall|k: int| 0 <= k < n ==> scaled[k] == (self.product)(s[k], c),
        ensures
            self.total(scaled, n) == (self.product)(self.total(s, n), c),
        decreases n,
    {
        if n == 0 {
            assert((self.product)(self.zero, c) == self.zero);
        } else {
            self.lemma_total_times(s, c, scaled, (n - 1) as nat);
            assert((self.product)((self.sum)(self.total(s, (n - 1) as nat), s[n - 1]), c)
                == (self.sum)(
                (self.product)(self.total(s, (n - 1) as nat), c),
                (self.product)(s[n - 1], c),
            ));
        }
    }

    /// The total of the products with `c` on the left is the product of `c`
    /// with the total.
    pub proof fn lemma_times_total(self, c: S, s: Seq<S>, scaled: Seq<S>, n: nat)
        requires
            self.product_distributes_on_the_left(),
            self.zero_annihilates(),
            forall|k: int| 0 <= k < n ==> scaled[k] == (self.product)(c, s[k]),
        ensures
            self.total(scaled, n) == (self.product)(c, self.total(s, n)),
        decreases n,
    {
        if n == 0 {
            assert((self.product)(c, self.zero) == self.zero);
        } else {
            self.lemma_times_total(c, s, scaled, (n - 1) as nat);
            assert((self.product)(c, (self.sum)(self.total(s, (n - 1) as nat), s[n - 1]))
                == (self.sum)(
                (self.product)(c, self.total(s, (n - 1) as nat)),
                (self.product)(c, s[n - 1]),
            ));
        }
    }

    /// The entries `f(k, l)` for `k < n`, with `l` fixed.
    pub open spec fn along_first(f: spec_fn(int, int) -> S, n: nat, l: int) -> Seq<S> {
        Seq::new(n, |k: int| f(k, l))
    }

    /// The entries `f(k, l)` for `l < p`, with `k` fixed.
    pub open spec fn along_second(f: spec_fn(int, int) -> S, p: nat, k: int) -> Seq<S> {
        Seq::new(p, |l: int| f(k, l))
    }

    /// For each `l < p`, the total of `f(k, l)` over `k < n`.
    pub open spec fn totals_along_first(
        self,
        f: spec_fn(int, int) -> S,
        n: nat,
        p: nat,
    ) -> Seq<S> {
        Seq::new(p, |l: int| self.total(Self::along_first(f, n, l), n))
    }

    /// For each `k < n`, the total of `f(k, l)` over `l < p`.
    pub open spec fn totals_along_second(
        self,
        f: spec_fn(int, int) -> S,
        n: nat,
        p: nat,
    ) -> Seq<S> {
        Seq::new(n, |k: int| self.total(Self::along_second(f, p, k), p))
    }

    /// A double sum may be taken in either order: the total over `l` of the
    /// totals over `k` is the total over `k` of the totals over `l`.
    pub proof fn lemma_totals_exchange(self, f: spec_fn(int, int) -> S, n: nat, p: nat)
        requires
            self.sum_is_commutative(),
            self.sum_is_associative(),
            self.zero_is_neutral(),
        ensures
            self.total(self.totals_along_first(f, n, p), p) == self.total(
                self.totals_along_second(f, n, p),
                n,
            ),
        decreases p,
    {
        if p == 0 {
            self.lemma_total_of_zeros(self.totals_along_second(f, n, 0), n);
        } else {
            let q = (p - 1) as nat;
            self.lemma_totals_exchange(f, n, q);
            // The totals over `k` do not depend on how far `l` runs.
            self.lemma_total_of_equal_entries(
                self.totals_along_first(f, n, p),
                self.totals_along_first(f, n, q),
                q,
            );
            // Each total over `l < p` is the total over `l < q` plus `f(k, q)`.
            let shorter = self.totals_along_second(f, n, q);
            let last = Self::along_first(f, n, q as int);
            let longer = self.totals_along_second(f, n, p);
            assert forall|k: int| 0 <= k < n implies longer[k] == (self.sum)(
                shorter[k],
                last[k],
            ) by {
                self.lemma_total_of_equal_entries(
                    Self::along_second(f, p, k),
                    Self::along_second(f, q, k),
                    q,
                );
            }
            self.lemma_total_is_additive(shorter, last, longer, n);
        }
    }
}

} // verus!
