//! What holds of the operations together, for every scalar type whose
//! arithmetic has a description that obeys the equations a law names.

use vstd::prelude::*;
use crate::bra::Bra;
use crate::ket::Ket;
use crate::operator::{lemma_same_entries, Operator};
use crate::arithmetic::Arithmetic;
use crate::scalar::{
    is_comparison, is_conjugate, is_conjugate_comparison, is_dot, is_entrywise_conjugate,
    is_entrywise_sum, is_one, is_sum, is_zero, Scalar,
};

verus! {

/// Where conjugating a scalar twice gives the scalar back, the conjugate
/// transpose of the conjugate transpose of a ket is the ket.
pub proof fn law_ket_dagger_is_involution<S: Scalar>(
    m: Arithmetic<S>,
    x: Ket<S>,
    d: Bra<S>,
    y: Ket<S>,
)
    requires
        m.describes(),
        m.conjugate_is_involution(),
        is_entrywise_conjugate(x@, d@),
        is_entrywise_conjugate(d@, y@),
    ensures
        y@ == x@,
{
    assert forall|i: int| 0 <= i < x@.len() implies y@[i] == x@[i] by {
        assert(is_conjugate(x@[i], d@[i]));
        assert(is_conjugate(d@[i], y@[i]));
        assert(y@[i] == (m.conjugate)((m.conjugate)(x@[i])));
    }
    assert(y@ =~= x@);
}

/// Where conjugating a scalar twice gives the scalar back, the conjugate
/// transpose of the conjugate transpose of a bra is the bra.
pub proof fn law_bra_dagger_is_involution<S: Scalar>(
    m: Arithmetic<S>,
    x: Bra<S>,
    d: Ket<S>,
    y: Bra<S>,
)
    requires
        m.describes(),
        m.conjugate_is_involution(),
        is_entrywise_conjugate(x@, d@),
        is_entrywise_conjugate(d@, y@),
    ensures
        y@ == x@,
{
    assert forall|i: int| 0 <= i < x@.len() implies y@[i] == x@[i] by {
        assert(is_conjugate(x@[i], d@[i]));
        assert(is_conjugate(d@[i], y@[i]));
        assert(y@[i] == (m.conjugate)((m.conjugate)(x@[i])));
    }
    assert(y@ =~= x@);
}

/// Where conjugating a scalar twice gives the scalar back, the conjugate
/// transpose of the conjugate transpose of an operator is the operator: the
/// same shape, and the same entry in each place.
pub proof fn law_operator_dagger_is_involution<S: Scalar>(
    m: Arithmetic<S>,
    x: Operator<S>,
    d: Operator<S>,
    y: Operator<S>,
)
    requires
        m.describes(),
        m.conjugate_is_involution(),
        x.wf(),
        x.is_dagger(&d),
        d.is_dagger(&y),
    ensures
        y.dims() == x.dims(),
        forall|i: int, j: int| x.has_entry(i, j) ==> y.entry(i, j) == x.entry(i, j),
        y.inner@ == x.inner@,
{
    assert forall|i: int, j: int| x.has_entry(i, j) implies y.entry(i, j) == x.entry(i, j) by {
        assert(d.has_entry(j, i));
        assert(is_conjugate(x.entry(i, j), d.entry(j, i)));
        assert(y.has_entry(i, j));
        assert(is_conjugate(d.entry(j, i), y.entry(i, j)));
        assert(y.entry(i, j) == (m.conjugate)((m.conjugate)(x.entry(i, j))));
    }
    lemma_same_entries(x, y);
}

/// Where the sum of scalars is commutative, conjugation is an involution
/// that respects sums, and every scalar compares equal to itself, the sum
/// of a square operator and its conjugate transpose is hermitian.
pub proof fn law_sum_with_dagger_is_hermitian<S: Scalar>(
    m: Arithmetic<S>,
    a: Operator<S>,
    d: Operator<S>,
    h: Operator<S>,
    answer: bool,
)
    requires
        m.describes(),
        m.sum_is_commutative(),
        m.conjugate_is_involution(),
        m.conjugate_is_additive(),
        m.comparison_is_reflexive(),
        a.wf(),
        a.dims().is_square(),
        a.is_dagger(&d),
        a.is_sum_with(&d, &h),
        h.is_hermitian_answer(answer),
    ensures
        answer,
{
    if !answer {
        let (i, j) = choose|i: int, j: int|
            h.has_entry(i, j) && is_conjugate_comparison(
                #[trigger] h.entry(i, j),
                h.entry(j, i),
                false,
            );
        let c = choose|c: S|
            is_conjugate(h.entry(i, j), c) && is_comparison(c, h.entry(j, i), false);
        assert(h.has_entry(j, i));
        assert(d.has_entry(i, j) && d.has_entry(j, i));
        assert(is_conjugate(a.entry(j, i), d.entry(i, j)));
        assert(is_conjugate(a.entry(i, j), d.entry(j, i)));
        assert(is_sum(a.entry(i, j), d.entry(i, j), h.entry(i, j)));
        assert(is_sum(a.entry(j, i), d.entry(j, i), h.entry(j, i)));
        let x = a.entry(i, j);
        let y = a.entry(j, i);
        assert(h.entry(i, j) == (m.sum)(x, (m.conjugate)(y)));
        assert(h.entry(j, i) == (m.sum)(y, (m.conjugate)(x)));
        assert(c == (m.conjugate)((m.sum)(x, (m.conjugate)(y))));
        assert(c == (m.sum)((m.conjugate)(x), (m.conjugate)((m.conjugate)(y))));
        assert(c == (m.sum)((m.conjugate)(x), y));
        assert((m.sum)((m.conjugate)(x), y) == (m.sum)(y, (m.conjugate)(x)));
        assert((m.compares_equal)(h.entry(j, i), h.entry(j, i)));
    }
}

/// An operator that is not square is not hermitian.
pub proof fn law_hermitian_is_square<S: Scalar>(a: Operator<S>, answer: bool)
    requires
        a.is_hermitian_answer(answer),
        !a.dims().is_square(),
    ensures
        !answer,
{
}

/// The dot product with a sequence that holds a one in place `i` and zeros
/// elsewhere picks entry `i` of the other sequence, once place `i` has been
/// added.
proof fn lemma_unit_dot_left<S: Scalar>(
    m: Arithmetic<S>,
    u: Seq<S>,
    v: Seq<S>,
    i: int,
    k: nat,
)
    requires
        m.describes(),
        m.zero_is_neutral(),
        m.one_is_neutral(),
        m.zero_annihilates(),
        u.len() == v.len(),
        0 <= i < u.len(),
        k <= u.len(),
        forall|t: int|
            0 <= t < u.len() ==> #[trigger] u[t] == if t == i {
                m.one
            } else {
                m.zero
            },
    ensures
        m.partial_dot(u, v, k) == if k <= i {
            m.zero
        } else {
            v[i]
        },
    decreases k,
{
    if k > 0 {
        lemma_unit_dot_left(m, u, v, i, (k - 1) as nat);
        let before = m.partial_dot(u, v, (k - 1) as nat);
        let term = (m.product)(u[k - 1], v[k - 1]);
        if k - 1 == i {
            assert(term == (m.product)(m.one, v[i]));
            assert((m.sum)(m.zero, v[i]) == v[i]);
        } else {
            assert(term == (m.product)(m.zero, v[k - 1]));
            assert(term == m.zero);
            assert((m.sum)(before, m.zero) == before);
        }
    }
}

/// The dot product of a sequence with one that holds a one in place `i` and
/// zeros elsewhere picks entry `i` of the first, once place `i` has been
/// added.
proof fn lemma_unit_dot_right<S: Scalar>(
    m: Arithmetic<S>,
    v: Seq<S>,
    u: Seq<S>,
    i: int,
    k: nat,
)
    requires
        m.describes(),
        m.zero_is_neutral(),
        m.one_is_neutral(),
        m.zero_annihilates(),
        u.len() == v.len(),
        0 <= i < u.len(),
        k <= u.len(),
        forall|t: int|
            0 <= t < u.len() ==> #[trigger] u[t] == if t == i {
                m.one
            } else {
                m.zero
            },
    ensures
        m.partial_dot(v, u, k) == if k <= i {
            m.zero
        } else {
            v[i]
        },
    decreases k,
{
    if k > 0 {
        lemma_unit_dot_right(m, v, u, i, (k - 1) as nat);
        let before = m.partial_dot(v, u, (k - 1) as nat);
        let term = (m.product)(v[k - 1], u[k - 1]);
        if k - 1 == i {
            assert(term == (m.product)(v[i], m.one));
            assert((m.sum)(m.zero, v[i]) == v[i]);
        } else {
            assert(term == (m.product)(v[k - 1], m.zero));
            assert(term == m.zero);
            assert((m.sum)(before, m.zero) == before);
        }
    }
}

/// Where zero and one are neutral for the sum and the product of scalars and
/// a product with zero is zero, the product of the identity with a square
/// operator is that operator.
pub proof fn law_identity_is_left_neutral<S: Scalar>(
    m: Arithmetic<S>,
    id: Operator<S>,
    a: Operator<S>,
    p: Operator<S>,
)
    requires
        m.describes(),
        m.zero_is_neutral(),
        m.one_is_neutral(),
        m.zero_annihilates(),
        a.wf(),
        a.dims().is_square(),
        Operator::is_identity(a.dims(), &id),
        id.is_matmul(&a, &p),
    ensures
        p.dims() == a.dims(),
        forall|i: int, j: int| a.has_entry(i, j) ==> p.entry(i, j) == a.entry(i, j),
        p.inner@ == a.inner@,
{
    assert forall|i: int, j: int| a.has_entry(i, j) implies p.entry(i, j) == a.entry(i, j) by {
        let u = id.row(i);
        let v = a.col(j);
        assert(p.has_entry(i, j));
        assert(is_dot(u, v, p.entry(i, j)));
        m.lemma_partial_dot(u, v, u.len(), p.entry(i, j));
        assert forall|t: int| 0 <= t < u.len() implies #[trigger] u[t] == if t == i {
            m.one
        } else {
            m.zero
        } by {
            assert(id.has_entry(i, t));
            if t == i {
                assert(is_one(id.entry(i, t)));
            } else {
                assert(is_zero(id.entry(i, t)));
            }
        }
        lemma_unit_dot_left(m, u, v, i, u.len());
    }
    lemma_same_entries(a, p);
}

/// Where zero and one are neutral for the sum and the product of scalars and
/// a product with zero is zero, the product of a square operator with the
/// identity is that operator.
pub proof fn law_identity_is_right_neutral<S: Scalar>(
    m: Arithmetic<S>,
    a: Operator<S>,
    id: Operator<S>,
    p: Operator<S>,
)
    requires
        m.describes(),
        m.zero_is_neutral(),
        m.one_is_neutral(),
        m.zero_annihilates(),
        a.wf(),
        a.dims().is_square(),
        Operator::is_identity(a.dims(), &id),
        a.is_matmul(&id, &p),
    ensures
        p.dims() == a.dims(),
        forall|i: int, j: int| a.has_entry(i, j) ==> p.entry(i, j) == a.entry(i, j),
        p.inner@ == a.inner@,
{
    assert forall|i: int, j: int| a.has_entry(i, j) implies p.entry(i, j) == a.entry(i, j) by {
        let v = a.row(i);
        let u = id.col(j);
        assert(p.has_entry(i, j));
        assert(is_dot(v, u, p.entry(i, j)));
        m.lemma_partial_dot(v, u, v.len(), p.entry(i, j));
        assert forall|t: int| 0 <= t < u.len() implies #[trigger] u[t] == if t == j {
            m.one
        } else {
            m.zero
        } by {
            assert(id.has_entry(t, j));
            if t == j {
                assert(is_one(id.entry(t, j)));
            } else {
                assert(is_zero(id.entry(t, j)));
            }
        }
        lemma_unit_dot_right(m, v, u, j, u.len());
    }
    lemma_same_entries(a, p);
}

/// The dot product of the conjugated sum of two sequences with a third is
/// the sum of the dot products of each conjugated sequence with the third.
proof fn lemma_partial_dot_is_additive<S: Scalar>(
    m: Arithmetic<S>,
    a: Seq<S>,
    b: Seq<S>,
    c: Seq<S>,
    sd: Seq<S>,
    ad: Seq<S>,
    bd: Seq<S>,
    k: nat,
)
    requires
        m.describes(),
        m.sum_is_commutative(),
        m.sum_is_associative(),
        m.zero_is_neutral(),
        m.product_distributes(),
        m.conjugate_is_additive(),
        k <= a.len(),
        a.len() == b.len() == c.len(),
        a.len() == sd.len() == ad.len() == bd.len(),
        forall|t: int| 0 <= t < a.len() ==> #[trigger] sd[t] == (m.conjugate)((m.sum)(a[t], b[t])),
        forall|t: int| 0 <= t < a.len() ==> #[trigger] ad[t] == (m.conjugate)(a[t]),
        forall|t: int| 0 <= t < a.len() ==> #[trigger] bd[t] == (m.conjugate)(b[t]),
    ensures
        m.partial_dot(sd, c, k) == (m.sum)(m.partial_dot(ad, c, k), m.partial_dot(bd, c, k)),
    decreases k,
{
    if k == 0 {
        assert((m.sum)(m.zero, m.zero) == m.zero);
    } else {
        let t = k - 1;
        lemma_partial_dot_is_additive(m, a, b, c, sd, ad, bd, t as nat);
        let d1 = m.partial_dot(ad, c, t as nat);
        let d2 = m.partial_dot(bd, c, t as nat);
        let t1 = (m.product)(ad[t], c[t]);
        let t2 = (m.product)(bd[t], c[t]);
        assert(sd[t] == (m.sum)(ad[t], bd[t])) by {
            assert((m.conjugate)((m.sum)(a[t], b[t])) == (m.sum)(
                (m.conjugate)(a[t]),
                (m.conjugate)(b[t]),
            ));
        }
        assert((m.product)(sd[t], c[t]) == (m.sum)(t1, t2)) by {
            assert((m.product)((m.sum)(ad[t], bd[t]), c[t]) == (m.sum)(t1, t2));
        }
        m.lemma_sum_interchange(d1, d2, t1, t2);
    }
}

/// Where the sum of scalars is commutative and associative with zero as its
/// neutral element, the product distributes over it and conjugation
/// respects it, the inner product is additive in the ket whose conjugate
/// transpose is taken: `(a + b).dagger().dot(c)` is the sum of
/// `a.dagger().dot(c)` and `b.dagger().dot(c)`, for kets `a`, `b` and `c` of
/// one length.
pub proof fn law_inner_product_is_additive<S: Scalar>(
    m: Arithmetic<S>,
    a: Ket<S>,
    b: Ket<S>,
    c: Ket<S>,
    s: Ket<S>,
    sd: Bra<S>,
    ad: Bra<S>,
    bd: Bra<S>,
    whole: S,
    left: S,
    right: S,
    parts: S,
)
    requires
        m.describes(),
        m.sum_is_commutative(),
        m.sum_is_associative(),
        m.zero_is_neutral(),
        m.product_distributes(),
        m.conjugate_is_additive(),
        a@.len() == b@.len() == c@.len(),
        is_entrywise_sum(a@, b@, s@),
        is_entrywise_conjugate(s@, sd@),
        is_entrywise_conjugate(a@, ad@),
        is_entrywise_conjugate(b@, bd@),
        is_dot(sd@, c@, whole),
        is_dot(ad@, c@, left),
        is_dot(bd@, c@, right),
        is_sum(left, right, parts),
    ensures
        whole == parts,
{
    let n = a@.len();
    m.lemma_partial_dot(sd@, c@, n, whole);
    m.lemma_partial_dot(ad@, c@, n, left);
    m.lemma_partial_dot(bd@, c@, n, right);
    assert forall|t: int| 0 <= t < n implies #[trigger] sd@[t] == (m.conjugate)(
        (m.sum)(a@[t], b@[t]),
    ) by {
        assert(is_sum(a@[t], b@[t], s@[t]));
        assert(is_conjugate(s@[t], sd@[t]));
    }
    assert forall|t: int| 0 <= t < n implies #[trigger] ad@[t] == (m.conjugate)(a@[t]) by {
        assert(is_conjugate(a@[t], ad@[t]));
    }
    assert forall|t: int| 0 <= t < n implies #[trigger] bd@[t] == (m.conjugate)(b@[t]) by {
        assert(is_conjugate(b@[t], bd@[t]));
    }
    lemma_partial_dot_is_additive(m, a@, b@, c@, sd@, ad@, bd@, n);
}

/// The product of entry `(i, k)` of `a`, entry `(k, l)` of `b` and entry
/// `(l, j)` of `c`, for each `k` and `l`.
spec fn triple_products<S: Scalar>(
    m: Arithmetic<S>,
    a: Operator<S>,
    b: Operator<S>,
    c: Operator<S>,
    i: int,
    j: int,
) -> spec_fn(int, int) -> S {
    |k: int, l: int| (m.product)((m.product)(a.entry(i, k), b.entry(k, l)), c.entry(l, j))
}

/// Entry `(i, j)` of `(a * b) * c` is the total of the triple products,
/// summed over the columns of `a` first.
proof fn lemma_entry_of_left_product<S: Scalar>(
    m: Arithmetic<S>,
    a: Operator<S>,
    b: Operator<S>,
    c: Operator<S>,
    ab: Operator<S>,
    left: Operator<S>,
    i: int,
    j: int,
)
    requires
        m.describes(),
        m.zero_annihilates(),
        m.product_distributes(),
        a.dims().cols == b.dims().rows,
        b.dims().cols == c.dims().rows,
        a.is_matmul(&b, &ab),
        ab.is_matmul(&c, &left),
        left.has_entry(i, j),
    ensures
        left.entry(i, j) == m.total(
            m.totals_along_first(
                triple_products(m, a, b, c, i, j),
                a.dims().cols as nat,
                b.dims().cols as nat,
            ),
            b.dims().cols as nat,
        ),
{
    let n = a.dims().cols as nat;
    let p = b.dims().cols as nat;
    let f = triple_products(m, a, b, c, i, j);
    let over_l = m.totals_along_first(f, n, p);
    assert forall|l: int| 0 <= l < p implies over_l[l] == (m.product)(
        ab.row(i)[l],
        c.col(j)[l],
    ) by {
        let products = Seq::new(n, |k: int| (m.product)(a.entry(i, k), b.entry(k, l)));
        assert(ab.has_entry(i, l));
        assert(is_dot(a.row(i), b.col(l), ab.entry(i, l)));
        m.lemma_partial_dot(a.row(i), b.col(l), n, ab.entry(i, l));
        m.lemma_partial_dot_is_total(a.row(i), b.col(l), products, n);
        m.lemma_total_times(products, c.entry(l, j), Arithmetic::along_first(f, n, l), n);
    }
    assert(is_dot(ab.row(i), c.col(j), left.entry(i, j)));
    m.lemma_partial_dot(ab.row(i), c.col(j), p, left.entry(i, j));
    m.lemma_partial_dot_is_total(ab.row(i), c.col(j), over_l, p);
}

/// Entry `(i, j)` of `a * (b * c)` is the total of the triple products,
/// summed over the columns of `b` first.
proof fn lemma_entry_of_right_product<S: Scalar>(
    m: Arithmetic<S>,
    a: Operator<S>,
    b: Operator<S>,
    c: Operator<S>,
    bc: Operator<S>,
    right: Operator<S>,
    i: int,
    j: int,
)
    requires
        m.describes(),
        m.zero_annihilates(),
        m.product_distributes_on_the_left(),
        m.product_is_associative(),
        a.dims().cols == b.dims().rows,
        b.dims().cols == c.dims().rows,
        b.is_matmul(&c, &bc),
        a.is_matmul(&bc, &right),
        right.has_entry(i, j),
    ensures
        right.entry(i, j) == m.total(
            m.totals_along_second(
                triple_products(m, a, b, c, i, j),
                a.dims().cols as nat,
                b.dims().cols as nat,
            ),
            a.dims().cols as nat,
        ),
{
    let n = a.dims().cols as nat;
    let p = b.dims().cols as nat;
    let f = triple_products(m, a, b, c, i, j);
    let over_k = m.totals_along_second(f, n, p);
    assert forall|k: int| 0 <= k < n implies over_k[k] == (m.product)(
        a.row(i)[k],
        bc.col(j)[k],
    ) by {
        let products = Seq::new(p, |l: int| (m.product)(b.entry(k, l), c.entry(l, j)));
        let scaled = Seq::new(
            p,
            |l: int| (m.product)(a.entry(i, k), (m.product)(b.entry(k, l), c.entry(l, j))),
        );
        assert(bc.has_entry(k, j));
        assert(is_dot(b.row(k), c.col(j), bc.entry(k, j)));
        m.lemma_partial_dot(b.row(k), c.col(j), p, bc.entry(k, j));
        m.lemma_partial_dot_is_total(b.row(k), c.col(j), products, p);
        m.lemma_times_total(a.entry(i, k), products, scaled, p);
        m.lemma_total_of_equal_entries(scaled, Arithmetic::along_second(f, p, k), p);
    }
    assert(is_dot(a.row(i), bc.col(j), right.entry(i, j)));
    m.lemma_partial_dot(a.row(i), bc.col(j), n, right.entry(i, j));
    m.lemma_partial_dot_is_total(a.row(i), bc.col(j), over_k, n);
}

/// Where the scalars form a ring under their sum and product, the product
/// of operators is associative: `(a * b) * c` and `a * (b * c)` have the same
/// shape and the same entry in each place.
pub proof fn law_product_is_associative<S: Scalar>(
    m: Arithmetic<S>,
    a: Operator<S>,
    b: Operator<S>,
    c: Operator<S>,
    ab: Operator<S>,
    bc: Operator<S>,
    left: Operator<S>,
    right: Operator<S>,
)
    requires
        m.describes(),
        m.sum_is_commutative(),
        m.sum_is_associative(),
        m.zero_is_neutral(),
        m.zero_annihilates(),
        m.product_distributes(),
        m.product_distributes_on_the_left(),
        m.product_is_associative(),
        a.dims().cols == b.dims().rows,
        b.dims().cols == c.dims().rows,
        a.is_matmul(&b, &ab),
        ab.is_matmul(&c, &left),
        b.is_matmul(&c, &bc),
        a.is_matmul(&bc, &right),
    ensures
        left.dims() == right.dims(),
        forall|i: int, j: int| left.has_entry(i, j) ==> left.entry(i, j) == right.entry(i, j),
        left.inner@ == right.inner@,
{
    assert forall|i: int, j: int| left.has_entry(i, j) implies left.entry(i, j) == right.entry(
        i,
        j,
    ) by {
        lemma_entry_of_left_product(m, a, b, c, ab, left, i, j);
        lemma_entry_of_right_product(m, a, b, c, bc, right, i, j);
        m.lemma_totals_exchange(
            triple_products(m, a, b, c, i, j),
            a.dims().cols as nat,
            b.dims().cols as nat,
        );
    }
    lemma_same_entries(left, right);
}

} // verus!
