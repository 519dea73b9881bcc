//! Bras: row vectors of scalars.

use vstd::prelude::*;
use vstd::std_specs::convert::FromSpecImpl;
use crate::ket::Ket;
use crate::scalar::{is_entrywise_conjugate, is_entrywise_real, Scalar};
use crate::shape::Shape;
use crate::vector::{conjugated, copied, from_reals, is_all_zero, is_kronecker, kronecker, zeros};

verus! {

/// A row vector of scalars.
#[derive(Clone, Debug, PartialEq)]
pub struct Bra<S: Scalar> {
    pub inner: Vec<S>,
}

impl<S: Scalar> View for Bra<S> {
    type V = Seq<S>;

    /// The entries, from left to right.
    open spec fn view(&self) -> Seq<S> {
        self.inner@
    }
}

impl<S: Scalar> Bra<S> {
    /// One row, and as many columns as entries.
    pub open spec fn dims(&self) -> Shape {
        Shape { rows: 1, cols: self@.len() as usize }
    }

    /// The bra of `size` zeros.
    pub fn new(size: usize) -> (r: Bra<S>)
        ensures
            r@.len() == size,
            is_all_zero(r@),
    {
        Bra { inner: zeros(size) }
    }

    /// The bra whose entries are the scalars of the given real numbers.
    pub fn from_reals(value: &[S::Real]) -> (r: Bra<S>)
        ensures
            is_entrywise_real(value@, r@),
    {
        Bra { inner: from_reals(value) }
    }

    /// The conjugate transpose: the ket that holds the conjugate of each
    /// entry, in the same order.
    pub fn dagger(&self) -> (r: Ket<S>)
        ensures
            is_entrywise_conjugate(self@, r@),
    {
        Ket { inner: conjugated(&self.inner) }
    }

    /// The shape: one row, and a column for each entry.
    pub fn shape(&self) -> (s: Shape)
        ensures
            s == self.dims(),
            s.area() == self@.len(),
    {
        Shape { cols: self.inner.len(), rows: 1 }
    }

    /// A bra is never hermitian.
    pub fn hermitian(&self) -> (b: bool)
        ensures
            !b,
    {
        false
    }

    /// A reference to entry `idx`.
    pub fn index(&self, idx: usize) -> (r: &S)
        requires
            idx < self@.len(),
        ensures
            *r == self@[idx as int],
    {
        &self.inner[idx]
    }

    /// A mutable reference to entry `idx`. Writing through it changes that
    /// entry and no other.
    pub fn index_mut(&mut self, idx: usize) -> (r: &mut S)
        requires
            idx < old(self)@.len(),
        ensures
            *r == old(self)@[idx as int],
            final(self)@ == old(self)@.update(idx as int, *final(r)),
    {
        &mut self.inner[idx]
    }

    /// The Kronecker product of `self` and `rhs`.
    pub fn tensorprod(&self, rhs: &Bra<S>) -> (r: Bra<S>)
        requires
            self@.len() * rhs@.len() <= usize::MAX,
        ensures
            is_kronecker(self@, rhs@, r@),
            r.dims().rows == self.dims().rows * rhs.dims().rows,
            r.dims().cols == self.dims().cols * rhs.dims().cols,
    {
        let inner: Vec<S> = kronecker(&self.inner, &rhs.inner);
        proof {
            vstd::std_specs::vec::axiom_spec_len(&self.inner);
            vstd::std_specs::vec::axiom_spec_len(&rhs.inner);
            vstd::std_specs::vec::axiom_spec_len(&inner);
        }
        Bra { inner }
    }
}

impl<S: Scalar> From<&[S]> for Bra<S> {
    /// The bra with the given entries.
    fn from(value: &[S]) -> (r: Bra<S>)
        ensures
            r@ == value@,
    {
        Bra { inner: copied(value) }
    }
}

/// `from` is specified by its own `ensures`; `from_spec` names a bra that
/// meets it.
impl<S: Scalar> FromSpecImpl<&[S]> for Bra<S> {
    open spec fn obeys_from_spec() -> bool {
        false
    }

    open spec fn from_spec(value: &[S]) -> Bra<S> {
        choose|r: Bra<S>| r@ == value@
    }
}

impl<S: Scalar, const N: usize> From<[S; N]> for Bra<S> {
    /// The bra with the given entries.
    fn from(value: [S; N]) -> (r: Bra<S>)
        ensures
            r@ == value@,
    {
        Bra { inner: copied(value.as_slice()) }
    }
}

/// `from` is specified by its own `ensures`; `from_spec` names a bra that
/// meets it.
impl<S: Scalar, const N: usize> FromSpecImpl<[S; N]> for Bra<S> {
    open spec fn obeys_from_spec() -> bool {
        false
    }

    open spec fn from_spec(value: [S; N]) -> Bra<S> {
        choose|r: Bra<S>| r@ == value@
    }
}

} // verus!
