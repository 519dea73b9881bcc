//! Kets: column vectors of scalars.

use vstd::prelude::*;
use vstd::std_specs::convert::FromSpecImpl;
use crate::bra::Bra;
use crate::scalar::{is_entrywise_conjugate, is_entrywise_real, Scalar};
use crate::shape::Shape;
use crate::vector::{conjugated, copied, from_reals, is_all_zero, is_kronecker, kronecker, zeros};

verus! {

/// A column vector of scalars.
#[derive(Clone, Debug, PartialEq)]
pub struct Ket<S: Scalar> {
    pub inner: Vec<S>,
}

impl<S: Scalar> View for Ket<S> {
    type V = Seq<S>;

    /// The entries, from top to bottom.
    open spec fn view(&self) -> Seq<S> {
        self.inner@
    }
}

impl<S: Scalar> Ket<S> {
    /// As many rows as entries, and one column.
    pub open spec fn dims(&self) -> Shape {
        Shape { rows: self@.len() as usize, cols: 1 }
    }

    /// The ket of `size` zeros.
    pub fn new(size: usize) -> (r: Ket<S>)
        ensures
            r@.len() == size,
            is_all_zero(r@),
    {
        Ket { inner: zeros(size) }
    }

    /// The ket whose entries are the scalars of the given real numbers.
    pub fn from_reals(value: &[S::Real]) -> (r: Ket<S>)
        ensures
            is_entrywise_real(value@, r@),
    {
        Ket { inner: from_reals(value) }
    }

    /// The conjugate transpose: the bra that holds the conjugate of each
    /// entry, in the same order.
    pub fn dagger(&self) -> (r: Bra<S>)
        ensures
            is_entrywise_conjugate(self@, r@),
    {
        Bra { inner: conjugated(&self.inner) }
    }

    /// The shape: one column, and a row for each entry.
    pub fn shape(&self) -> (s: Shape)
        ensures
            s == self.dims(),
            s.area() == self@.len(),
    {
        Shape { cols: 1, rows: self.inner.len() }
    }

    /// A ket is never hermitian.
    pub fn hermitian(&self) -> (b: bool)
        ensures
            !b,
    {
        false
    }

    /// A reference to entry `idx`.
    pub fn index(&self, idx: usize) -> (r: &S)
        requires
            idx < self@.len(),
        ensures
            *r == self@[idx as int],
    {
        &self.inner[idx]
    }

    /// A mutable reference to entry `idx`. Writing through it changes that
    /// entry and no other.
    pub fn index_mut(&mut self, idx: usize) -> (r: &mut S)
        requires
            idx < old(self)@.len(),
        ensures
            *r == old(self)@[idx as int],
            final(self)@ == old(self)@.update(idx as int, *final(r)),
    {
        &mut self.inner[idx]
    }

    /// The Kronecker product of `self` and `rhs`.
    pub fn tensorprod(&self, rhs: &Ket<S>) -> (r: Ket<S>)
        requires
            self@.len() * rhs@.len() <= usize::MAX,
        ensures
            is_kronecker(self@, rhs@, r@),
            r.dims().rows == self.dims().rows * rhs.dims().rows,
            r.dims().cols == self.dims().cols * rhs.dims().cols,
    {
        let inner: Vec<S> = kronecker(&self.inner, &rhs.inner);
        proof {
            vstd::std_specs::vec::axiom_spec_len(&self.inner);
            vstd::std_specs::vec::axiom_spec_len(&rhs.inner);
            vstd::std_specs::vec::axiom_spec_len(&inner);
        }
        Ket { inner }
    }
}

impl<S: Scalar> From<&[S]> for Ket<S> {
    /// The ket with the given entries.
    fn from(value: &[S]) -> (r: Ket<S>)
        ensures
            r@ == value@,
    {
        Ket { inner: copied(value) }
    }
}

/// `from` is specified by its own `ensures`; `from_spec` names a ket that
/// meets it.
impl<S: Scalar> FromSpecImpl<&[S]> for Ket<S> {
    open spec fn obeys_from_spec() -> bool {
        false
    }

    open spec fn from_spec(value: &[S]) -> Ket<S> {
        choose|r: Ket<S>| r@ == value@
    }
}

impl<S: Scalar, const N: usize> From<[S; N]> for Ket<S> {
    /// The ket with the given entries.
    fn from(value: [S; N]) -> (r: Ket<S>)
        ensures
            r@ == value@,
    {
        Ket { inner: copied(value.as_slice()) }
    }
}

/// `from` is specified by its own `ensures`; `from_spec` names a ket that
/// meets it.
impl<S: Scalar, const N: usize> FromSpecImpl<[S; N]> for Ket<S> {
    open spec fn obeys_from_spec() -> bool {
        false
    }

    open spec fn from_spec(value: [S; N]) -> Ket<S> {
        choose|r: Ket<S>| r@ == value@
    }
}

} // verus!
