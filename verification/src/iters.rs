//! Turning collected scalars into kets, bras and operators.

use vstd::prelude::*;
use crate::bra::Bra;
use crate::ket::Ket;
use crate::operator::Operator;
use crate::scalar::Scalar;

verus! {

/// What can become a ket.
pub trait ToKet<S: Scalar>: Sized {
    /// The entries that the ket will hold, from top to bottom.
    spec fn ket_entries(&self) -> Seq<S>;

    /// The ket of these entries.
    fn to_ket(self) -> (r: Ket<S>)
        ensures
            r@ == self.ket_entries(),
    ;
}

/// What can become a bra.
pub trait ToBra<S: Scalar>: Sized {
    /// The entries that the bra will hold, from left to right.
    spec fn bra_entries(&self) -> Seq<S>;

    /// The bra of these entries.
    fn to_bra(self) -> (r: Bra<S>)
        ensures
            r@ == self.bra_entries(),
    ;
}

/// What can become an operator.
pub trait ToOperator<S: Scalar>: Sized {
    /// `r` is the operator that `self` describes.
    spec fn describes_operator(&self, r: &Operator<S>) -> bool;

    /// The operator that `self` describes.
    fn to_operator(self) -> (r: Operator<S>)
        ensures
            self.describes_operator(&r),
    ;
}

impl<S: Scalar> ToKet<S> for Vec<S> {
    open spec fn ket_entries(&self) -> Seq<S> {
        self@
    }

    fn to_ket(self) -> (r: Ket<S>) {
        Ket { inner: self }
    }
}

impl<S: Scalar> ToBra<S> for Vec<S> {
    open spec fn bra_entries(&self) -> Seq<S> {
        self@
    }

    fn to_bra(self) -> (r: Bra<S>) {
        Bra { inner: self }
    }
}

impl<S: Scalar, const N: usize> ToOperator<S> for &[[S; N]] {
    /// `r` has a row for each array of the slice, with its entries.
    open spec fn describes_operator(&self, r: &Operator<S>) -> bool {
        Operator::is_from_rows(self@, r)
    }

    fn to_operator(self) -> (r: Operator<S>) {
        Operator::from_rows(self)
    }
}

} // verus!
