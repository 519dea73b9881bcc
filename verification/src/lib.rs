//! Dense complex linear algebra for quantum states: column vectors (kets),
//! row vectors (bras) and matrices (operators), with their sums, products,
//! conjugate transposes, Kronecker products and the assembly of an operator
//! from blocks.
//!
//! The library is generic over its scalars. It moves scalars about and
//! hands them to the operations of [`Scalar`]; it never looks inside one.
//! Each contract therefore says where every entry of a result comes from:
//! which operation gave it, applied to which entries of the operands. What
//! the operations themselves return is the business of the scalar type.
//!
//! An [`Operator`] keeps its entries row by row: entry `(i, j)` of an
//! operator with `cols` columns is at place `i * cols + j` of its backing
//! sequence, which holds exactly `rows * cols` scalars. Every function here
//! that returns an operator returns one for which this holds.
//!
//! The module [`laws`] states what holds of several operations together,
//! such as that the conjugate transpose undoes itself and that the identity
//! is neutral for the product. Such a law holds for a scalar type as far as
//! its arithmetic obeys the equations that the law names; [`Arithmetic`]
//! is how these are stated.

pub mod arithmetic;
pub mod block;
pub mod bra;
pub mod index;
pub mod iters;
pub mod ket;
pub mod laws;
pub mod object;
pub mod operator;
pub mod ops;
pub mod scalar;
pub mod shape;
pub mod vector;

pub use arithmetic::Arithmetic;
pub use bra::Bra;
pub use iters::{ToBra, ToKet, ToOperator};
pub use ket::Ket;
pub use object::ComplexObject;
pub use operator::Operator;
pub use scalar::Scalar;
pub use shape::{Orientation, QomputeTypeError, Shape};
