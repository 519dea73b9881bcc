//! Shapes, orientations and the error type.

use vstd::prelude::*;
use vstd::std_specs::convert::FromSpecImpl;
use vstd::std_specs::ops::NegSpecImpl;

verus! {

/// Why an operator could not be assembled from blocks.
#[derive(Clone, Debug, PartialEq, Eq, Hash, Structural)]
pub enum QomputeTypeError {
    /// Two of the blocks differ in shape.
    NonMatchingSizes,
    /// The grid of blocks has no rows or no columns.
    EmptyInput,
}

/// What is said of blocks that differ in shape.
pub const NON_MATCHING_SIZES: &'static str = "It seems your types don't match size.";

/// What is said of a grid without rows or columns.
pub const EMPTY_INPUT: &'static str =
    "You may have passed in a value with zero size, when a non-zero size was expected";

impl QomputeTypeError {
    /// The text shown for this error.
    pub fn message(&self) -> (s: String)
        ensures
            s@ == match *self {
                QomputeTypeError::NonMatchingSizes => NON_MATCHING_SIZES@,
                QomputeTypeError::EmptyInput => EMPTY_INPUT@,
            },
    {
        match self {
            QomputeTypeError::NonMatchingSizes => NON_MATCHING_SIZES.to_owned(),
            QomputeTypeError::EmptyInput => EMPTY_INPUT.to_owned(),
        }
    }
}

/// Whether an object is a row vector, a column vector, or neither.
#[derive(Copy, Clone, Debug, PartialEq, Eq, Structural)]
pub enum Orientation {
    NonOriented,
    Row,
    Column,
}

impl Orientation {
    /// The orientation of the transposed object: rows and columns change
    /// places, and what has no orientation keeps none.
    pub open spec fn flipped(self) -> Orientation {
        match self {
            Orientation::NonOriented => Orientation::NonOriented,
            Orientation::Row => Orientation::Column,
            Orientation::Column => Orientation::Row,
        }
    }
}

impl core::ops::Neg for Orientation {
    type Output = Orientation;

    fn neg(self) -> (r: Orientation)
    {
        match self {
            Orientation::NonOriented => Orientation::NonOriented,
            Orientation::Row => Orientation::Column,
            Orientation::Column => Orientation::Row,
        }
    }
}

impl NegSpecImpl for Orientation {
    open spec fn obeys_neg_spec() -> bool {
        true
    }

    open spec fn neg_req(self) -> bool {
        true
    }

    open spec fn neg_spec(self) -> Orientation {
        self.flipped()
    }
}

/// The dimensions of a dense matrix.
#[derive(Copy, Clone, Debug, PartialEq, Eq, Structural)]
pub struct Shape {
    pub rows: usize,
    pub cols: usize,
}

impl Shape {
    /// The shape with rows and columns exchanged.
    pub open spec fn transposed(self) -> Shape {
        Shape { rows: self.cols, cols: self.rows }
    }

    /// The number of entries of a matrix of this shape.
    pub open spec fn area(self) -> nat {
        (self.rows * self.cols) as nat
    }

    /// Whether rows and columns are equally many.
    pub open spec fn is_square(self) -> bool {
        self.rows == self.cols
    }

    /// The shape with rows and columns exchanged.
    pub fn transpose(self) -> (r: Shape)
        ensures
            r == self.transposed(),
    {
        Shape { rows: self.cols, cols: self.rows }
    }

    /// The number of entries of a matrix of this shape.
    pub fn size(self) -> (n: usize)
        requires
            self.area() <= usize::MAX,
        ensures
            n == self.area(),
    {
        self.rows * self.cols
    }
}

impl From<(usize, usize)> for Shape {
    fn from(value: (usize, usize)) -> (r: Shape)
    {
        Shape { rows: value.0, cols: value.1 }
    }
}

impl FromSpecImpl<(usize, usize)> for Shape {
    open spec fn obeys_from_spec() -> bool {
        true
    }

    open spec fn from_spec(value: (usize, usize)) -> Shape {
        Shape { rows: value.0, cols: value.1 }
    }
}

impl From<Shape> for (usize, usize) {
    fn from(value: Shape) -> (r: (usize, usize))
    {
        (value.rows, value.cols)
    }
}

impl FromSpecImpl<Shape> for (usize, usize) {
    open spec fn obeys_from_spec() -> bool {
        true
    }

    open spec fn from_spec(value: Shape) -> (usize, usize) {
        (value.rows, value.cols)
    }
}

} // verus!
