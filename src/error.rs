//! Errors reported by the graph and tensor operations.

use vstd::prelude::*;

verus! {

/// Every failure of a public operation, returned as a value.
#[derive(Debug, Clone, PartialEq, Eq)]
pub enum Error {
    /// A variable was read or evaluated before a value was given to it.
    ValueUninitialized { index: usize },
    /// A gradient was read from a node that no differentiation pass reached.
    DerivUninitialized { index: usize },
    /// A value was written to a node that is not a variable.
    NodeTypeError { index: usize },
    /// A variable was created under a name that is already bound.
    DuplicatedName { name: String },
    /// A name was looked up that is not bound.
    UndefinedName { name: String },
    /// A tensor of the wrong rank was given where a fixed rank is needed.
    TensorRankMismatch { actual: usize, desired: usize },
    /// Two tensors were combined elementwise whose shapes neither agree nor
    /// let one of them be broadcast as a scalar; the fields are the element
    /// counts of the two operands.
    ShapeMismatch { lhs_len: usize, rhs_len: usize },
}

} // verus!
