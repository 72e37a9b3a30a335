use vstd::prelude::*;

verus! {

/// The ways in which an operation of the renderer refuses its input.
#[derive(Clone, Copy, Debug, PartialEq, Eq, Structural)]
pub enum TraceError {
    /// A vector operation (dot or cross product) was given a point.
    InvalidOperand,
    /// A matrix without an inverse was to be inverted.
    NotInvertible,
    /// A material coefficient lies outside its documented range.
    OutOfRange,
    /// A pixel coordinate or a list index lies outside its extent.
    OutOfBounds,
}

} // verus!
