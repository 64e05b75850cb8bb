use vstd::prelude::*;

verus! {

/// The failures that the tracing core reports to its caller.
#[derive(Debug, Clone, Copy, PartialEq, Eq, Structural)]
pub enum TraceError {
    /// A transform with determinant zero was asked for its inverse.
    NonInvertibleTransform,
    /// A vector of length zero was asked to be normalized.
    ZeroMagnitude,
    /// An intersection slot beyond the end of the collection was asked for.
    IndexOutOfRange,
    /// Shading or a shadow test was asked of a world that has no light.
    MissingLight,
}

} // verus!
