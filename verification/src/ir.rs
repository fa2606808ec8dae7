//! Basic enumerations shared by every form of the shader representation.

use vstd::prelude::*;

verus! {

/// Number of bytes of a scalar.
pub type Bytes = u8;

/// The kind of a scalar value.
#[derive(Clone, Copy, Debug, PartialEq, Eq, Structural)]
pub enum ScalarKind {
    Sint,
    Uint,
    Float,
    Bool,
}

/// Number of components of a vector, or of columns and rows of a matrix.
#[derive(Clone, Copy, Debug, PartialEq, Eq, Structural)]
pub enum VectorSize {
    Bi,
    Tri,
    Quad,
}

/// The number of components that a [`VectorSize`] stands for.
pub open spec fn vector_size_value(size: VectorSize) -> u32 {
    match size {
        VectorSize::Bi => 2,
        VectorSize::Tri => 3,
        VectorSize::Quad => 4,
    }
}

impl VectorSize {
    /// The number of components: 2, 3 or 4.
    pub fn value(self) -> (n: u32)
        ensures
            n == vector_size_value(self),
    {
        match self {
            VectorSize::Bi => 2,
            VectorSize::Tri => 3,
            VectorSize::Quad => 4,
        }
    }
}

/// Dimensionality of an image.
#[derive(Clone, Copy, Debug, PartialEq, Eq, Structural)]
pub enum ImageDimension {
    D1,
    D2,
    D3,
    Cube,
}

/// Operation of a unary expression.
#[derive(Clone, Copy, Debug, PartialEq, Eq, Structural)]
pub enum UnaryOperator {
    Negate,
    Not,
}

/// Axis of a derivative.
#[derive(Clone, Copy, Debug, PartialEq, Eq, Structural)]
pub enum DerivativeAxis {
    X,
    Y,
    Width,
}

} // verus!
