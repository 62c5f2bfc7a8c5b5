//! The library's recoverable errors: shape and layout incompatibilities,
//! wrapped in a library-level error sum.

use vstd::prelude::*;

verus! {

/// A shape or layout the requested operation cannot accept.
#[derive(Debug, PartialEq, Eq, Clone, Copy, Structural)]
pub enum ShapeError {
    /// The operand shapes do not agree.
    IncompatibleShape,
    /// The operand layouts (strides or contiguity) do not agree.
    IncompatibleLayout,
}

impl ShapeError {
    /// A short description of the error.
    pub fn message(&self) -> (r: &'static str)
        ensures
            self is IncompatibleShape ==> r@ == "Incompatible shape"@,
            self is IncompatibleLayout ==> r@ == "Incompatible layout"@,
    {
        match self {
            ShapeError::IncompatibleShape => "Incompatible shape",
            ShapeError::IncompatibleLayout => "Incompatible layout",
        }
    }
}

/// The library-level error sum.
#[derive(Debug, PartialEq, Eq, Clone, Copy, Structural)]
pub enum OmniError {
    ShapeError(ShapeError),
}

impl OmniError {
    /// A short description of the error.
    pub fn message(&self) -> (r: &'static str)
        ensures
            self matches OmniError::ShapeError(e) && e is IncompatibleShape ==> r@
                == "Incompatible shape"@,
            self matches OmniError::ShapeError(e) && e is IncompatibleLayout ==> r@
                == "Incompatible layout"@,
    {
        match self {
            OmniError::ShapeError(e) => e.message(),
        }
    }
}

impl From<ShapeError> for OmniError {
    fn from(e: ShapeError) -> (r: Self) {
        OmniError::ShapeError(e)
    }
}

impl vstd::std_specs::convert::FromSpecImpl<ShapeError> for OmniError {
    open spec fn obeys_from_spec() -> bool {
        true
    }

    open spec fn from_spec(e: ShapeError) -> Self {
        OmniError::ShapeError(e)
    }
}

pub type OmniResult<T> = Result<T, OmniError>;

} // verus!
