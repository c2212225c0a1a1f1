//! The errors that validation reports.

use vstd::prelude::*;
use crate::math::{Point2, Winding};
use crate::topology::face::{Face, FaceModel};

verus! {

/// [`Face`] validation error
#[derive(Clone, Debug, PartialEq, Eq)]
pub enum FaceValidationError {
    /// Interior of [`Face`] has invalid winding; must be opposite of exterior
    InvalidInteriorWinding {
        /// The winding of the [`Face`]'s exterior cycle
        exterior_winding: Winding,
        /// The winding of the invalid interior cycle
        interior_winding: Winding,
        /// The face
        face: Face,
    },
}

/// What a face validation error says, as a value.
pub ghost enum FaceValidationErrorModel {
    InvalidInteriorWinding { exterior_winding: Winding, interior_winding: Winding, face: FaceModel },
}

impl View for FaceValidationError {
    type V = FaceValidationErrorModel;

    open spec fn view(&self) -> FaceValidationErrorModel {
        match self {
            FaceValidationError::InvalidInteriorWinding {
                exterior_winding,
                interior_winding,
                face,
            } => FaceValidationErrorModel::InvalidInteriorWinding {
                exterior_winding: *exterior_winding,
                interior_winding: *interior_winding,
                face: face@,
            },
        }
    }
}

/// Cycle validation error
#[derive(Clone, Copy, Debug, PartialEq, Eq, Structural)]
pub enum CycleValidationError {
    /// The cycle does not close: its last half-edge ends where its first
    /// one does not start
    BoundaryNotClosed {
        /// Where the last half-edge ends
        end_position: Point2,
        /// Where the first half-edge starts
        start_position: Point2,
    },
    /// Two half-edges that follow one another are not connected
    AdjacentHalfEdgesNotConnected {
        /// The place of the first of the two half-edges in the cycle
        index: usize,
        /// Where the first half-edge ends
        end_position: Point2,
        /// Where the second half-edge starts
        start_position: Point2,
    },
}

/// An error that validation found.
#[derive(Clone, Debug, PartialEq, Eq)]
pub enum ValidationError {
    /// `Cycle` validation error
    Cycle(CycleValidationError),
    /// `Face` validation error
    Face(FaceValidationError),
}

/// What a validation error says, as a value.
pub ghost enum ValidationErrorModel {
    Cycle(CycleValidationError),
    Face(FaceValidationErrorModel),
}

impl View for ValidationError {
    type V = ValidationErrorModel;

    open spec fn view(&self) -> ValidationErrorModel {
        match self {
            ValidationError::Cycle(e) => ValidationErrorModel::Cycle(*e),
            ValidationError::Face(e) => ValidationErrorModel::Face(e@),
        }
    }
}

/// The errors of a vector, as values.
pub open spec fn error_models(errors: Seq<ValidationError>) -> Seq<ValidationErrorModel> {
    errors.map_values(|e: ValidationError| e@)
}

impl FaceValidationError {
    /// What the error says, in words.
    pub fn message(&self) -> (m: &'static str)
        ensures
            m@ == "Interior of `Face` has invalid winding; must be opposite of exterior"@,
    {
        "Interior of `Face` has invalid winding; must be opposite of exterior"
    }
}

impl CycleValidationError {
    /// What the error says, in words.
    pub fn message(&self) -> (m: &'static str)
        ensures
            m@ == (match self {
                CycleValidationError::BoundaryNotClosed { .. } => "`Cycle` is not closed"@,
                CycleValidationError::AdjacentHalfEdgesNotConnected { .. } =>
                    "Adjacent `HalfEdge`s are not connected"@,
            }),
    {
        match self {
            CycleValidationError::BoundaryNotClosed { .. } => "`Cycle` is not closed",
            CycleValidationError::AdjacentHalfEdgesNotConnected { .. } => {
                "Adjacent `HalfEdge`s are not connected"
            },
        }
    }
}

} // verus!
