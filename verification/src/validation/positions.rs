//! Validation from positions and windings that are known from elsewhere.
//!
//! Where a half-edge follows an arc of a circle, the kernel cannot write
//! down where it starts and ends. Who can, hands the positions in, and the
//! same rules are checked on them.

use vstd::prelude::*;
use crate::math::{Point2, Winding};
use crate::topology::face::{Face, FaceModel};
use crate::validation::face::same_winding;
use crate::validation::error::{
    error_models, CycleValidationError, FaceValidationError, FaceValidationErrorModel,
    ValidationError, ValidationErrorModel,
};

verus! {

/// Where a half-edge starts and where it ends.
#[derive(Clone, Copy, Debug, PartialEq, Eq, Structural, Hash)]
pub struct Ends {
    pub start: Point2,
    pub end: Point2,
}

/// The winding errors of a face, by the windings of its cycles: one for
/// each of the first `k` interior cycles that winds as the exterior does.
pub open spec fn winding_errors_upto(
    face: FaceModel,
    exterior: Option<Winding>,
    interiors: Seq<Option<Winding>>,
    k: int,
) -> Seq<ValidationErrorModel>
    decreases k,
{
    if k <= 0 {
        Seq::empty()
    } else {
        let before = winding_errors_upto(face, exterior, interiors, k - 1);
        if exterior.is_some() && interiors[k - 1] == exterior {
            before.push(
                ValidationErrorModel::Face(
                    FaceValidationErrorModel::InvalidInteriorWinding {
                        exterior_winding: exterior.unwrap(),
                        interior_winding: exterior.unwrap(),
                        face,
                    },
                ),
            )
        } else {
            before
        }
    }
}

/// The gap errors of a cycle, by the ends of its half-edges: one for each
/// of the first `k` half-edges that ends where the next does not start.
pub open spec fn gap_errors_upto(ends: Seq<Ends>, k: int) -> Seq<ValidationErrorModel>
    decreases k,
{
    if k <= 0 {
        Seq::empty()
    } else {
        let before = gap_errors_upto(ends, k - 1);
        if ends[k - 1].end != ends[k].start {
            before.push(
                ValidationErrorModel::Cycle(
                    CycleValidationError::AdjacentHalfEdgesNotConnected {
                        index: (k - 1) as usize,
                        end_position: ends[k - 1].end,
                        start_position: ends[k].start,
                    },
                ),
            )
        } else {
            before
        }
    }
}

/// All the errors of a cycle, by the ends of its half-edges: those between
/// half-edges that follow one another, then the one about closing.
pub open spec fn errors_of_ends(ends: Seq<Ends>) -> Seq<ValidationErrorModel> {
    if ends.len() == 0 {
        Seq::empty()
    } else if ends.last().end != ends[0].start {
        gap_errors_upto(ends, ends.len() - 1).push(
            ValidationErrorModel::Cycle(
                CycleValidationError::BoundaryNotClosed {
                    end_position: ends.last().end,
                    start_position: ends[0].start,
                },
            ),
        )
    } else {
        gap_errors_upto(ends, ends.len() - 1)
    }
}

impl FaceValidationError {
    /// Check the windings of the cycles of a face, given from elsewhere:
    /// report each interior cycle that winds as the exterior cycle does.
    pub fn check_windings(
        face: &Face,
        exterior: Option<Winding>,
        interiors: &Vec<Option<Winding>>,
        errors: &mut Vec<ValidationError>,
    )
        ensures
            error_models(final(errors)@) == error_models(old(errors)@) + winding_errors_upto(
                face@,
                exterior,
                interiors@,
                interiors@.len() as int,
            ),
    {
        let ghost before = error_models(errors@);
        proof {
            assert(before + Seq::<ValidationErrorModel>::empty() =~= before);
        }
        let mut k: usize = 0;
        while k < interiors.len()
            invariant
                k <= interiors.len(),
                error_models(errors@) == before + winding_errors_upto(
                    face@,
                    exterior,
                    interiors@,
                    k as int,
                ),
            decreases interiors.len() - k,
        {
            let ghost current = error_models(errors@);
            match (exterior, interiors[k]) {
                (Some(outer), Some(inner)) => {
                    if same_winding(outer, inner) {
                        let error = ValidationError::Face(
                            FaceValidationError::InvalidInteriorWinding {
                                exterior_winding: outer,
                                interior_winding: inner,
                                face: face.duplicate(),
                            },
                        );
                        errors.push(error);
                        proof {
                            assert(error_models(errors@) =~= current.push(error@));
                            assert(current.push(error@) =~= before + winding_errors_upto(
                                face@,
                                exterior,
                                interiors@,
                                k as int,
                            ).push(error@));
                        }
                    }
                },
                _ => {},
            }
            k += 1;
        }
    }
}

impl CycleValidationError {
    /// Check that a cycle is connected and closed, given where its
    /// half-edges start and end: report each half-edge that ends where the
    /// next does not start, and the last if it ends where the first does
    /// not start.
    pub fn check_ends(ends: &Vec<Ends>, errors: &mut Vec<ValidationError>)
        ensures
            error_models(final(errors)@) == error_models(old(errors)@) + errors_of_ends(ends@),
    {
        let ghost before = error_models(errors@);
        proof {
            assert(before + Seq::<ValidationErrorModel>::empty() =~= before);
        }
        if ends.len() == 0 {
            return ;
        }
        let mut k: usize = 0;
        while k + 1 < ends.len()
            invariant
                ends@.len() > 0,
                k + 1 <= ends@.len(),
                error_models(errors@) == before + gap_errors_upto(ends@, k as int),
            decreases ends.len() - k,
        {
            let ghost current = error_models(errors@);
            let end = ends[k].end;
            let start = ends[k + 1].start;
            if end.u != start.u || end.v != start.v {
                let error = ValidationError::Cycle(
                    CycleValidationError::AdjacentHalfEdgesNotConnected {
                        index: k,
                        end_position: end,
                        start_position: start,
                    },
                );
                errors.push(error);
                proof {
                    assert(error_models(errors@) =~= current.push(error@));
                    assert(current.push(error@) =~= before + gap_errors_upto(ends@, k as int).push(
                        error@,
                    ));
                }
            }
            k += 1;
        }
        let ghost current = error_models(errors@);
        let end = ends[ends.len() - 1].end;
        let start = ends[0].start;
        if end.u != start.u || end.v != start.v {
            let error = ValidationError::Cycle(
                CycleValidationError::BoundaryNotClosed { end_position: end, start_position: start },
            );
            errors.push(error);
            proof {
                assert(error_models(errors@) =~= current.push(error@));
                assert(current.push(error@) =~= before + gap_errors_upto(
                    ends@,
                    ends@.len() - 1,
                ).push(error@));
            }
        }
    }
}

} // verus!
