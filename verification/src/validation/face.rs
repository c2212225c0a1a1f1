//! Validation of faces.

use vstd::prelude::*;
use crate::math::Winding;
use crate::topology::cycle::winding_of;
use crate::topology::edge::HalfEdge;
use crate::topology::face::{Face, FaceModel};
use crate::validation::error::{
    error_models, FaceValidationError, FaceValidationErrorModel, ValidationError,
    ValidationErrorModel,
};

verus! {

/// An interior cycle is invalid where it winds as the exterior cycle does.
/// A cycle that has no winding is not judged.
pub open spec fn winds_as(exterior: Seq<HalfEdge>) -> spec_fn(Seq<HalfEdge>) -> bool {
    |interior: Seq<HalfEdge>|
        winding_of(exterior).is_some() && winding_of(interior) == winding_of(exterior)
}

/// The error that is reported for an invalid interior cycle of a face.
pub open spec fn winding_error(face: FaceModel) -> spec_fn(Seq<HalfEdge>) -> ValidationErrorModel {
    |interior: Seq<HalfEdge>|
        ValidationErrorModel::Face(
            FaceValidationErrorModel::InvalidInteriorWinding {
                exterior_winding: winding_of(face.exterior).unwrap(),
                interior_winding: winding_of(interior).unwrap(),
                face,
            },
        )
}

/// The winding errors of a face: one for each interior cycle that winds
/// as the exterior does, in the order of the interior cycles.
pub open spec fn interior_winding_errors(face: FaceModel) -> Seq<ValidationErrorModel> {
    face.interiors.filter(winds_as(face.exterior)).map_values(winding_error(face))
}

/// Whether two windings are the same.
pub(crate) fn same_winding(a: Winding, b: Winding) -> (r: bool)
    ensures
        r == (a == b),
{
    match (a, b) {
        (Winding::Ccw, Winding::Ccw) => true,
        (Winding::Cw, Winding::Cw) => true,
        _ => false,
    }
}

impl FaceValidationError {
    /// Check that every interior cycle of a face winds opposite to its
    /// exterior cycle, and report each one that does not.
    pub fn check_interior_winding(face: &Face, errors: &mut Vec<ValidationError>)
        ensures
            error_models(final(errors)@) == error_models(old(errors)@) + interior_winding_errors(
                face@,
            ),
    {
        let ghost before = error_models(errors@);
        let ghost bad = winds_as(face@.exterior);
        let ghost report = winding_error(face@);
        proof {
            reveal(Seq::filter);
            assert(face@.interiors.subrange(0, 0) =~= Seq::<Seq<HalfEdge>>::empty());
            assert(Seq::<Seq<HalfEdge>>::empty().map_values(report)
                =~= Seq::<ValidationErrorModel>::empty());
            assert(before + Seq::<ValidationErrorModel>::empty() =~= before);
        }
        let exterior_winding = match face.exterior().winding() {
            None => {
                proof {
                    crate::algorithms::sequences::lemma_filter_contains(face@.interiors, bad);
                    let found = face@.interiors.filter(bad);
                    if found.len() > 0 {
                        assert(found.contains(found[0]));
                    }
                    assert(found.map_values(report) =~= Seq::<ValidationErrorModel>::empty());
                }
                return ;
            },
            Some(w) => w,
        };
        let interiors = face.interiors();
        let mut i: usize = 0;
        while i < interiors.len()
            invariant
                i <= interiors.len(),
                crate::topology::face::cycle_models(interiors@) == face@.interiors,
                bad == winds_as(face@.exterior),
                report == winding_error(face@),
                winding_of(face@.exterior) == Some(exterior_winding),
                error_models(errors@) == before + face@.interiors.subrange(0, i as int).filter(
                    bad,
                ).map_values(report),
            decreases interiors.len() - i,
        {
            let interior = &interiors[i];
            let ghost current = error_models(errors@);
            proof {
                let done = face@.interiors.subrange(0, i as int);
                assert(face@.interiors[i as int] == interior@);
                assert(face@.interiors.subrange(0, i + 1) =~= done.push(interior@));
                done.lemma_filter_push(interior@, bad);
                assert(done.filter(bad).push(interior@).map_values(report) =~= done.filter(
                    bad,
                ).map_values(report).push(report(interior@)));
            }
            match interior.winding() {
                None => {},
                Some(interior_winding) => {
                    if same_winding(exterior_winding, interior_winding) {
                        let error = ValidationError::Face(
                            FaceValidationError::InvalidInteriorWinding {
                                exterior_winding,
                                interior_winding,
                                face: face.duplicate(),
                            },
                        );
                        errors.push(error);
                        proof {
                            assert(error_models(errors@) =~= current.push(report(interior@)));
                            assert(current.push(report(interior@)) =~= before
                                + face@.interiors.subrange(0, i as int).filter(bad).map_values(
                                report,
                            ).push(report(interior@)));
                        }
                    }
                },
            }
            i += 1;
        }
        proof {
            assert(face@.interiors.subrange(0, face@.interiors.len() as int) =~= face@.interiors);
        }
    }
}

impl Face {
    /// Validate the face, adding what is found to the errors.
    pub fn validate(&self, errors: &mut Vec<ValidationError>)
        ensures
            error_models(final(errors)@) == error_models(old(errors)@) + interior_winding_errors(
                self@,
            ),
    {
        FaceValidationError::check_interior_winding(self, errors);
    }

    /// Validate the face and return the first error, if there is one.
    pub fn validate_and_return_first_error(&self) -> (r: Result<(), ValidationError>)
        ensures
            r.is_ok() <==> interior_winding_errors(self@).len() == 0,
            r.is_err() ==> r.unwrap_err()@ == interior_winding_errors(self@)[0],
    {
        let mut errors: Vec<ValidationError> = Vec::new();
        self.validate(&mut errors);
        proof {
            assert(error_models(Seq::<ValidationError>::empty()) + interior_winding_errors(self@)
                =~= interior_winding_errors(self@));
        }
        if errors.len() == 0 {
            Ok(())
        } else {
            let first = errors.swap_remove(0);
            Err(first)
        }
    }
}

/// An interior cycle that is reported for its winding, and is a closed
/// polygon, is not reported once it is travelled the other way.
pub proof fn lemma_reversed_interior_is_valid(exterior: Seq<HalfEdge>, interior: Seq<HalfEdge>)
    requires
        winds_as(exterior)(interior),
        crate::topology::cycle::is_closed_polygon(interior),
    ensures
        !winds_as(exterior)(crate::topology::cycle::reversed_edges(interior)),
{
    crate::topology::cycle::lemma_reverse_flips_winding(interior);
}

} // verus!
