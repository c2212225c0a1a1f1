//! Validation of cycles.

use vstd::prelude::*;
use crate::math::Point2;
use crate::topology::cycle::Cycle;
use crate::topology::edge::HalfEdge;
use crate::validation::error::{
    error_models, CycleValidationError, ValidationError, ValidationErrorModel,
};

verus! {

/// The gap between two half-edges that follow one another: where the first
/// ends and where the second starts, if those are two different positions.
///
/// Where one of the two positions cannot be written exactly, no gap is
/// seen.
pub open spec fn junction_gap(first: HalfEdge, second: HalfEdge) -> Option<(Point2, Point2)> {
    match (first.spec_end_position(), second.spec_start_position()) {
        (Some(end), Some(start)) => if end != start {
            Some((end, start))
        } else {
            None
        },
        _ => None,
    }
}

/// The errors at the junctions behind the first `k` half-edges, in the
/// order of the half-edges.
pub open spec fn adjacency_errors_upto(edges: Seq<HalfEdge>, k: int) -> Seq<ValidationErrorModel>
    decreases k,
{
    if k <= 0 {
        Seq::empty()
    } else {
        let before = adjacency_errors_upto(edges, k - 1);
        match junction_gap(edges[k - 1], edges[k]) {
            Some((end, start)) => before.push(
                ValidationErrorModel::Cycle(
                    CycleValidationError::AdjacentHalfEdgesNotConnected {
                        index: (k - 1) as usize,
                        end_position: end,
                        start_position: start,
                    },
                ),
            ),
            None => before,
        }
    }
}

/// One error for each half-edge but the last that ends where the next does
/// not start.
pub open spec fn adjacency_errors(edges: Seq<HalfEdge>) -> Seq<ValidationErrorModel> {
    adjacency_errors_upto(edges, edges.len() - 1)
}

/// An error if the last half-edge ends where the first does not start.
pub open spec fn closure_errors(edges: Seq<HalfEdge>) -> Seq<ValidationErrorModel> {
    if edges.len() == 0 {
        Seq::empty()
    } else {
        match junction_gap(edges.last(), edges[0]) {
            Some((end, start)) => seq![
                ValidationErrorModel::Cycle(
                    CycleValidationError::BoundaryNotClosed {
                        end_position: end,
                        start_position: start,
                    },
                ),
            ],
            None => Seq::empty(),
        }
    }
}

/// All the errors of a cycle: those between half-edges that follow one
/// another, then the one about closing.
pub open spec fn cycle_errors(edges: Seq<HalfEdge>) -> Seq<ValidationErrorModel> {
    adjacency_errors(edges) + closure_errors(edges)
}

fn same_point(a: Point2, b: Point2) -> (r: bool)
    ensures
        r == (a == b),
{
    a.u == b.u && a.v == b.v
}

fn gap_between(first: &HalfEdge, second: &HalfEdge) -> (r: Option<(Point2, Point2)>)
    ensures
        r == junction_gap(*first, *second),
{
    match (first.end_position(), second.start_position()) {
        (Some(end), Some(start)) => if same_point(end, start) {
            None
        } else {
            Some((end, start))
        },
        _ => None,
    }
}

impl CycleValidationError {
    /// Check that each half-edge but the last ends where the next one
    /// starts, and report each junction where that is not so.
    pub fn check_half_edge_connections(cycle: &Cycle, errors: &mut Vec<ValidationError>)
        ensures
            error_models(final(errors)@) == error_models(old(errors)@) + adjacency_errors(cycle@),
    {
        let ghost before = error_models(errors@);
        let edges = cycle.half_edges();
        proof {
            assert(before + Seq::<ValidationErrorModel>::empty() =~= before);
        }
        if edges.len() == 0 {
            return ;
        }
        let mut k: usize = 0;
        while k + 1 < edges.len()
            invariant
                edges@ == cycle@,
                edges@.len() > 0,
                k + 1 <= edges@.len(),
                error_models(errors@) == before + adjacency_errors_upto(edges@, k as int),
            decreases edges.len() - k,
        {
            let ghost current = error_models(errors@);
            match gap_between(&edges[k], &edges[k + 1]) {
                None => {},
                Some((end, start)) => {
                    let error = ValidationError::Cycle(
                        CycleValidationError::AdjacentHalfEdgesNotConnected {
                            index: k,
                            end_position: end,
                            start_position: start,
                        },
                    );
                    errors.push(error);
                    proof {
                        assert(error_models(errors@) =~= current.push(error@));
                        assert(current.push(error@) =~= before + adjacency_errors_upto(
                            edges@,
                            k as int,
                        ).push(error@));
                    }
                },
            }
            k += 1;
        }
    }

    /// Check that the cycle closes: that its last half-edge ends where its
    /// first one starts.
    pub fn check_closed(cycle: &Cycle, errors: &mut Vec<ValidationError>)
        ensures
            error_models(final(errors)@) == error_models(old(errors)@) + closure_errors(cycle@),
    {
        let ghost before = error_models(errors@);
        let edges = cycle.half_edges();
        proof {
            assert(before + Seq::<ValidationErrorModel>::empty() =~= before);
        }
        if edges.len() == 0 {
            return ;
        }
        match gap_between(&edges[edges.len() - 1], &edges[0]) {
            None => {},
            Some((end, start)) => {
                let error = ValidationError::Cycle(
                    CycleValidationError::BoundaryNotClosed {
                        end_position: end,
                        start_position: start,
                    },
                );
                errors.push(error);
                proof {
                    assert(error_models(errors@) =~= before + seq![error@]);
                }
            },
        }
    }
}

impl Cycle {
    /// Validate the cycle, adding what is found to the errors.
    pub fn validate(&self, errors: &mut Vec<ValidationError>)
        ensures
            error_models(final(errors)@) == error_models(old(errors)@) + cycle_errors(self@),
    {
        let ghost before = error_models(errors@);
        CycleValidationError::check_half_edge_connections(self, errors);
        CycleValidationError::check_closed(self, errors);
        proof {
            assert((before + adjacency_errors(self@)) + closure_errors(self@) =~= before
                + cycle_errors(self@));
        }
    }

    /// Validate the cycle and return the first error, if there is one.
    pub fn validate_and_return_first_error(&self) -> (r: Result<(), ValidationError>)
        ensures
            r.is_ok() <==> cycle_errors(self@).len() == 0,
            r.is_err() ==> r.unwrap_err()@ == cycle_errors(self@)[0],
    {
        let mut errors: Vec<ValidationError> = Vec::new();
        self.validate(&mut errors);
        proof {
            assert(error_models(Seq::<ValidationError>::empty()) + cycle_errors(self@)
                =~= cycle_errors(self@));
        }
        if errors.len() == 0 {
            Ok(())
        } else {
            let first = errors.swap_remove(0);
            Err(first)
        }
    }
}

} // verus!
