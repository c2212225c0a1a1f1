//! Approximation of the half-edges of a cycle or a face, one after the
//! other.
//!
//! The first half-edge that cannot be approximated ends the request: there
//! is an approximation of all of them or of none.

use vstd::prelude::*;
use crate::algorithms::approx::cache::{CacheKey, CurveApproxCache};
use crate::algorithms::approx::curve::models;
use crate::algorithms::approx::engine::{
    approx_step, approx_with_cache, plan_curve, plan_of, ApproxError, CurvePlan, Samples,
};
use crate::algorithms::approx::segment::{CurveApproxSegment, SegmentModel};
use crate::algorithms::approx::tolerance::Tolerance;
use crate::geometry::surfaces::SurfaceGeom;
use crate::geometry::table::{Geometry, HalfEdgeGeom};
use crate::topology::cycle::Cycle;
use crate::topology::edge::HalfEdge;
use crate::topology::face::{Face, FaceModel};

verus! {

/// The geometry of a half-edge.
pub open spec fn geometry_of(edge: HalfEdge) -> HalfEdgeGeom {
    HalfEdgeGeom { path: edge.path, boundary: edge.boundary }
}

/// What approximating each of the half-edges takes, or the error of the
/// first of them that cannot be approximated.
pub open spec fn plans_of(edges: Seq<HalfEdge>, surface: SurfaceGeom, tolerance: Tolerance) -> Result<
    Seq<CurvePlan>,
    ApproxError,
>
    decreases edges.len(),
{
    if edges.len() == 0 {
        Ok(Seq::empty())
    } else {
        match plans_of(edges.drop_last(), surface, tolerance) {
            Err(e) => Err(e),
            Ok(plans) => match plan_of(
                edges.last().path,
                surface,
                edges.last().boundary,
                tolerance,
            ) {
                Err(e) => Err(e),
                Ok(plan) => Ok(plans.push(plan)),
            },
        }
    }
}

/// The samples for the half-edge at a place: those at the same place in
/// the list, and none where the list ends before.
pub open spec fn sample_at(samples: Seq<Samples>, index: int) -> Samples {
    if 0 <= index < samples.len() {
        samples[index]
    } else {
        Samples::Nothing
    }
}

/// What requests for the approximations of the half-edges give, made one
/// after the other with the same cache, and what the cache holds after
/// them.
///
/// The result is the approximations of all half-edges, in their order, or
/// the error of the first half-edge that cannot be approximated. No
/// request is made behind that one.
pub open spec fn approx_all(
    entries: Map<CacheKey, SegmentModel>,
    edges: Seq<HalfEdge>,
    surface: SurfaceGeom,
    tolerance: Tolerance,
    samples: Seq<Samples>,
) -> (Result<Seq<SegmentModel>, ApproxError>, Map<CacheKey, SegmentModel>)
    decreases edges.len(),
{
    if edges.len() == 0 {
        (Ok(Seq::empty()), entries)
    } else {
        let before = approx_all(entries, edges.drop_last(), surface, tolerance, samples);
        match before.0 {
            Err(e) => before,
            Ok(done) => {
                let step = approx_step(
                    before.1,
                    edges.last().curve.id(),
                    geometry_of(edges.last()),
                    surface,
                    tolerance,
                    sample_at(samples, edges.len() - 1),
                );
                match step.0 {
                    Err(e) => (Err(e), step.1),
                    Ok(approx) => (Ok(done.push(approx)), step.1),
                }
            },
        }
    }
}

/// Say what approximating each half-edge takes. The first half-edge that
/// cannot be approximated ends the answer with its error.
pub fn plan_half_edges(edges: &Vec<HalfEdge>, surface: &SurfaceGeom, tolerance: Tolerance) -> (r:
    Result<Vec<CurvePlan>, ApproxError>)
    ensures
        match plans_of(edges@, *surface, tolerance) {
            Ok(plans) => r.is_ok() && r.unwrap()@ == plans,
            Err(e) => r == Err::<Vec<CurvePlan>, ApproxError>(e),
        },
{
    let mut plans: Vec<CurvePlan> = Vec::new();
    let mut i: usize = 0;
    proof {
        assert(edges@.subrange(0, 0) =~= Seq::<HalfEdge>::empty());
    }
    while i < edges.len()
        invariant
            i <= edges.len(),
            plans_of(edges@.subrange(0, i as int), *surface, tolerance) == Ok::<
                Seq<CurvePlan>,
                ApproxError,
            >(plans@),
        decreases edges.len() - i,
    {
        proof {
            let next = edges@.subrange(0, i + 1);
            assert(next.drop_last() =~= edges@.subrange(0, i as int));
            assert(next.last() == edges@[i as int]);
        }
        match plan_curve(&edges[i].path, surface, edges[i].boundary, tolerance) {
            Err(e) => {
                proof {
                    lemma_plans_stay_failed(edges@, *surface, tolerance, i + 1);
                }
                return Err(e);
            },
            Ok(plan) => {
                plans.push(plan);
            },
        }
        i += 1;
    }
    proof {
        assert(edges@.subrange(0, edges@.len() as int) =~= edges@);
    }
    Ok(plans)
}

/// Once planning has failed for the half-edges up to one, it fails with
/// the same error for all of them.
proof fn lemma_plans_stay_failed(
    edges: Seq<HalfEdge>,
    surface: SurfaceGeom,
    tolerance: Tolerance,
    k: int,
)
    requires
        0 <= k <= edges.len(),
        plans_of(edges.subrange(0, k), surface, tolerance) is Err,
    ensures
        plans_of(edges, surface, tolerance) == plans_of(edges.subrange(0, k), surface, tolerance),
    decreases edges.len() - k,
{
    if k < edges.len() {
        let next = edges.subrange(0, k + 1);
        assert(next.drop_last() =~= edges.subrange(0, k));
        lemma_plans_stay_failed(edges, surface, tolerance, k + 1);
    } else {
        assert(edges.subrange(0, k) =~= edges);
    }
}

/// Once a request has failed for the half-edges up to one, the requests
/// for all of them give the same error and leave the same cache.
proof fn lemma_requests_stay_failed(
    entries: Map<CacheKey, SegmentModel>,
    edges: Seq<HalfEdge>,
    surface: SurfaceGeom,
    tolerance: Tolerance,
    samples: Seq<Samples>,
    k: int,
)
    requires
        0 <= k <= edges.len(),
        approx_all(entries, edges.subrange(0, k), surface, tolerance, samples).0 is Err,
    ensures
        approx_all(entries, edges, surface, tolerance, samples) == approx_all(
            entries,
            edges.subrange(0, k),
            surface,
            tolerance,
            samples,
        ),
    decreases edges.len() - k,
{
    if k < edges.len() {
        let next = edges.subrange(0, k + 1);
        assert(next.drop_last() =~= edges.subrange(0, k));
        lemma_requests_stay_failed(entries, edges, surface, tolerance, samples, k + 1);
    } else {
        assert(edges.subrange(0, k) =~= edges);
    }
}

/// Approximate the curves of half-edges within their boundaries, one after
/// the other, with one cache.
///
/// Each half-edge comes with the samples at its place in the list; they
/// are looked at only where the cache has no answer. The first half-edge
/// that cannot be approximated ends the request with its error. What was
/// stored in the cache before that stays there.
pub fn approx_half_edges(
    edges: &Vec<HalfEdge>,
    surface: &SurfaceGeom,
    tolerance: Tolerance,
    samples: &Vec<Samples>,
    cache: &mut CurveApproxCache,
) -> (r: Result<Vec<CurveApproxSegment>, ApproxError>)
    ensures
        final(cache)@ == approx_all(old(cache)@, edges@, *surface, tolerance, samples@).1,
        match approx_all(old(cache)@, edges@, *surface, tolerance, samples@).0 {
            Ok(approximations) => r.is_ok() && models(r.unwrap()@) == approximations,
            Err(e) => r == Err::<Vec<CurveApproxSegment>, ApproxError>(e),
        },
{
    let mut done: Vec<CurveApproxSegment> = Vec::new();
    let nothing = Samples::Nothing;
    let mut i: usize = 0;
    proof {
        assert(edges@.subrange(0, 0) =~= Seq::<HalfEdge>::empty());
        assert(models(done@) =~= Seq::<SegmentModel>::empty());
    }
    while i < edges.len()
        invariant
            i <= edges.len(),
            nothing == Samples::Nothing,
            approx_all(old(cache)@, edges@.subrange(0, i as int), *surface, tolerance, samples@)
                == (Ok::<Seq<SegmentModel>, ApproxError>(models(done@)), cache@),
        decreases edges.len() - i,
    {
        let edge = &edges[i];
        let geometry = HalfEdgeGeom { path: edge.path, boundary: edge.boundary };
        let ghost so_far = done@;
        proof {
            let next = edges@.subrange(0, i + 1);
            assert(next.drop_last() =~= edges@.subrange(0, i as int));
            assert(next.last() == edges@[i as int]);
            assert(geometry == geometry_of(edges@[i as int]));
        }
        let given = if i < samples.len() {
            &samples[i]
        } else {
            &nothing
        };
        match approx_with_cache(&edge.curve, &geometry, surface, tolerance, given, cache) {
            Err(e) => {
                proof {
                    lemma_requests_stay_failed(
                        old(cache)@,
                        edges@,
                        *surface,
                        tolerance,
                        samples@,
                        i + 1,
                    );
                }
                return Err(e);
            },
            Ok(approx) => {
                done.push(approx);
                proof {
                    assert(models(done@) =~= models(so_far).push(approx@));
                }
            },
        }
        i += 1;
    }
    proof {
        assert(edges@.subrange(0, edges@.len() as int) =~= edges@);
    }
    Ok(done)
}

impl Cycle {
    /// Approximate the half-edges of the cycle, one after the other.
    ///
    /// The first half-edge that cannot be approximated ends the request with
    /// its error.
    pub fn approx_with_cache(
        &self,
        surface: &SurfaceGeom,
        tolerance: Tolerance,
        samples: &Vec<Samples>,
        cache: &mut CurveApproxCache,
    ) -> (r: Result<Vec<CurveApproxSegment>, ApproxError>)
        ensures
            final(cache)@ == approx_all(old(cache)@, self@, *surface, tolerance, samples@).1,
            match approx_all(old(cache)@, self@, *surface, tolerance, samples@).0 {
                Ok(approximations) => r.is_ok() && models(r.unwrap()@) == approximations,
                Err(e) => r == Err::<Vec<CurveApproxSegment>, ApproxError>(e),
            },
    {
        approx_half_edges(self.half_edges(), surface, tolerance, samples, cache)
    }
}

/// The cycles of a face: the exterior cycle, then the interior cycles.
pub open spec fn cycles_of(face: FaceModel) -> Seq<Seq<HalfEdge>> {
    seq![face.exterior] + face.interiors
}

/// The samples of a vector of vectors, as values.
pub open spec fn sample_lists(samples: Seq<Vec<Samples>>) -> Seq<Seq<Samples>> {
    samples.map_values(|list: Vec<Samples>| list@)
}

/// The approximations of a vector of vectors, as values.
pub open spec fn approximation_lists(lists: Seq<Vec<CurveApproxSegment>>) -> Seq<Seq<SegmentModel>> {
    lists.map_values(|list: Vec<CurveApproxSegment>| models(list@))
}

/// The samples for the cycle at a place: the list at the same place, and
/// none where the lists end before.
pub open spec fn sample_list_at(samples: Seq<Seq<Samples>>, index: int) -> Seq<Samples> {
    if 0 <= index < samples.len() {
        samples[index]
    } else {
        Seq::empty()
    }
}

/// What requests for the approximations of cycles give, made one after
/// the other with the same cache, and what the cache holds after them.
///
/// The result is the approximations of the half-edges of every cycle, or
/// the error of the first half-edge that cannot be approximated. No
/// request is made behind that one.
pub open spec fn approx_cycles(
    entries: Map<CacheKey, SegmentModel>,
    cycles: Seq<Seq<HalfEdge>>,
    surface: SurfaceGeom,
    tolerance: Tolerance,
    samples: Seq<Seq<Samples>>,
) -> (Result<Seq<Seq<SegmentModel>>, ApproxError>, Map<CacheKey, SegmentModel>)
    decreases cycles.len(),
{
    if cycles.len() == 0 {
        (Ok(Seq::empty()), entries)
    } else {
        let before = approx_cycles(entries, cycles.drop_last(), surface, tolerance, samples);
        match before.0 {
            Err(e) => before,
            Ok(done) => {
                let step = approx_all(
                    before.1,
                    cycles.last(),
                    surface,
                    tolerance,
                    sample_list_at(samples, cycles.len() - 1),
                );
                match step.0 {
                    Err(e) => (Err(e), step.1),
                    Ok(approximations) => (Ok(done.push(approximations)), step.1),
                }
            },
        }
    }
}

/// Once a request has failed for the cycles up to one, the requests for
/// all of them give the same error and leave the same cache.
proof fn lemma_cycles_stay_failed(
    entries: Map<CacheKey, SegmentModel>,
    cycles: Seq<Seq<HalfEdge>>,
    surface: SurfaceGeom,
    tolerance: Tolerance,
    samples: Seq<Seq<Samples>>,
    k: int,
)
    requires
        0 <= k <= cycles.len(),
        approx_cycles(entries, cycles.subrange(0, k), surface, tolerance, samples).0 is Err,
    ensures
        approx_cycles(entries, cycles, surface, tolerance, samples) == approx_cycles(
            entries,
            cycles.subrange(0, k),
            surface,
            tolerance,
            samples,
        ),
    decreases cycles.len() - k,
{
    if k < cycles.len() {
        let next = cycles.subrange(0, k + 1);
        assert(next.drop_last() =~= cycles.subrange(0, k));
        lemma_cycles_stay_failed(entries, cycles, surface, tolerance, samples, k + 1);
    } else {
        assert(cycles.subrange(0, k) =~= cycles);
    }
}

impl Face {
    /// Approximate the half-edges of the face: those of its exterior cycle,
    /// then those of its interior cycles, on the surface of the face.
    ///
    /// Each cycle comes with the list of samples at its place, the exterior
    /// cycle first. The first half-edge that cannot be approximated ends the
    /// request with its error: there is no approximation of a part of a
    /// face.
    pub fn approx_with_cache(
        &self,
        tolerance: Tolerance,
        samples: &Vec<Vec<Samples>>,
        geometry: &Geometry,
        cache: &mut CurveApproxCache,
    ) -> (r: Result<Vec<Vec<CurveApproxSegment>>, ApproxError>)
        requires
            geometry.surfaces.has(self@.surface),
        ensures
            final(cache)@ == approx_cycles(
                old(cache)@,
                cycles_of(self@),
                geometry.surfaces.of(self@.surface),
                tolerance,
                sample_lists(samples@),
            ).1,
            match approx_cycles(
                old(cache)@,
                cycles_of(self@),
                geometry.surfaces.of(self@.surface),
                tolerance,
                sample_lists(samples@),
            ).0 {
                Ok(approximations) => r.is_ok() && approximation_lists(r.unwrap()@)
                    == approximations,
                Err(e) => r == Err::<Vec<Vec<CurveApproxSegment>>, ApproxError>(e),
            },
    {
        let surface = geometry.of_surface(self.surface());
        let ghost cycles = cycles_of(self@);
        let ghost given = sample_lists(samples@);
        let ghost start = cache@;
        let mut done: Vec<Vec<CurveApproxSegment>> = Vec::new();
        proof {
            assert(cycles.subrange(0, 0) =~= Seq::<Seq<HalfEdge>>::empty());
            assert(approximation_lists(done@) =~= Seq::<Seq<SegmentModel>>::empty());
        }
        let interiors = self.interiors();
        let none: Vec<Samples> = Vec::new();
        let mut started = false;
        let mut j: usize = 0;
        let ghost mut i: int = 0;
        while !started || j < interiors.len()
            invariant
                j <= interiors.len(),
                !started ==> j == 0,
                i == if started {
                    j + 1
                } else {
                    0
                },
                none@.len() == 0,
                cycles == cycles_of(self@),
                cycles.len() == interiors@.len() + 1,
                crate::topology::face::cycle_models(interiors@) == self@.interiors,
                given == sample_lists(samples@),
                start == old(cache)@,
                geometry.surfaces.has(self@.surface),
                *surface == geometry.surfaces.of(self@.surface),
                approx_cycles(start, cycles.subrange(0, i), *surface, tolerance, given) == (
                    Ok::<Seq<Seq<SegmentModel>>, ApproxError>(approximation_lists(done@)),
                    cache@,
                ),
            decreases interiors.len() + 1 - i,
        {
            let cycle = if !started {
                self.exterior()
            } else {
                &interiors[j]
            };
            let place: usize = if !started {
                0
            } else {
                j + 1
            };
            let ghost so_far = done@;
            proof {
                let next = cycles.subrange(0, i + 1);
                assert(next.drop_last() =~= cycles.subrange(0, i));
                assert(next.last() == cycles[i]);
                assert(cycle@ == cycles[i]);
            }
            let list = if place < samples.len() {
                &samples[place]
            } else {
                &none
            };
            proof {
                if i < samples@.len() {
                    assert(samples@[i]@ == given[i]);
                }
                assert(list@ == sample_list_at(given, i));
            }
            match approx_half_edges(cycle.half_edges(), surface, tolerance, list, cache) {
                Err(e) => {
                    proof {
                        lemma_cycles_stay_failed(start, cycles, *surface, tolerance, given, i + 1);
                    }
                    return Err(e);
                },
                Ok(approximations) => {
                    done.push(approximations);
                    proof {
                        assert(approximation_lists(done@) =~= approximation_lists(so_far).push(
                            models(approximations@),
                        ));
                    }
                },
            }
            if started {
                j += 1;
            } else {
                started = true;
            }
            proof {
                i = i + 1;
            }
        }
        proof {
            assert(cycles.subrange(0, cycles.len() as int) =~= cycles);
        }
        Ok(done)
    }
}

} // verus!
