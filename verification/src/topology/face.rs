//! Faces: a surface bounded by an exterior cycle, with holes.

use vstd::prelude::*;
use crate::geometry::surfaces::Surface;
use crate::storage::Handle;
use crate::topology::cycle::Cycle;
use crate::topology::edge::HalfEdge;

verus! {

/// The color of a face, as red, green, blue and alpha.
#[derive(Clone, Copy, Debug, PartialEq, Eq, Structural, Hash)]
pub struct Color {
    pub r: u8,
    pub g: u8,
    pub b: u8,
    pub a: u8,
}

/// What a face is, as a value.
pub ghost struct FaceModel {
    pub surface: Handle<Surface>,
    pub exterior: Seq<HalfEdge>,
    pub interiors: Seq<Seq<HalfEdge>>,
    pub color: Option<Color>,
}

/// The cycles of a vector, as values.
pub open spec fn cycle_models(cycles: Seq<Cycle>) -> Seq<Seq<HalfEdge>> {
    cycles.map_values(|c: Cycle| c@)
}

/// Copy a vector of cycles.
pub fn duplicate_cycles(cycles: &Vec<Cycle>) -> (out: Vec<Cycle>)
    ensures
        cycle_models(out@) == cycle_models(cycles@),
{
    let mut out: Vec<Cycle> = Vec::new();
    let mut i: usize = 0;
    while i < cycles.len()
        invariant
            i <= cycles.len(),
            out@.len() == i,
            forall|j: int| 0 <= j < i ==> (#[trigger] out@[j])@ == cycles@[j]@,
        decreases cycles.len() - i,
    {
        out.push(cycles[i].duplicate());
        i += 1;
    }
    proof {
        assert(cycle_models(out@) =~= cycle_models(cycles@));
    }
    out
}

/// A face of a shape: the part of a surface within an exterior cycle, less
/// what its interior cycles cut out.
#[derive(Clone, Debug, PartialEq, Eq, Hash)]
pub struct Face {
    surface: Handle<Surface>,
    exterior: Cycle,
    interiors: Vec<Cycle>,
    color: Option<Color>,
}

impl View for Face {
    type V = FaceModel;

    closed spec fn view(&self) -> FaceModel {
        FaceModel {
            surface: self.surface,
            exterior: self.exterior@,
            interiors: cycle_models(self.interiors@),
            color: self.color,
        }
    }
}

impl Face {
    /// Construct a face
    pub fn new(
        surface: Handle<Surface>,
        exterior: Cycle,
        interiors: Vec<Cycle>,
        color: Option<Color>,
    ) -> (f: Face)
        ensures
            f@ == (FaceModel {
                surface,
                exterior: exterior@,
                interiors: cycle_models(interiors@),
                color,
            }),
    {
        Face { surface, exterior, interiors, color }
    }

    /// Access the surface of the face
    pub fn surface(&self) -> (r: &Handle<Surface>)
        ensures
            *r == self@.surface,
    {
        &self.surface
    }

    /// Access the cycle that bounds the face on the outside
    pub fn exterior(&self) -> (r: &Cycle)
        ensures
            r@ == self@.exterior,
    {
        &self.exterior
    }

    /// Access the cycles that bound the face on the inside
    pub fn interiors(&self) -> (r: &Vec<Cycle>)
        ensures
            cycle_models(r@) == self@.interiors,
    {
        &self.interiors
    }

    /// Access the color of the face
    pub fn color(&self) -> (r: Option<Color>)
        ensures
            r == self@.color,
    {
        self.color
    }

    /// Whether both are the same face: on the same surface, within the
    /// same cycles, of the same color.
    pub fn same_as(&self, other: &Face) -> (b: bool)
        ensures
            b == (self@ == other@),
    {
        let same_color = match (self.color, other.color) {
            (None, None) => true,
            (Some(a), Some(b)) => a == b,
            _ => false,
        };
        if !same_color || !self.surface.same_as(&other.surface) || !self.exterior.same_as(
            &other.exterior,
        ) {
            return false;
        }
        if self.interiors.len() != other.interiors.len() {
            proof {
                assert(cycle_models(self.interiors@).len() != cycle_models(
                    other.interiors@,
                ).len());
            }
            return false;
        }
        let mut i: usize = 0;
        while i < self.interiors.len()
            invariant
                i <= self.interiors.len(),
                self.interiors.len() == other.interiors.len(),
                forall|j: int| 0 <= j < i ==> self.interiors@[j]@ == other.interiors@[j]@,
            decreases self.interiors.len() - i,
        {
            if !self.interiors[i].same_as(&other.interiors[i]) {
                proof {
                    assert(cycle_models(self.interiors@)[i as int] != cycle_models(
                        other.interiors@,
                    )[i as int]);
                }
                return false;
            }
            i += 1;
        }
        proof {
            assert(cycle_models(self.interiors@) =~= cycle_models(other.interiors@));
        }
        true
    }

    /// A copy of the face.
    pub fn duplicate(&self) -> (f: Face)
        ensures
            f@ == self@,
    {
        Face {
            surface: self.surface.clone(),
            exterior: self.exterior.duplicate(),
            interiors: duplicate_cycles(&self.interiors),
            color: self.color,
        }
    }
}

} // verus!
