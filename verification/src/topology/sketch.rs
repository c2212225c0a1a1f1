//! Sketches: two-dimensional shapes made of faces.

use vstd::prelude::*;
use crate::geometry::surfaces::Surface;
use crate::storage::Handle;
use crate::topology::face::{Face, FaceModel};
use crate::topology::objects::Objects;

verus! {

/// The faces of a vector, as values.
pub open spec fn face_models(faces: Seq<Face>) -> Seq<FaceModel> {
    faces.map_values(|f: Face| f@)
}

/// The faces with one more at their end, unless they hold it already.
pub open spec fn with_face(faces: Seq<FaceModel>, face: FaceModel) -> Seq<FaceModel> {
    if faces.contains(face) {
        faces
    } else {
        faces.push(face)
    }
}

/// The faces with more faces added one after the other, each unless the
/// faces hold it already.
pub open spec fn with_all(faces: Seq<FaceModel>, more: Seq<FaceModel>) -> Seq<FaceModel>
    decreases more.len(),
{
    if more.len() == 0 {
        faces
    } else {
        with_face(with_all(faces, more.drop_last()), more.last())
    }
}

/// What a sketch is built from: the stores that its objects go into and the
/// surface that its faces lie in.
pub struct SketchBuilder<'a> {
    pub objects: &'a Objects,
    pub surface: Handle<Surface>,
}

/// A 2-dimensional shape
///
/// The faces of a sketch are a set: no face is held twice. They are kept in
/// the order in which they were added. The faces that make up the sketch
/// are meant to lie in the same surface. Nothing checks that.
#[derive(Debug, PartialEq, Eq, Hash)]
pub struct Sketch {
    faces: Vec<Face>,
}

impl View for Sketch {
    type V = Seq<FaceModel>;

    closed spec fn view(&self) -> Seq<FaceModel> {
        face_models(self.faces@)
    }
}

impl Clone for Sketch {
    fn clone(&self) -> (s: Sketch)
        ensures
            s@ == self@,
    {
        proof {
            use_type_invariant(self);
        }
        let mut faces: Vec<Face> = Vec::new();
        let mut i: usize = 0;
        while i < self.faces.len()
            invariant
                i <= self.faces.len(),
                faces@.len() == i,
                forall|j: int| 0 <= j < i ==> (#[trigger] faces@[j])@ == self.faces@[j]@,
            decreases self.faces.len() - i,
        {
            faces.push(self.faces[i].duplicate());
            i += 1;
        }
        proof {
            assert(face_models(faces@) =~= face_models(self.faces@));
        }
        Sketch { faces }
    }
}

impl Default for Sketch {
    fn default() -> (s: Sketch)
        ensures
            s@ == Seq::<FaceModel>::empty(),
    {
        Sketch::new()
    }
}

impl Sketch {
    #[verifier::type_invariant]
    spec fn wf(&self) -> bool {
        face_models(self.faces@).no_duplicates()
    }

    /// Build a `Sketch` using [`SketchBuilder`]
    pub fn builder<'a>(objects: &'a Objects, surface: Handle<Surface>) -> (b: SketchBuilder<'a>)
        ensures
            b.objects == objects,
            b.surface == surface,
    {
        SketchBuilder { objects, surface }
    }

    /// Construct an empty instance of `Sketch`
    pub fn new() -> (s: Sketch)
        ensures
            s@ == Seq::<FaceModel>::empty(),
    {
        let faces: Vec<Face> = Vec::new();
        proof {
            assert(face_models(faces@) =~= Seq::<FaceModel>::empty());
        }
        let s = Sketch { faces };
        proof {
            assert(s@ =~= Seq::<FaceModel>::empty());
        }
        s
    }

    /// Whether the faces hold a face.
    fn holds(faces: &Vec<Face>, face: &Face) -> (b: bool)
        ensures
            b == face_models(faces@).contains(face@),
    {
        let mut i: usize = 0;
        while i < faces.len()
            invariant
                i <= faces.len(),
                forall|j: int| 0 <= j < i ==> face_models(faces@)[j] != face@,
            decreases faces.len() - i,
        {
            if faces[i].same_as(face) {
                proof {
                    assert(face_models(faces@)[i as int] == face@);
                }
                return true;
            }
            i += 1;
        }
        false
    }

    /// Add faces to the sketch
    ///
    /// Consumes the sketch and returns the updated instance, which holds
    /// the faces that it held, followed by those of the new ones that it
    /// did not hold, each once.
    pub fn with_faces(self, faces: Vec<Face>) -> (s: Sketch)
        ensures
            s@ == with_all(self@, face_models(faces@)),
            s@.no_duplicates(),
    {
        proof {
            use_type_invariant(&self);
        }
        let ghost before = self@;
        let ghost more = face_models(faces@);
        let mut all = self.faces;
        let mut i: usize = 0;
        proof {
            assert(more.subrange(0, 0) =~= Seq::<FaceModel>::empty());
        }
        while i < faces.len()
            invariant
                i <= faces.len(),
                more == face_models(faces@),
                face_models(all@).no_duplicates(),
                face_models(all@) == with_all(before, more.subrange(0, i as int)),
            decreases faces.len() - i,
        {
            let ghost held = all@;
            proof {
                let next = more.subrange(0, i + 1);
                assert(next.drop_last() =~= more.subrange(0, i as int));
                assert(next.last() == faces@[i as int]@);
            }
            if !Self::holds(&all, &faces[i]) {
                all.push(faces[i].duplicate());
                proof {
                    let models = face_models(all@);
                    assert(models =~= face_models(held).push(faces@[i as int]@));
                    assert forall|a: int, b: int|
                        0 <= a < models.len() && 0 <= b < models.len() && a != b implies models[a]
                        != models[b] by {
                        if a < held.len() {
                            assert(models[a] == face_models(held)[a]);
                            assert(face_models(held).contains(models[a]));
                        }
                        if b < held.len() {
                            assert(models[b] == face_models(held)[b]);
                            assert(face_models(held).contains(models[b]));
                        }
                    }
                }
            }
            i += 1;
        }
        proof {
            assert(more.subrange(0, more.len() as int) =~= more);
        }
        Sketch { faces: all }
    }

    /// Access the sketch's faces
    pub fn faces(&self) -> (r: &Vec<Face>)
        ensures
            face_models(r@) == self@,
            self@.no_duplicates(),
    {
        proof {
            use_type_invariant(self);
        }
        &self.faces
    }

    /// Convert the sketch into a list of faces
    pub fn into_faces(self) -> (r: Vec<Face>)
        ensures
            face_models(r@) == self@,
            self@.no_duplicates(),
    {
        proof {
            use_type_invariant(&self);
        }
        self.faces
    }
}

} // verus!
