//! The tolerance of an approximation.

use vstd::prelude::*;

verus! {

/// How far an approximation may be from what it approximates, at most.
///
/// A tolerance is a positive length.
#[derive(Clone, Copy, Debug, PartialEq, Eq, Hash)]
pub struct Tolerance {
    inner: i64,
}

/// The error of a tolerance that is not positive.
#[derive(Clone, Copy, Debug, PartialEq, Eq, Structural, Hash)]
pub struct InvalidTolerance {
    pub value: i64,
}

impl Tolerance {
    #[verifier::type_invariant]
    spec fn wf(&self) -> bool {
        self.inner > 0
    }

    /// The length that the tolerance is.
    pub closed spec fn value(&self) -> int {
        self.inner as int
    }

    /// Make a tolerance of a length, which must be positive.
    pub fn from_scalar(scalar: i64) -> (r: Result<Tolerance, InvalidTolerance>)
        ensures
            r.is_ok() <==> scalar > 0,
            r.is_ok() ==> r.unwrap().value() == scalar,
            r.is_err() ==> r.unwrap_err().value == scalar,
    {
        if scalar <= 0 {
            Err(InvalidTolerance { value: scalar })
        } else {
            Ok(Tolerance { inner: scalar })
        }
    }

    /// The length that the tolerance is.
    pub fn inner(&self) -> (x: i64)
        ensures
            x == self.value(),
            x > 0,
    {
        proof {
            use_type_invariant(self);
        }
        self.inner
    }
}

} // verus!
