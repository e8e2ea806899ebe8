//! The error taxonomy of the engine: recoverable, typed failures instead
//! of process aborts.

use vstd::prelude::*;
use crate::arbiter::ArbiterErrors;
use crate::body::BodyErrors;

verus! {

/// Failures of the math layer.  Inverting a matrix whose determinant is
/// zero is reported here instead of aborting the process.
#[derive(Debug, Clone, Copy, PartialEq, Eq)]
pub enum MathErrors {
    NoInverse,
}

impl MathErrors {
    /// A human-readable description of the failure.
    pub fn message(&self) -> (r: String)
        ensures
            r@ == "Can't invert Matrix with 0 determinant."@,
    {
        String::from_str("Can't invert Matrix with 0 determinant.")
    }
}

/// Every failure the engine can surface to its caller.
#[derive(Debug, Clone, Copy, PartialEq, Eq)]
pub enum Sylt2DErrors {
    MathOperations(MathErrors),
    Arbiter(ArbiterErrors),
    Body(BodyErrors),
}

impl Sylt2DErrors {
    /// A human-readable description of the failure.
    pub fn message(&self) -> (r: String)
        ensures
            *self == Sylt2DErrors::MathOperations(MathErrors::NoInverse) ==> r@
                == "In performing math operations the following error occured: Can't invert Matrix with 0 determinant."@,
            *self == Sylt2DErrors::Arbiter(ArbiterErrors::NoOldContactFound) ==> r@
                == "In updating and finding the contacts between objects the following error occured: No old contacts found."@,
            *self == Sylt2DErrors::Arbiter(ArbiterErrors::NoNewContactFound) ==> r@
                == "In updating and finding the contacts between objects the following error occured: No new contacts found."@,
            *self == Sylt2DErrors::Body(BodyErrors::NonPositiveMass) ==> r@
                == "In constructing a body the following error occured: A finite body needs a positive mass."@,
            *self == Sylt2DErrors::Body(BodyErrors::EmptyVertexList) ==> r@
                == "In constructing a body the following error occured: A polygon needs at least one vertex."@,
    {
        match self {
            Sylt2DErrors::MathOperations(MathErrors::NoInverse) => String::from_str(
                "In performing math operations the following error occured: Can't invert Matrix with 0 determinant.",
            ),
            Sylt2DErrors::Arbiter(ArbiterErrors::NoOldContactFound) => String::from_str(
                "In updating and finding the contacts between objects the following error occured: No old contacts found.",
            ),
            Sylt2DErrors::Arbiter(ArbiterErrors::NoNewContactFound) => String::from_str(
                "In updating and finding the contacts between objects the following error occured: No new contacts found.",
            ),
            Sylt2DErrors::Body(BodyErrors::NonPositiveMass) => String::from_str(
                "In constructing a body the following error occured: A finite body needs a positive mass.",
            ),
            Sylt2DErrors::Body(BodyErrors::EmptyVertexList) => String::from_str(
                "In constructing a body the following error occured: A polygon needs at least one vertex.",
            ),
        }
    }
}

impl From<MathErrors> for Sylt2DErrors {
    fn from(err: MathErrors) -> (r: Self) {
        Sylt2DErrors::MathOperations(err)
    }
}

impl vstd::std_specs::convert::FromSpecImpl<MathErrors> for Sylt2DErrors {
    open spec fn obeys_from_spec() -> bool {
        true
    }

    open spec fn from_spec(err: MathErrors) -> Self {
        Sylt2DErrors::MathOperations(err)
    }
}

impl From<BodyErrors> for Sylt2DErrors {
    fn from(err: BodyErrors) -> (r: Self) {
        Sylt2DErrors::Body(err)
    }
}

impl vstd::std_specs::convert::FromSpecImpl<BodyErrors> for Sylt2DErrors {
    open spec fn obeys_from_spec() -> bool {
        true
    }

    open spec fn from_spec(err: BodyErrors) -> Self {
        Sylt2DErrors::Body(err)
    }
}

impl From<ArbiterErrors> for Sylt2DErrors {
    fn from(value: ArbiterErrors) -> (r: Self) {
        Sylt2DErrors::Arbiter(value)
    }
}

impl vstd::std_specs::convert::FromSpecImpl<ArbiterErrors> for Sylt2DErrors {
    open spec fn obeys_from_spec() -> bool {
        true
    }

    open spec fn from_spec(value: ArbiterErrors) -> Self {
        Sylt2DErrors::Arbiter(value)
    }
}

} // verus!
