//! Helpers for setting a simulation up.

use vstd::prelude::*;
use crate::engine::EngineCall;
use crate::scalar::{Scalar, Vect};

verus! {

/// Asks for the moment of inertia of a circle of the given mass between an
/// inner radius `r1` and an outer radius `r2`, centred on its body.
pub fn moment_of_circle(mass: Scalar, r1: Scalar, r2: Scalar) -> (call: EngineCall)
    ensures
        call == (EngineCall::MomentForCircle {
            mass,
            inner: r1,
            outer: r2,
            offset: Vect { x: Scalar { bits: 0 }, y: Scalar { bits: 0 } },
        }),
{
    EngineCall::MomentForCircle { mass, inner: r1, outer: r2, offset: Vect::zero() }
}

} // verus!
