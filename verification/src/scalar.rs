//! Numbers as the engine exchanges them.

use vstd::prelude::*;

verus! {

/// A 64-bit IEEE-754 number, carried as its bit pattern.
///
/// The handle layer passes numbers through uninterpreted: it never rounds,
/// validates or computes with them, so two scalars are equal exactly when
/// their bits are.
#[derive(Clone, Copy, Debug, PartialEq, Eq, Structural)]
pub struct Scalar {
    pub bits: u64,
}

impl Scalar {
    /// The scalar with the given bit pattern.
    pub fn from_bits(bits: u64) -> (r: Scalar)
        ensures
            r.bits == bits,
    {
        Scalar { bits }
    }

    /// The bit pattern of this scalar.
    pub fn to_bits(&self) -> (r: u64)
        ensures
            r == self.bits,
    {
        self.bits
    }

    /// Positive zero, whose bit pattern is all zeroes.
    pub fn zero() -> (r: Scalar)
        ensures
            r.bits == 0,
    {
        Scalar { bits: 0 }
    }
}

/// A pair of scalars: a point, an offset or a velocity in the plane.
#[derive(Clone, Copy, Debug, PartialEq, Eq, Structural)]
pub struct Vect {
    pub x: Scalar,
    pub y: Scalar,
}

impl Vect {
    /// The vector with the given components.
    pub fn new(x: Scalar, y: Scalar) -> (r: Vect)
        ensures
            r.x == x,
            r.y == y,
    {
        Vect { x, y }
    }

    /// The vector whose components are both positive zero.
    pub fn zero() -> (r: Vect)
        ensures
            r.x.bits == 0,
            r.y.bits == 0,
    {
        Vect { x: Scalar { bits: 0 }, y: Scalar { bits: 0 } }
    }
}

} // verus!
