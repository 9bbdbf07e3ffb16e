//! The view of a contact pair.
//!
//! While it advances a space, the engine shows each pair of shapes in
//! contact to the application. The view lasts as long as the engine shows
//! the pair; what is changed through it holds for the step under way.

use vstd::prelude::*;
use crate::engine::EngineCall;
use crate::scalar::{Scalar, Vect};

verus! {

/// The most points of contact that a pair can have.
pub const MAX_CONTACTS: u32 = 2;

/// One point of contact.
#[derive(Clone, Copy, Debug, PartialEq, Eq)]
pub struct ContactPoint {
    /// The point on the surface of the first shape.
    pub a: Vect,
    /// The point on the surface of the second shape.
    pub b: Vect,
    /// How far the shapes overlap at this point.
    pub dist: Scalar,
}

/// The points of contact of a pair.
#[derive(Clone, Copy, Debug, PartialEq, Eq)]
pub struct ContactPointSet {
    /// How many of the points are in use: none, one or both.
    pub count: u32,
    /// The normal of the contact, shared by the points.
    pub normal: Vect,
    /// The points; those from `count` on mean nothing.
    pub points: [ContactPoint; 2],
}

impl ContactPointSet {
    /// Takes the points of contact over from the engine, which counts them
    /// in a signed number. A count that no pair can have is refused.
    pub fn from_engine(count: i32, normal: Vect, points: [ContactPoint; 2]) -> (r: Option<ContactPointSet>)
        ensures
            r == if 0 <= count <= MAX_CONTACTS {
                Some(ContactPointSet { count: count as u32, normal, points })
            } else {
                None::<ContactPointSet>
            },
    {
        if 0 <= count && count <= 2 {
            Some(ContactPointSet { count: count as u32, normal, points })
        } else {
            None
        }
    }
}

/// The view of the contact pair that the engine is showing.
pub struct Arbiter {
    count: u32,
}

impl Arbiter {
    /// The number of points of contact of the pair.
    pub closed spec fn points(&self) -> u32 {
        self.count
    }

    /// Every view has a count that a pair can have.
    #[verifier::type_invariant]
    closed spec fn bounded(&self) -> bool {
        self.count <= MAX_CONTACTS
    }

    /// Makes the view of a pair from the number of its points of contact,
    /// as the engine counts them. A count that no pair can have is refused.
    pub fn from_engine(count: i32) -> (r: Option<Arbiter>)
        ensures
            r is Some <==> 0 <= count <= MAX_CONTACTS,
            r is Some ==> r->0.points() == count,
    {
        if 0 <= count && count <= 2 {
            Some(Arbiter { count: count as u32 })
        } else {
            None
        }
    }

    /// The number of points of contact: none, one or two.
    pub fn count(&self) -> (r: u32)
        ensures
            r == self.points(),
            r <= MAX_CONTACTS,
    {
        proof {
            use_type_invariant(self);
        }
        self.count
    }

    /// Asks for the points of contact. `ContactPointSet::from_engine` reads
    /// the answer.
    pub fn contact_point_set(&self) -> (call: EngineCall)
        ensures
            call == EngineCall::ArbiterGetContactPointSet,
    {
        EngineCall::ArbiterGetContactPointSet
    }

    /// Reads the answer of the engine to `contact_point_set`. An answer
    /// whose count is not that of the pair is refused.
    pub fn read_contact_point_set(&self, count: i32, normal: Vect, points: [ContactPoint; 2]) -> (r: Option<
        ContactPointSet,
    >)
        ensures
            r == if count == self.points() {
                Some(ContactPointSet { count: self.points(), normal, points })
            } else {
                None::<ContactPointSet>
            },
    {
        proof {
            use_type_invariant(self);
        }
        if 0 <= count && count <= 2 && count as u32 == self.count {
            Some(ContactPointSet { count: self.count, normal, points })
        } else {
            None
        }
    }

    /// Asks how far the shapes overlap at point `i`.
    pub fn depth(&self, i: u32) -> (call: EngineCall)
        requires
            i < self.points(),
        ensures
            call == (EngineCall::ArbiterGetDepth { index: i as i32 }),
    {
        proof {
            use_type_invariant(self);
        }
        EngineCall::ArbiterGetDepth { index: i as i32 }
    }

    /// Asks for point `i` on the surface of the first shape.
    pub fn point_a(&self, i: u32) -> (call: EngineCall)
        requires
            i < self.points(),
        ensures
            call == (EngineCall::ArbiterGetPointA { index: i as i32 }),
    {
        proof {
            use_type_invariant(self);
        }
        EngineCall::ArbiterGetPointA { index: i as i32 }
    }

    /// Asks for point `i` on the surface of the second shape.
    pub fn point_b(&self, i: u32) -> (call: EngineCall)
        requires
            i < self.points(),
        ensures
            call == (EngineCall::ArbiterGetPointB { index: i as i32 }),
    {
        proof {
            use_type_invariant(self);
        }
        EngineCall::ArbiterGetPointB { index: i as i32 }
    }

    /// Asks for the normal of the contact.
    pub fn normal(&self) -> (call: EngineCall)
        ensures
            call == EngineCall::ArbiterGetNormal,
    {
        EngineCall::ArbiterGetNormal
    }

    /// Asks for the friction of the pair, as combined from its two shapes.
    pub fn friction(&self) -> (call: EngineCall)
        ensures
            call == EngineCall::ArbiterGetFriction,
    {
        EngineCall::ArbiterGetFriction
    }

    /// Asks for the restitution of the pair, as combined from its two shapes.
    pub fn restitution(&self) -> (call: EngineCall)
        ensures
            call == EngineCall::ArbiterGetRestitution,
    {
        EngineCall::ArbiterGetRestitution
    }

    /// Asks for the surface velocity of the pair.
    pub fn surface_velocity(&self) -> (call: EngineCall)
        ensures
            call == EngineCall::ArbiterGetSurfaceVelocity,
    {
        EngineCall::ArbiterGetSurfaceVelocity
    }

    /// Puts `friction` in place of the combined friction of the pair, for
    /// the step under way.
    pub fn set_friction(&mut self, friction: Scalar) -> (call: EngineCall)
        ensures
            final(self).points() == old(self).points(),
            call == (EngineCall::ArbiterSetFriction { value: friction }),
    {
        EngineCall::ArbiterSetFriction { value: friction }
    }

    /// Puts `restitution` in place of the combined restitution of the pair,
    /// for the step under way.
    pub fn set_restitution(&mut self, restitution: Scalar) -> (call: EngineCall)
        ensures
            final(self).points() == old(self).points(),
            call == (EngineCall::ArbiterSetRestitution { value: restitution }),
    {
        EngineCall::ArbiterSetRestitution { value: restitution }
    }

    /// Puts `(vx, vy)` in place of the surface velocity of the pair, for the
    /// step under way.
    pub fn set_surface_velocity(&mut self, vx: Scalar, vy: Scalar) -> (call: EngineCall)
        ensures
            final(self).points() == old(self).points(),
            call == (EngineCall::ArbiterSetSurfaceVelocity { value: Vect { x: vx, y: vy } }),
    {
        EngineCall::ArbiterSetSurfaceVelocity { value: Vect { x: vx, y: vy } }
    }
}

} // verus!
