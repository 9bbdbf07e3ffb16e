//! The engine's entry points, as values.
//!
//! The handle layer never touches an engine record itself. Each operation
//! yields the calls that the caller is to make on the engine, in order;
//! records are named by the index under which the layer keeps them.

use vstd::prelude::*;
use crate::scalar::{Scalar, Vect};

verus! {

/// How the engine moves a body.
#[derive(Clone, Copy, Debug, PartialEq, Eq, Structural)]
pub enum BodyKind {
    /// Moved by forces, gravity and collisions.
    Dynamic,
    /// Moved only by the velocity that the application gives it.
    Kinematic,
    /// Never moved.
    Static,
}

/// The scalar attributes of a body.
#[derive(Clone, Copy, Debug, PartialEq, Eq, Structural)]
pub enum BodyScalar {
    /// Rotation, in radians.
    Angle,
    /// Rotation speed, in radians per second.
    AngularVelocity,
    Mass,
    /// Moment of inertia.
    Moment,
    Torque,
}

/// The vector attributes of a body.
#[derive(Clone, Copy, Debug, PartialEq, Eq, Structural)]
pub enum BodyVect {
    /// Centre of gravity, in the body's own coordinates.
    CenterOfGravity,
    Force,
    /// Position, in world coordinates.
    Position,
    Velocity,
}

/// The scalar attributes of a shape.
#[derive(Clone, Copy, Debug, PartialEq, Eq, Structural)]
pub enum ShapeScalar {
    Density,
    Elasticity,
    Friction,
    Mass,
}

/// The scalar tunables of a space.
#[derive(Clone, Copy, Debug, PartialEq, Eq, Structural)]
pub enum SpaceScalar {
    /// Fraction of its velocity that a body keeps per second.
    Damping,
    /// Overlap that is tolerated between shapes in contact.
    CollisionSlop,
    /// Fraction of an overlap that remains after one second.
    CollisionBias,
    /// Speed under which a body counts as idle.
    IdleSpeedThreshold,
    /// Time after which a group of idle bodies falls asleep.
    SleepTimeThreshold,
}

/// One call on the engine.
#[allow(inconsistent_fields)]
#[derive(Clone, Debug, PartialEq, Eq)]
pub enum EngineCall {
    /// Initialise a body record with a mass and a moment of inertia.
    BodyInit { body: usize, mass: Scalar, moment: Scalar },
    /// Change the kind of a body.
    BodySetType { body: usize, kind: BodyKind },
    /// Tear a body record down.
    BodyDestroy { body: usize },
    BodyGetScalar { body: usize, attr: BodyScalar },
    BodySetScalar { body: usize, attr: BodyScalar, value: Scalar },
    BodyGetVect { body: usize, attr: BodyVect },
    BodySetVect { body: usize, attr: BodyVect, value: Vect },
    /// Initialise a circle on a body.
    CircleShapeInit { shape: usize, body: usize, radius: Scalar, offset: Vect },
    /// Initialise a segment between two points on a body.
    SegmentShapeInit { shape: usize, body: usize, a: Vect, b: Vect, radius: Scalar },
    /// Initialise a convex polygon from its vertices, in order.
    PolyShapeInit { shape: usize, body: usize, verts: Vec<Vect>, radius: Scalar },
    /// Initialise a centred box as a polygon.
    BoxShapeInit { shape: usize, body: usize, width: Scalar, height: Scalar, radius: Scalar },
    /// Tear a shape record down.
    ShapeDestroy { shape: usize },
    ShapeGetScalar { shape: usize, attr: ShapeScalar },
    ShapeSetScalar { shape: usize, attr: ShapeScalar, value: Scalar },
    ShapeGetSensor { shape: usize },
    ShapeSetSensor { shape: usize, flag: u8 },
    ShapeGetSurfaceVelocity { shape: usize },
    ShapeSetSurfaceVelocity { shape: usize, value: Vect },
    PolyShapeGetCount { shape: usize },
    PolyShapeGetRadius { shape: usize },
    PolyShapeGetVert { shape: usize, index: i32 },
    CircleShapeGetOffset { shape: usize },
    CircleShapeGetRadius { shape: usize },
    SegmentShapeGetA { shape: usize },
    SegmentShapeGetB { shape: usize },
    SegmentShapeGetNormal { shape: usize },
    SegmentShapeGetRadius { shape: usize },
    /// Initialise a space record; the engine sets every tunable to its default.
    SpaceInit { space: usize },
    /// Let a body take part in the simulation of a space.
    SpaceAddBody { space: usize, body: usize },
    /// Let a shape take part in the collisions of a space.
    SpaceAddShape { space: usize, shape: usize },
    /// Advance a space by an interval of time.
    SpaceStep { space: usize, interval: Scalar },
    /// Tear a space record down.
    SpaceDestroy { space: usize },
    SpaceGetGravity { space: usize },
    SpaceSetGravity { space: usize, value: Vect },
    SpaceGetScalar { space: usize, attr: SpaceScalar },
    SpaceSetScalar { space: usize, attr: SpaceScalar, value: Scalar },
    SpaceGetCollisionPersistence { space: usize },
    SpaceSetCollisionPersistence { space: usize, value: u32 },
    SpaceGetIterations { space: usize },
    SpaceSetIterations { space: usize, value: i32 },
    /// Ask for the moment of inertia of a hollow circle.
    MomentForCircle { mass: Scalar, inner: Scalar, outer: Scalar, offset: Vect },
    /// The calls below are on the contact pair that the engine is showing.
    ArbiterGetContactPointSet,
    ArbiterGetCount,
    ArbiterGetDepth { index: i32 },
    ArbiterGetNormal,
    ArbiterGetPointA { index: i32 },
    ArbiterGetPointB { index: i32 },
    ArbiterGetFriction,
    ArbiterGetRestitution,
    ArbiterGetSurfaceVelocity,
    ArbiterSetFriction { value: Scalar },
    ArbiterSetRestitution { value: Scalar },
    ArbiterSetSurfaceVelocity { value: Vect },
}

impl EngineCall {
    /// The body record that the call names, if it names one.
    pub open spec fn named_body(self) -> Option<usize> {
        match self {
            EngineCall::BodyInit { body, .. } => Some(body),
            EngineCall::BodySetType { body, .. } => Some(body),
            EngineCall::BodyDestroy { body, .. } => Some(body),
            EngineCall::BodyGetScalar { body, .. } => Some(body),
            EngineCall::BodySetScalar { body, .. } => Some(body),
            EngineCall::BodyGetVect { body, .. } => Some(body),
            EngineCall::BodySetVect { body, .. } => Some(body),
            EngineCall::CircleShapeInit { body, .. } => Some(body),
            EngineCall::SegmentShapeInit { body, .. } => Some(body),
            EngineCall::PolyShapeInit { body, .. } => Some(body),
            EngineCall::BoxShapeInit { body, .. } => Some(body),
            EngineCall::SpaceAddBody { body, .. } => Some(body),
            _ => None,
        }
    }

    /// The shape record that the call names, if it names one.
    pub open spec fn named_shape(self) -> Option<usize> {
        match self {
            EngineCall::CircleShapeInit { shape, .. } => Some(shape),
            EngineCall::SegmentShapeInit { shape, .. } => Some(shape),
            EngineCall::PolyShapeInit { shape, .. } => Some(shape),
            EngineCall::BoxShapeInit { shape, .. } => Some(shape),
            EngineCall::ShapeDestroy { shape, .. } => Some(shape),
            EngineCall::ShapeGetScalar { shape, .. } => Some(shape),
            EngineCall::ShapeSetScalar { shape, .. } => Some(shape),
            EngineCall::ShapeGetSensor { shape, .. } => Some(shape),
            EngineCall::ShapeSetSensor { shape, .. } => Some(shape),
            EngineCall::ShapeGetSurfaceVelocity { shape, .. } => Some(shape),
            EngineCall::ShapeSetSurfaceVelocity { shape, .. } => Some(shape),
            EngineCall::PolyShapeGetCount { shape, .. } => Some(shape),
            EngineCall::PolyShapeGetRadius { shape, .. } => Some(shape),
            EngineCall::PolyShapeGetVert { shape, .. } => Some(shape),
            EngineCall::CircleShapeGetOffset { shape, .. } => Some(shape),
            EngineCall::CircleShapeGetRadius { shape, .. } => Some(shape),
            EngineCall::SegmentShapeGetA { shape, .. } => Some(shape),
            EngineCall::SegmentShapeGetB { shape, .. } => Some(shape),
            EngineCall::SegmentShapeGetNormal { shape, .. } => Some(shape),
            EngineCall::SegmentShapeGetRadius { shape, .. } => Some(shape),
            EngineCall::SpaceAddShape { shape, .. } => Some(shape),
            _ => None,
        }
    }

    /// The space record that the call names, if it names one.
    pub open spec fn named_space(self) -> Option<usize> {
        match self {
            EngineCall::SpaceInit { space, .. } => Some(space),
            EngineCall::SpaceAddBody { space, .. } => Some(space),
            EngineCall::SpaceAddShape { space, .. } => Some(space),
            EngineCall::SpaceStep { space, .. } => Some(space),
            EngineCall::SpaceDestroy { space, .. } => Some(space),
            EngineCall::SpaceGetGravity { space, .. } => Some(space),
            EngineCall::SpaceSetGravity { space, .. } => Some(space),
            EngineCall::SpaceGetScalar { space, .. } => Some(space),
            EngineCall::SpaceSetScalar { space, .. } => Some(space),
            EngineCall::SpaceGetCollisionPersistence { space, .. } => Some(space),
            EngineCall::SpaceSetCollisionPersistence { space, .. } => Some(space),
            EngineCall::SpaceGetIterations { space, .. } => Some(space),
            EngineCall::SpaceSetIterations { space, .. } => Some(space),
            _ => None,
        }
    }
}

} // verus!
