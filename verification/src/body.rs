//! Handles on body records.

use vstd::prelude::*;
use crate::engine::{BodyKind, BodyScalar, BodyVect, EngineCall};
use crate::scalar::{Scalar, Vect};
use crate::user_data::{Slot, TypeTag, UserData};
use crate::world::{
    body_attached, body_held, body_registered, settled_body, shape_held, BodyRecord, World,
};

verus! {

/// A handle on one body record.
///
/// Any number of handles may alias one record; the record is torn down when
/// the last of them is released and neither a shape nor a space keeps it
/// alive. A handle is neither copied nor cloned: `duplicate` makes another.
pub struct Body {
    record: usize,
}

impl Body {
    /// The index of the record that this handle aliases.
    pub closed spec fn index(&self) -> usize {
        self.record
    }

    /// The handle is one of those counted on a record of `world`.
    pub open spec fn held_in<V>(&self, world: &World<V>) -> bool {
        self.index() < world.bodies@.len() && world.bodies@[self.index() as int].handles > 0
    }

    /// The record of a body that was just made, with its first handle.
    pub open spec fn fresh_record<V>(kind: BodyKind) -> BodyRecord<V> {
        BodyRecord { handles: 1, live: true, kind, slot: Slot { held: None } }
    }

    fn create<V>(world: &mut World<V>, kind: BodyKind) -> (r: Body)
        requires
            old(world).wf(),
        ensures
            final(world).wf(),
            r.index() == old(world).bodies@.len(),
            r.held_in(final(world)),
            final(world).bodies@ == old(world).bodies@.push(Self::fresh_record(kind)),
            final(world).shapes@ == old(world).shapes@,
            final(world).spaces@ == old(world).spaces@,
    {
        let record = world.bodies.len();
        world.bodies.push(BodyRecord { handles: 1, live: true, kind, slot: Slot::empty() });
        proof {
            assert forall|b: int| 0 <= b < world.bodies@.len() implies (body_held(
                world.bodies@,
                world.shapes@,
                world.spaces@,
                b,
            ) <==> (#[trigger] world.bodies@[b]).live) by {
                if b < old(world).bodies@.len() {
                    assert(world.bodies@[b] == old(world).bodies@[b]);
                    assert(body_held(world.bodies@, world.shapes@, world.spaces@, b) == body_held(
                        old(world).bodies@,
                        old(world).shapes@,
                        old(world).spaces@,
                        b,
                    ));
                }
            }
        }
        Body { record }
    }

    /// Makes a dynamic body with the given mass and moment of inertia, and
    /// the first handle on it. Both numbers go to the engine as they are.
    pub fn new<V>(world: &mut World<V>, mass: Scalar, moment: Scalar) -> (r: (Body, Vec<EngineCall>))
        requires
            old(world).wf(),
        ensures
            forall|i: int| 0 <= i < r.1@.len() ==> final(world).serves(#[trigger] r.1@[i]),
            final(world).wf(),
            r.0.index() == old(world).bodies@.len(),
            r.0.held_in(final(world)),
            final(world).bodies@ == old(world).bodies@.push(Self::fresh_record(BodyKind::Dynamic)),
            final(world).shapes@ == old(world).shapes@,
            final(world).spaces@ == old(world).spaces@,
            r.1@ == seq![EngineCall::BodyInit { body: r.0.index(), mass, moment }],
    {
        let body = Self::create(world, BodyKind::Dynamic);
        let mut calls: Vec<EngineCall> = Vec::new();
        calls.push(EngineCall::BodyInit { body: body.record, mass, moment });
        assert(calls@ =~= seq![EngineCall::BodyInit { body: body.index(), mass, moment }]);
        (body, calls)
    }

    /// The calls that make a body of a kind that has no mass of its own:
    /// it is initialised with zero mass and zero moment, then given its kind.
    pub open spec fn massless_calls(body: usize, kind: BodyKind) -> Seq<EngineCall> {
        seq![
            EngineCall::BodyInit { body, mass: Scalar { bits: 0 }, moment: Scalar { bits: 0 } },
            EngineCall::BodySetType { body, kind },
        ]
    }

    fn new_massless<V>(world: &mut World<V>, kind: BodyKind) -> (r: (Body, Vec<EngineCall>))
        requires
            old(world).wf(),
        ensures
            final(world).wf(),
            r.0.index() == old(world).bodies@.len(),
            r.0.held_in(final(world)),
            final(world).bodies@ == old(world).bodies@.push(Self::fresh_record(kind)),
            final(world).shapes@ == old(world).shapes@,
            final(world).spaces@ == old(world).spaces@,
            r.1@ == Self::massless_calls(r.0.index(), kind),
    {
        let body = Self::create(world, kind);
        let mut calls: Vec<EngineCall> = Vec::new();
        calls.push(EngineCall::BodyInit { body: body.record, mass: Scalar::zero(), moment: Scalar::zero() });
        calls.push(EngineCall::BodySetType { body: body.record, kind });
        assert(calls@ =~= Self::massless_calls(body.index(), kind));
        (body, calls)
    }

    /// Makes a kinematic body, and the first handle on it.
    pub fn new_kinematic<V>(world: &mut World<V>) -> (r: (Body, Vec<EngineCall>))
        requires
            old(world).wf(),
        ensures
            forall|i: int| 0 <= i < r.1@.len() ==> final(world).serves(#[trigger] r.1@[i]),
            final(world).wf(),
            r.0.index() == old(world).bodies@.len(),
            r.0.held_in(final(world)),
            final(world).bodies@ == old(world).bodies@.push(Self::fresh_record(BodyKind::Kinematic)),
            final(world).shapes@ == old(world).shapes@,
            final(world).spaces@ == old(world).spaces@,
            r.1@ == Self::massless_calls(r.0.index(), BodyKind::Kinematic),
    {
        Self::new_massless(world, BodyKind::Kinematic)
    }

    /// Makes a static body, and the first handle on it.
    pub fn new_static<V>(world: &mut World<V>) -> (r: (Body, Vec<EngineCall>))
        requires
            old(world).wf(),
        ensures
            forall|i: int| 0 <= i < r.1@.len() ==> final(world).serves(#[trigger] r.1@[i]),
            final(world).wf(),
            r.0.index() == old(world).bodies@.len(),
            r.0.held_in(final(world)),
            final(world).bodies@ == old(world).bodies@.push(Self::fresh_record(BodyKind::Static)),
            final(world).shapes@ == old(world).shapes@,
            final(world).spaces@ == old(world).spaces@,
            r.1@ == Self::massless_calls(r.0.index(), BodyKind::Static),
    {
        Self::new_massless(world, BodyKind::Static)
    }

    /// The index under which the engine record of this body is kept.
    pub fn get_cp_body(&self) -> (r: usize)
        ensures
            r == self.index(),
    {
        self.record
    }

    /// Whether this handle is counted on a record of `world`.
    pub fn is_held_in<V>(&self, world: &World<V>) -> (r: bool)
        ensures
            r == self.held_in(world),
    {
        self.record < world.bodies.len() && world.bodies[self.record].handles > 0
    }

    /// Whether another handle can still be counted on the record.
    pub fn can_duplicate<V>(&self, world: &World<V>) -> (r: bool)
        requires
            self.held_in(world),
        ensures
            r == (world.bodies@[self.index() as int].handles < usize::MAX),
    {
        world.bodies[self.record].handles < usize::MAX
    }

    /// Makes another handle on the same record.
    pub fn duplicate<V>(&self, world: &mut World<V>) -> (r: Body)
        requires
            old(world).wf(),
            self.held_in(old(world)),
            old(world).bodies@[self.index() as int].handles < usize::MAX,
        ensures
            final(world).wf(),
            r.index() == self.index(),
            r.held_in(final(world)),
            self.held_in(final(world)),
            final(world).bodies@ == old(world).bodies@.update(
                self.index() as int,
                (BodyRecord {
                    handles: (old(world).bodies@[self.index() as int].handles + 1) as usize,
                    ..old(world).bodies@[self.index() as int]
                }),
            ),
            final(world).shapes@ == old(world).shapes@,
            final(world).spaces@ == old(world).spaces@,
    {
        let record = self.record;
        world.bodies[record].handles = world.bodies[record].handles + 1;
        proof {
            assert(world.bodies@ =~= old(world).bodies@.update(
                self.index() as int,
                (BodyRecord {
                    handles: (old(world).bodies@[self.index() as int].handles + 1) as usize,
                    ..old(world).bodies@[self.index() as int]
                }),
            ));
            assert forall|b: int| 0 <= b < world.bodies@.len() implies (body_held(
                world.bodies@,
                world.shapes@,
                world.spaces@,
                b,
            ) <==> (#[trigger] world.bodies@[b]).live) by {
                assert(old(world).bodies@[b].live == world.bodies@[b].live);
                assert(body_held(world.bodies@, world.shapes@, world.spaces@, b) == body_held(
                    old(world).bodies@,
                    old(world).shapes@,
                    old(world).spaces@,
                    b,
                ));
            }
        }
        Body { record }
    }

    /// Gives this handle up. The record is torn down when this was its last
    /// handle and neither a living shape nor a living space keeps it alive;
    /// nothing else changes.
    pub fn release<V>(self, world: &mut World<V>) -> (calls: Vec<EngineCall>)
        requires
            old(world).wf(),
            self.held_in(old(world)),
        ensures
            forall|i: int| 0 <= i < calls@.len() ==> old(world).serves(#[trigger] calls@[i]),
            final(world).wf(),
            final(world).spaces@ == old(world).spaces@,
            final(world).shapes@ == old(world).shapes@,
            final(world).bodies@ == old(world).bodies@.update(
                self.index() as int,
                settled_body(
                    (BodyRecord {
                        handles: (old(world).bodies@[self.index() as int].handles - 1) as usize,
                        ..old(world).bodies@[self.index() as int]
                    }),
                    old(world).bodies@[self.index() as int].handles > 1 || body_attached(
                        old(world).shapes@,
                        self.index() as int,
                    ) || body_registered(old(world).spaces@, self.index() as int),
                ),
            ),
            calls@ == if final(world).bodies@[self.index() as int].live {
                Seq::<EngineCall>::empty()
            } else {
                seq![EngineCall::BodyDestroy { body: self.index() }]
            },
    {
        let record = self.record;
        world.bodies[record].handles = world.bodies[record].handles - 1;
        let mut calls: Vec<EngineCall> = Vec::new();
        let held = world.bodies[record].handles > 0 || world.body_is_attached(record)
            || world.body_is_registered(record);
        if !held {
            world.bodies[record].live = false;
            world.bodies[record].slot.clear();
            calls.push(EngineCall::BodyDestroy { body: record });
        }
        proof {
            let bodies0 = old(world).bodies@;
            assert(body_held(bodies0, world.shapes@, world.spaces@, record as int));
            assert(bodies0[record as int].live);
            assert forall|b: int| 0 <= b < world.bodies@.len() implies (body_held(
                world.bodies@,
                world.shapes@,
                world.spaces@,
                b,
            ) <==> (#[trigger] world.bodies@[b]).live) by {
                if b != record {
                    assert(world.bodies@[b] == bodies0[b]);
                    assert(body_held(bodies0, world.shapes@, world.spaces@, b) <==> bodies0[b].live);
                }
            }
            assert forall|s: int| 0 <= s < world.shapes@.len() implies (shape_held(
                world.shapes@,
                world.spaces@,
                s,
            ) <==> (#[trigger] world.shapes@[s]).live) by {
                assert(shape_held(old(world).shapes@, old(world).spaces@, s) <==> old(world).shapes@[s].live);
            }
            assert forall|b: int| 0 <= b < world.bodies@.len() && !(#[trigger] world.bodies@[b]).live implies world.bodies@[b].slot.held is None by {
                if b != record {
                    assert(world.bodies@[b] == bodies0[b]);
                }
            }
            assert(world.bodies@ =~= bodies0.update(record as int, world.bodies@[record as int]));
            if !held {
                assert(calls@ =~= seq![EngineCall::BodyDestroy { body: record }]);
            }
        }
        calls
    }

    /// The extension data of the body that was stored under `tag`; nothing
    /// when none was stored or it was stored under another tag.
    pub fn user_data<'a, V>(&self, world: &'a World<V>, tag: TypeTag) -> (r: Option<&'a V>)
        requires
            self.held_in(world),
        ensures
            r == match world.bodies@[self.index() as int].slot.lookup(tag) {
                Some(v) => Some(&v),
                None => None,
            },
    {
        world.bodies[self.record].user_data(tag)
    }

    /// Stores `val` under `tag` as the extension data of the body, in place
    /// of whatever was stored. Every handle on the body sees it.
    pub fn set_user_data<V>(&self, world: &mut World<V>, tag: TypeTag, val: V)
        requires
            old(world).wf(),
            self.held_in(old(world)),
        ensures
            final(world).wf(),
            self.held_in(final(world)),
            final(world).bodies@.len() == old(world).bodies@.len(),
            forall|i: int|
                0 <= i < old(world).bodies@.len() && i != self.index() ==> final(world).bodies@[i] == old(
                    world,
                ).bodies@[i],
            old(world).bodies@[self.index() as int].same_entity(&final(world).bodies@[self.index() as int]),
            final(world).bodies@[self.index() as int].slot.held == Some((tag, val)),
            final(world).shapes@ == old(world).shapes@,
            final(world).spaces@ == old(world).spaces@,
    {
        let record = self.record;
        proof {
            assert(body_held(old(world).bodies@, old(world).shapes@, old(world).spaces@, self.index() as int));
        }
        world.bodies[record].set_user_data(tag, val);
        proof {
            old(world).lemma_slots_apart(world);
        }
    }

    /// Mutable access to the extension data of the body that was stored
    /// under `tag`; nothing when none was stored or it was stored under
    /// another tag.
    pub fn user_data_mut<'a, V>(&self, world: &'a mut World<V>, tag: TypeTag) -> (r: Option<&'a mut V>)
        requires
            old(world).wf(),
            self.held_in(old(world)),
        ensures
            final(world).wf(),
            self.held_in(final(world)),
            final(world).bodies@.len() == old(world).bodies@.len(),
            forall|i: int|
                0 <= i < old(world).bodies@.len() && i != self.index() ==> final(world).bodies@[i] == old(
                    world,
                ).bodies@[i],
            old(world).bodies@[self.index() as int].same_entity(&final(world).bodies@[self.index() as int]),
            final(world).shapes@ == old(world).shapes@,
            final(world).spaces@ == old(world).spaces@,
            match r {
                Some(v) => old(world).bodies@[self.index() as int].slot.lookup(tag) == Some(*v)
                    && final(world).bodies@[self.index() as int].slot.held == Some((tag, *final(v))),
                None => old(world).bodies@[self.index() as int].slot.lookup(tag) is None
                    && final(world).bodies@[self.index() as int].slot == old(world).bodies@[self.index() as int].slot,
            },
    {
        let record = self.record;
        proof {
            assert(body_held(old(world).bodies@, old(world).shapes@, old(world).spaces@, self.index() as int));
        }
        assert(old(world).same_but_slots(final(world)) ==> final(world).wf()) by {
            if old(world).same_but_slots(final(world)) {
                old(world).lemma_slots_apart(final(world));
            }
        }
        world.bodies[record].user_data_mut(tag)
    }
}

impl Body {
    /// A record that a handle is counted on exists: no call that names it
    /// can reach a record that was torn down.
    pub proof fn lemma_held_is_live<V>(&self, world: &World<V>)
        requires
            world.wf(),
            self.held_in(world),
        ensures
            world.bodies@[self.index() as int].live,
    {
        assert(body_held(world.bodies@, world.shapes@, world.spaces@, self.index() as int));
    }

    /// Asks for the rotation of the body, in radians.
    pub fn angle_rad<V>(&self, world: &World<V>) -> (call: EngineCall)
        requires
            world.wf(),
            self.held_in(world),
        ensures
            world.serves(call),
            call == (EngineCall::BodyGetScalar { body: self.index(), attr: BodyScalar::Angle }),
    {
        EngineCall::BodyGetScalar { body: self.record, attr: BodyScalar::Angle }
    }

    /// Asks for the rotation speed of the body, in radians per second.
    pub fn angular_velocity_rad<V>(&self, world: &World<V>) -> (call: EngineCall)
        requires
            world.wf(),
            self.held_in(world),
        ensures
            world.serves(call),
            call == (EngineCall::BodyGetScalar {
                body: self.index(),
                attr: BodyScalar::AngularVelocity,
            }),
    {
        EngineCall::BodyGetScalar { body: self.record, attr: BodyScalar::AngularVelocity }
    }

    /// Asks for the mass of the body.
    pub fn mass<V>(&self, world: &World<V>) -> (call: EngineCall)
        requires
            world.wf(),
            self.held_in(world),
        ensures
            world.serves(call),
            call == (EngineCall::BodyGetScalar { body: self.index(), attr: BodyScalar::Mass }),
    {
        EngineCall::BodyGetScalar { body: self.record, attr: BodyScalar::Mass }
    }

    /// Asks for the moment of inertia of the body.
    pub fn moment<V>(&self, world: &World<V>) -> (call: EngineCall)
        requires
            world.wf(),
            self.held_in(world),
        ensures
            world.serves(call),
            call == (EngineCall::BodyGetScalar { body: self.index(), attr: BodyScalar::Moment }),
    {
        EngineCall::BodyGetScalar { body: self.record, attr: BodyScalar::Moment }
    }

    /// Asks for the torque that acts on the body.
    pub fn torque<V>(&self, world: &World<V>) -> (call: EngineCall)
        requires
            world.wf(),
            self.held_in(world),
        ensures
            world.serves(call),
            call == (EngineCall::BodyGetScalar { body: self.index(), attr: BodyScalar::Torque }),
    {
        EngineCall::BodyGetScalar { body: self.record, attr: BodyScalar::Torque }
    }

    /// Asks for the centre of gravity of the body, in its own coordinates.
    pub fn center_of_gravity<V>(&self, world: &World<V>) -> (call: EngineCall)
        requires
            world.wf(),
            self.held_in(world),
        ensures
            world.serves(call),
            call == (EngineCall::BodyGetVect {
                body: self.index(),
                attr: BodyVect::CenterOfGravity,
            }),
    {
        EngineCall::BodyGetVect { body: self.record, attr: BodyVect::CenterOfGravity }
    }

    /// Asks for the force that acts on the body.
    pub fn force<V>(&self, world: &World<V>) -> (call: EngineCall)
        requires
            world.wf(),
            self.held_in(world),
        ensures
            world.serves(call),
            call == (EngineCall::BodyGetVect { body: self.index(), attr: BodyVect::Force }),
    {
        EngineCall::BodyGetVect { body: self.record, attr: BodyVect::Force }
    }

    /// Asks for the position of the body, in world coordinates.
    pub fn position<V>(&self, world: &World<V>) -> (call: EngineCall)
        requires
            world.wf(),
            self.held_in(world),
        ensures
            world.serves(call),
            call == (EngineCall::BodyGetVect { body: self.index(), attr: BodyVect::Position }),
    {
        EngineCall::BodyGetVect { body: self.record, attr: BodyVect::Position }
    }

    /// Asks for the velocity of the body.
    pub fn velocity<V>(&self, world: &World<V>) -> (call: EngineCall)
        requires
            world.wf(),
            self.held_in(world),
        ensures
            world.serves(call),
            call == (EngineCall::BodyGetVect { body: self.index(), attr: BodyVect::Velocity }),
    {
        EngineCall::BodyGetVect { body: self.record, attr: BodyVect::Velocity }
    }

    /// Sets the rotation of the body, in radians.
    pub fn set_angle_rad<V>(&self, world: &World<V>, angle: Scalar) -> (call: EngineCall)
        requires
            world.wf(),
            self.held_in(world),
        ensures
            world.serves(call),
            call == (EngineCall::BodySetScalar {
                body: self.index(),
                attr: BodyScalar::Angle,
                value: angle,
            }),
    {
        EngineCall::BodySetScalar { body: self.record, attr: BodyScalar::Angle, value: angle }
    }

    /// Sets the rotation speed of the body, in radians per second.
    pub fn set_angular_velocity_rad<V>(&self, world: &World<V>, ang_vel: Scalar) -> (call: EngineCall)
        requires
            world.wf(),
            self.held_in(world),
        ensures
            world.serves(call),
            call == (EngineCall::BodySetScalar {
                body: self.index(),
                attr: BodyScalar::AngularVelocity,
                value: ang_vel,
            }),
    {
        EngineCall::BodySetScalar {
            body: self.record,
            attr: BodyScalar::AngularVelocity,
            value: ang_vel,
        }
    }

    /// Sets the mass of the body. The mass that a shape on the body reports
    /// is another number and stays as it is.
    pub fn set_mass<V>(&self, world: &World<V>, mass: Scalar) -> (call: EngineCall)
        requires
            world.wf(),
            self.held_in(world),
        ensures
            world.serves(call),
            call == (EngineCall::BodySetScalar {
                body: self.index(),
                attr: BodyScalar::Mass,
                value: mass,
            }),
    {
        EngineCall::BodySetScalar { body: self.record, attr: BodyScalar::Mass, value: mass }
    }

    /// Sets the moment of inertia of the body.
    pub fn set_moment<V>(&self, world: &World<V>, moment: Scalar) -> (call: EngineCall)
        requires
            world.wf(),
            self.held_in(world),
        ensures
            world.serves(call),
            call == (EngineCall::BodySetScalar {
                body: self.index(),
                attr: BodyScalar::Moment,
                value: moment,
            }),
    {
        EngineCall::BodySetScalar { body: self.record, attr: BodyScalar::Moment, value: moment }
    }

    /// Sets the torque that acts on the body. It stays in force until it is set again.
    pub fn set_torque<V>(&self, world: &World<V>, torque: Scalar) -> (call: EngineCall)
        requires
            world.wf(),
            self.held_in(world),
        ensures
            world.serves(call),
            call == (EngineCall::BodySetScalar {
                body: self.index(),
                attr: BodyScalar::Torque,
                value: torque,
            }),
    {
        EngineCall::BodySetScalar { body: self.record, attr: BodyScalar::Torque, value: torque }
    }

    /// Sets the centre of gravity of the body, in its own coordinates.
    pub fn set_center_of_gravity<V>(&self, world: &World<V>, x: Scalar, y: Scalar) -> (call: EngineCall)
        requires
            world.wf(),
            self.held_in(world),
        ensures
            world.serves(call),
            call == (EngineCall::BodySetVect {
                body: self.index(),
                attr: BodyVect::CenterOfGravity,
                value: (Vect { x, y }),
            }),
    {
        EngineCall::BodySetVect {
            body: self.record,
            attr: BodyVect::CenterOfGravity,
            value: (Vect { x, y }),
        }
    }

    /// Sets the force that acts on the body. It stays in force until it is set again.
    pub fn set_force<V>(&self, world: &World<V>, x: Scalar, y: Scalar) -> (call: EngineCall)
        requires
            world.wf(),
            self.held_in(world),
        ensures
            world.serves(call),
            call == (EngineCall::BodySetVect {
                body: self.index(),
                attr: BodyVect::Force,
                value: (Vect { x, y }),
            }),
    {
        EngineCall::BodySetVect { body: self.record, attr: BodyVect::Force, value: (Vect { x, y }) }
    }

    /// Sets the position of the body, in world coordinates. Both numbers
    /// reach the engine bit for bit.
    pub fn set_position<V>(&self, world: &World<V>, x: Scalar, y: Scalar) -> (call: EngineCall)
        requires
            world.wf(),
            self.held_in(world),
        ensures
            world.serves(call),
            call == (EngineCall::BodySetVect {
                body: self.index(),
                attr: BodyVect::Position,
                value: (Vect { x, y }),
            }),
    {
        EngineCall::BodySetVect {
            body: self.record,
            attr: BodyVect::Position,
            value: (Vect { x, y }),
        }
    }

    /// Sets the velocity of the body.
    pub fn set_velocity<V>(&self, world: &World<V>, x: Scalar, y: Scalar) -> (call: EngineCall)
        requires
            world.wf(),
            self.held_in(world),
        ensures
            world.serves(call),
            call == (EngineCall::BodySetVect {
                body: self.index(),
                attr: BodyVect::Velocity,
                value: (Vect { x, y }),
            }),
    {
        EngineCall::BodySetVect {
            body: self.record,
            attr: BodyVect::Velocity,
            value: (Vect { x, y }),
        }
    }
}

impl Body {
    /// Handles that alias one record are one body: what is stored through
    /// one of them is found through the other, and both name the same
    /// record to the engine, so that what one sets the other reads.
    pub proof fn lemma_alias_sees_change<V>(
        &self,
        alias: &Body,
        world: &World<V>,
        tag: TypeTag,
        val: V,
    )
        requires
            alias.index() == self.index(),
            world.bodies@[self.index() as int].slot.held == Some((tag, val)),
        ensures
            world.bodies@[alias.index() as int].slot.lookup(tag) == Some(val),
            self.held_in(world) ==> alias.held_in(world),
            forall|attr: BodyVect|
                (EngineCall::BodyGetVect { body: alias.index(), attr }) == (EngineCall::BodyGetVect {
                    body: self.index(),
                    attr,
                }),
    {
    }
}

} // verus!
