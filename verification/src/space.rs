//! Handles on space records.

use vstd::prelude::*;
use crate::body::Body;
use crate::engine::{EngineCall, SpaceScalar};
use crate::scalar::{Scalar, Vect};
use crate::shape::Shape;
use crate::user_data::{Slot, TypeTag, UserData};
use crate::world::{
    body_held, body_registered, doomed_bodies, doomed_shapes, lemma_bodies_apart,
    lemma_body_spared, lemma_doomed_bodies_lived, lemma_doomed_shapes_lived,
    lemma_no_doomed_bodies, lemma_no_doomed_shapes, lemma_registry_weaker, lemma_shape_spared,
    lemma_shapes_apart, lists_body, lists_shape, settled_body, settled_shape, shape_held,
    shape_registered, SpaceRecord, World,
};

verus! {

/// A handle on one space record.
///
/// A space keeps alive every body and every shape that was registered into
/// it. When its last handle is released, the space lets go of them and its
/// own record is torn down.
pub struct Space {
    record: usize,
}

impl Space {
    /// The index of the record that this handle aliases.
    pub closed spec fn index(&self) -> usize {
        self.record
    }

    /// The handle is one of those counted on a record of `world`.
    pub open spec fn held_in<V>(&self, world: &World<V>) -> bool {
        self.index() < world.spaces@.len() && world.spaces@[self.index() as int].handles > 0
    }

    /// Makes an empty space, and the first handle on it. Every tunable is
    /// left at the default that the engine gives it.
    pub fn new<V>(world: &mut World<V>) -> (r: (Space, Vec<EngineCall>))
        requires
            old(world).wf(),
        ensures
            forall|i: int| 0 <= i < r.1@.len() ==> final(world).serves(#[trigger] r.1@[i]),
            final(world).wf(),
            r.0.index() == old(world).spaces@.len(),
            r.0.held_in(final(world)),
            final(world).spaces@.len() == old(world).spaces@.len() + 1,
            forall|sp: int| 0 <= sp < old(world).spaces@.len() ==> final(world).spaces@[sp] == old(world).spaces@[sp],
            final(world).spaces@[r.0.index() as int].handles == 1,
            final(world).spaces@[r.0.index() as int].bodies@ == Seq::<usize>::empty(),
            final(world).spaces@[r.0.index() as int].shapes@ == Seq::<usize>::empty(),
            final(world).spaces@[r.0.index() as int].slot.held is None,
            final(world).bodies@ == old(world).bodies@,
            final(world).shapes@ == old(world).shapes@,
            r.1@ == seq![EngineCall::SpaceInit { space: r.0.index() }],
    {
        let record = world.spaces.len();
        world.spaces.push(SpaceRecord { handles: 1, bodies: Vec::new(), shapes: Vec::new(), slot: Slot::empty() });
        proof {
            let spaces0 = old(world).spaces@;
            let spaces1 = world.spaces@;
            assert forall|x: int| body_registered(spaces1, x) == body_registered(spaces0, x) by {
                if body_registered(spaces1, x) {
                    let (sp, k) = choose|sp: int, k: int| lists_body(spaces1, sp, k, x);
                    assert(spaces1[sp] == spaces0[sp]);
                    assert(lists_body(spaces0, sp, k, x));
                }
                if body_registered(spaces0, x) {
                    let (sp, k) = choose|sp: int, k: int| lists_body(spaces0, sp, k, x);
                    assert(spaces1[sp] == spaces0[sp]);
                    assert(lists_body(spaces1, sp, k, x));
                }
            }
            assert forall|x: int| shape_registered(spaces1, x) == shape_registered(spaces0, x) by {
                if shape_registered(spaces1, x) {
                    let (sp, k) = choose|sp: int, k: int| lists_shape(spaces1, sp, k, x);
                    assert(spaces1[sp] == spaces0[sp]);
                    assert(lists_shape(spaces0, sp, k, x));
                }
                if shape_registered(spaces0, x) {
                    let (sp, k) = choose|sp: int, k: int| lists_shape(spaces0, sp, k, x);
                    assert(spaces1[sp] == spaces0[sp]);
                    assert(lists_shape(spaces1, sp, k, x));
                }
            }
            assert forall|s: int| 0 <= s < world.shapes@.len() implies (shape_held(
                world.shapes@,
                spaces1,
                s,
            ) <==> (#[trigger] world.shapes@[s]).live) by {
                assert(shape_held(world.shapes@, spaces0, s) <==> old(world).shapes@[s].live);
            }
            assert forall|b: int| 0 <= b < world.bodies@.len() implies (body_held(
                world.bodies@,
                world.shapes@,
                spaces1,
                b,
            ) <==> (#[trigger] world.bodies@[b]).live) by {
                assert(body_held(world.bodies@, world.shapes@, spaces0, b) <==> old(world).bodies@[b].live);
            }
            assert forall|sp: int, k: int|
                0 <= sp < spaces1.len() && 0 <= k < spaces1[sp].bodies@.len() implies #[trigger] spaces1[sp].bodies@[k]
                < world.bodies@.len() by {
                assert(spaces1[sp] == spaces0[sp]);
            }
            assert forall|sp: int, k: int|
                0 <= sp < spaces1.len() && 0 <= k < spaces1[sp].shapes@.len() implies #[trigger] spaces1[sp].shapes@[k]
                < world.shapes@.len() by {
                assert(spaces1[sp] == spaces0[sp]);
            }
        }
        let mut calls: Vec<EngineCall> = Vec::new();
        calls.push(EngineCall::SpaceInit { space: record });
        assert(calls@ =~= seq![EngineCall::SpaceInit { space: record }]);
        (Space { record }, calls)
    }

    /// The index under which the engine record of this space is kept.
    pub fn get_cp_space(&self) -> (r: usize)
        ensures
            r == self.index(),
    {
        self.record
    }

    /// Whether this handle is counted on a record of `world`.
    pub fn is_held_in<V>(&self, world: &World<V>) -> (r: bool)
        ensures
            r == self.held_in(world),
    {
        self.record < world.spaces.len() && world.spaces[self.record].handles > 0
    }

    /// Whether another handle can still be counted on the record.
    pub fn can_duplicate<V>(&self, world: &World<V>) -> (r: bool)
        requires
            self.held_in(world),
        ensures
            r == (world.spaces@[self.index() as int].handles < usize::MAX),
    {
        world.spaces[self.record].handles < usize::MAX
    }

    /// Makes another handle on the same record.
    pub fn duplicate_homogenous<V>(&self, world: &mut World<V>) -> (r: Space)
        requires
            old(world).wf(),
            self.held_in(old(world)),
            old(world).spaces@[self.index() as int].handles < usize::MAX,
        ensures
            final(world).wf(),
            r.index() == self.index(),
            r.held_in(final(world)),
            self.held_in(final(world)),
            final(world).spaces@.len() == old(world).spaces@.len(),
            forall|sp: int|
                0 <= sp < old(world).spaces@.len() && sp != self.index() ==> final(world).spaces@[sp] == old(
                    world,
                ).spaces@[sp],
            final(world).spaces@[self.index() as int].handles == old(world).spaces@[self.index() as int].handles
                + 1,
            final(world).spaces@[self.index() as int].bodies == old(world).spaces@[self.index() as int].bodies,
            final(world).spaces@[self.index() as int].shapes == old(world).spaces@[self.index() as int].shapes,
            final(world).spaces@[self.index() as int].slot == old(world).spaces@[self.index() as int].slot,
            final(world).bodies@ == old(world).bodies@,
            final(world).shapes@ == old(world).shapes@,
    {
        let record = self.record;
        world.spaces[record].handles = world.spaces[record].handles + 1;
        proof {
            Self::lemma_same_registry(old(world), world);
        }
        Space { record }
    }

    /// Stores `value` under `tag` as the extension data of the space, in
    /// place of whatever was stored, and hands the handle back.
    pub fn swap_userdata<V>(self, world: &mut World<V>, tag: TypeTag, value: V) -> (r: Space)
        requires
            old(world).wf(),
            self.held_in(old(world)),
        ensures
            final(world).wf(),
            r.index() == self.index(),
            r.held_in(final(world)),
            final(world).spaces@.len() == old(world).spaces@.len(),
            forall|sp: int|
                0 <= sp < old(world).spaces@.len() && sp != self.index() ==> final(world).spaces@[sp] == old(
                    world,
                ).spaces@[sp],
            final(world).spaces@[self.index() as int].handles == old(world).spaces@[self.index() as int].handles,
            final(world).spaces@[self.index() as int].bodies == old(world).spaces@[self.index() as int].bodies,
            final(world).spaces@[self.index() as int].shapes == old(world).spaces@[self.index() as int].shapes,
            final(world).spaces@[self.index() as int].slot.held == Some((tag, value)),
            final(world).bodies@ == old(world).bodies@,
            final(world).shapes@ == old(world).shapes@,
    {
        let record = self.record;
        world.spaces[record].slot.set(tag, value);
        proof {
            Self::lemma_same_registry(old(world), world);
        }
        Space { record }
    }

    /// Turns the handle into a plain token, to be kept where no handle can
    /// be kept. The handle stays counted on its record.
    pub fn into_raw_ptr(self) -> (token: usize)
        ensures
            token == self.index(),
    {
        self.record
    }

    /// Makes a handle again from a token. Nothing is counted: the handle
    /// stands for the one that the token was made from, and for no other.
    pub fn from_raw_ptr(token: usize) -> (r: Space)
        ensures
            r.index() == token,
    {
        Space { record: token }
    }

    /// Registers a body into the space, which keeps it alive from now on.
    /// No shape is registered with it.
    pub fn add_body<V>(&self, world: &mut World<V>, body: &Body) -> (calls: Vec<EngineCall>)
        requires
            old(world).wf(),
            self.held_in(old(world)),
            body.held_in(old(world)),
        ensures
            forall|i: int| 0 <= i < calls@.len() ==> final(world).serves(#[trigger] calls@[i]),
            final(world).wf(),
            self.held_in(final(world)),
            body.held_in(final(world)),
            final(world).spaces@.len() == old(world).spaces@.len(),
            forall|sp: int|
                0 <= sp < old(world).spaces@.len() && sp != self.index() ==> final(world).spaces@[sp] == old(
                    world,
                ).spaces@[sp],
            final(world).spaces@[self.index() as int].handles == old(world).spaces@[self.index() as int].handles,
            final(world).spaces@[self.index() as int].bodies@ == old(world).spaces@[self.index() as int].bodies@.push(
                body.index(),
            ),
            final(world).spaces@[self.index() as int].shapes == old(world).spaces@[self.index() as int].shapes,
            final(world).spaces@[self.index() as int].slot == old(world).spaces@[self.index() as int].slot,
            final(world).bodies@ == old(world).bodies@,
            final(world).shapes@ == old(world).shapes@,
            calls@ == seq![EngineCall::SpaceAddBody { space: self.index(), body: body.index() }],
    {
        let record = self.record;
        let b = body.get_cp_body();
        world.spaces[record].bodies.push(b);
        proof {
            let spaces0 = old(world).spaces@;
            let spaces1 = world.spaces@;
            let end = spaces0[record as int].bodies@.len() as int;
            assert(lists_body(spaces1, record as int, end, b as int));
            assert(body_held(old(world).bodies@, old(world).shapes@, spaces0, b as int));
            assert forall|x: int| body_registered(spaces0, x) implies body_registered(spaces1, x) by {
                let (sp, k) = choose|sp: int, k: int| lists_body(spaces0, sp, k, x);
                if sp != record {
                    assert(spaces1[sp] == spaces0[sp]);
                }
                assert(lists_body(spaces1, sp, k, x));
            }
            assert forall|x: int| body_registered(spaces1, x) && x != b implies body_registered(spaces0, x) by {
                let (sp, k) = choose|sp: int, k: int| lists_body(spaces1, sp, k, x);
                if sp != record {
                    assert(spaces1[sp] == spaces0[sp]);
                }
                assert(lists_body(spaces0, sp, k, x));
            }
            assert forall|x: int| shape_registered(spaces1, x) == shape_registered(spaces0, x) by {
                if shape_registered(spaces1, x) {
                    let (sp, k) = choose|sp: int, k: int| lists_shape(spaces1, sp, k, x);
                    if sp != record {
                        assert(spaces1[sp] == spaces0[sp]);
                    }
                    assert(lists_shape(spaces0, sp, k, x));
                }
                if shape_registered(spaces0, x) {
                    let (sp, k) = choose|sp: int, k: int| lists_shape(spaces0, sp, k, x);
                    if sp != record {
                        assert(spaces1[sp] == spaces0[sp]);
                    }
                    assert(lists_shape(spaces1, sp, k, x));
                }
            }
            assert forall|s: int| 0 <= s < world.shapes@.len() implies (shape_held(
                world.shapes@,
                spaces1,
                s,
            ) <==> (#[trigger] world.shapes@[s]).live) by {
                assert(shape_held(world.shapes@, spaces0, s) <==> old(world).shapes@[s].live);
            }
            assert forall|x: int| 0 <= x < world.bodies@.len() implies (body_held(
                world.bodies@,
                world.shapes@,
                spaces1,
                x,
            ) <==> (#[trigger] world.bodies@[x]).live) by {
                assert(body_held(world.bodies@, world.shapes@, spaces0, x) <==> old(world).bodies@[x].live);
            }
            assert forall|sp: int, k: int|
                0 <= sp < spaces1.len() && 0 <= k < spaces1[sp].bodies@.len() implies #[trigger] spaces1[sp].bodies@[k]
                < world.bodies@.len() by {
                if sp != record {
                    assert(spaces1[sp] == spaces0[sp]);
                }
                if sp != record || k < end {
                    assert(spaces0[sp].bodies@[k] < world.bodies@.len());
                }
            }
            assert forall|sp: int, k: int|
                0 <= sp < spaces1.len() && 0 <= k < spaces1[sp].shapes@.len() implies #[trigger] spaces1[sp].shapes@[k]
                < world.shapes@.len() by {
                if sp != record {
                    assert(spaces1[sp] == spaces0[sp]);
                }
                assert(spaces0[sp].shapes@[k] < world.shapes@.len());
            }
        }
        let mut calls: Vec<EngineCall> = Vec::new();
        calls.push(EngineCall::SpaceAddBody { space: record, body: b });
        assert(calls@ =~= seq![EngineCall::SpaceAddBody { space: record, body: b }]);
        calls
    }

    /// Registers a shape into the space, which keeps it alive from now on.
    /// The body of the shape is not registered with it: its kind stays what
    /// it was, and it takes no part in the simulation until it is
    /// registered itself.
    pub fn add_shape<V>(&self, world: &mut World<V>, shape: &Shape) -> (calls: Vec<EngineCall>)
        requires
            old(world).wf(),
            self.held_in(old(world)),
            shape.held_in(old(world)),
        ensures
            forall|i: int| 0 <= i < calls@.len() ==> final(world).serves(#[trigger] calls@[i]),
            final(world).wf(),
            self.held_in(final(world)),
            shape.held_in(final(world)),
            final(world).spaces@.len() == old(world).spaces@.len(),
            forall|sp: int|
                0 <= sp < old(world).spaces@.len() && sp != self.index() ==> final(world).spaces@[sp] == old(
                    world,
                ).spaces@[sp],
            final(world).spaces@[self.index() as int].handles == old(world).spaces@[self.index() as int].handles,
            final(world).spaces@[self.index() as int].shapes@ == old(world).spaces@[self.index() as int].shapes@.push(
                shape.index(),
            ),
            final(world).spaces@[self.index() as int].bodies == old(world).spaces@[self.index() as int].bodies,
            final(world).spaces@[self.index() as int].slot == old(world).spaces@[self.index() as int].slot,
            final(world).bodies@ == old(world).bodies@,
            final(world).shapes@ == old(world).shapes@,
            calls@ == seq![EngineCall::SpaceAddShape { space: self.index(), shape: shape.index() }],
    {
        let record = self.record;
        let s = shape.get_cp_shape();
        world.spaces[record].shapes.push(s);
        proof {
            let spaces0 = old(world).spaces@;
            let spaces1 = world.spaces@;
            let end = spaces0[record as int].shapes@.len() as int;
            assert(lists_shape(spaces1, record as int, end, s as int));
            assert(shape_held(old(world).shapes@, spaces0, s as int));
            assert forall|x: int| shape_registered(spaces0, x) implies shape_registered(spaces1, x) by {
                let (sp, k) = choose|sp: int, k: int| lists_shape(spaces0, sp, k, x);
                if sp != record {
                    assert(spaces1[sp] == spaces0[sp]);
                }
                assert(lists_shape(spaces1, sp, k, x));
            }
            assert forall|x: int| shape_registered(spaces1, x) && x != s implies shape_registered(spaces0, x) by {
                let (sp, k) = choose|sp: int, k: int| lists_shape(spaces1, sp, k, x);
                if sp != record {
                    assert(spaces1[sp] == spaces0[sp]);
                }
                assert(lists_shape(spaces0, sp, k, x));
            }
            assert forall|x: int| body_registered(spaces1, x) == body_registered(spaces0, x) by {
                if body_registered(spaces1, x) {
                    let (sp, k) = choose|sp: int, k: int| lists_body(spaces1, sp, k, x);
                    if sp != record {
                        assert(spaces1[sp] == spaces0[sp]);
                    }
                    assert(lists_body(spaces0, sp, k, x));
                }
                if body_registered(spaces0, x) {
                    let (sp, k) = choose|sp: int, k: int| lists_body(spaces0, sp, k, x);
                    if sp != record {
                        assert(spaces1[sp] == spaces0[sp]);
                    }
                    assert(lists_body(spaces1, sp, k, x));
                }
            }
            assert forall|x: int| 0 <= x < world.shapes@.len() implies (shape_held(
                world.shapes@,
                spaces1,
                x,
            ) <==> (#[trigger] world.shapes@[x]).live) by {
                assert(shape_held(world.shapes@, spaces0, x) <==> old(world).shapes@[x].live);
            }
            assert forall|x: int| 0 <= x < world.bodies@.len() implies (body_held(
                world.bodies@,
                world.shapes@,
                spaces1,
                x,
            ) <==> (#[trigger] world.bodies@[x]).live) by {
                assert(body_held(world.bodies@, world.shapes@, spaces0, x) <==> old(world).bodies@[x].live);
            }
            assert forall|sp: int, k: int|
                0 <= sp < spaces1.len() && 0 <= k < spaces1[sp].shapes@.len() implies #[trigger] spaces1[sp].shapes@[k]
                < world.shapes@.len() by {
                if sp != record {
                    assert(spaces1[sp] == spaces0[sp]);
                }
                if sp != record || k < end {
                    assert(spaces0[sp].shapes@[k] < world.shapes@.len());
                }
            }
            assert forall|sp: int, k: int|
                0 <= sp < spaces1.len() && 0 <= k < spaces1[sp].bodies@.len() implies #[trigger] spaces1[sp].bodies@[k]
                < world.bodies@.len() by {
                if sp != record {
                    assert(spaces1[sp] == spaces0[sp]);
                }
                assert(spaces0[sp].bodies@[k] < world.bodies@.len());
            }
        }
        let mut calls: Vec<EngineCall> = Vec::new();
        calls.push(EngineCall::SpaceAddShape { space: record, shape: s });
        assert(calls@ =~= seq![EngineCall::SpaceAddShape { space: record, shape: s }]);
        calls
    }

    /// Gives this handle up. When it was the last one on the space, the
    /// space lets go of what was registered into it: the shapes that nothing
    /// else keeps alive are torn down first, then the bodies that nothing
    /// else keeps alive, then the space record itself. A body or a shape
    /// that the application still holds a handle on is left as it is.
    pub fn release<V>(self, world: &mut World<V>) -> (calls: Vec<EngineCall>)
        requires
            old(world).wf(),
            self.held_in(old(world)),
        ensures
            forall|i: int| 0 <= i < calls@.len() ==> old(world).serves(#[trigger] calls@[i]),
            final(world).wf(),
            final(world).spaces@.len() == old(world).spaces@.len(),
            forall|sp: int|
                0 <= sp < old(world).spaces@.len() && sp != self.index() ==> final(world).spaces@[sp] == old(
                    world,
                ).spaces@[sp],
            final(world).spaces@[self.index() as int].handles == old(world).spaces@[self.index() as int].handles
                - 1,
            final(world).spaces@[self.index() as int].bodies == old(world).spaces@[self.index() as int].bodies,
            final(world).spaces@[self.index() as int].shapes == old(world).spaces@[self.index() as int].shapes,
            final(world).spaces@[self.index() as int].slot == if old(world).spaces@[self.index() as int].handles
                == 1 {
                (Slot { held: None })
            } else {
                old(world).spaces@[self.index() as int].slot
            },
            final(world).shapes@.len() == old(world).shapes@.len(),
            final(world).bodies@.len() == old(world).bodies@.len(),
            forall|s: int|
                0 <= s < old(world).shapes@.len() ==> #[trigger] final(world).shapes@[s] == settled_shape(
                    old(world).shapes@[s],
                    shape_held(old(world).shapes@, final(world).spaces@, s),
                ),
            forall|b: int|
                0 <= b < old(world).bodies@.len() ==> #[trigger] final(world).bodies@[b] == settled_body(
                    old(world).bodies@[b],
                    body_held(old(world).bodies@, final(world).shapes@, final(world).spaces@, b),
                ),
            forall|s: int|
                0 <= s < old(world).shapes@.len() && old(world).shapes@[s].handles > 0
                    ==> #[trigger] final(world).shapes@[s] == old(world).shapes@[s],
            forall|b: int|
                0 <= b < old(world).bodies@.len() && old(world).bodies@[b].handles > 0
                    ==> #[trigger] final(world).bodies@[b] == old(world).bodies@[b],
            forall|s: usize|
                s < old(world).shapes@.len() && (#[trigger] old(world).shapes@[s as int]).handles > 0 ==> !calls@.contains(
                    (EngineCall::ShapeDestroy { shape: s }),
                ),
            forall|b: usize|
                b < old(world).bodies@.len() && (#[trigger] old(world).bodies@[b as int]).handles > 0 ==> !calls@.contains(
                    (EngineCall::BodyDestroy { body: b }),
                ),
            calls@ == doomed_shapes(
                old(world).shapes@,
                final(world).spaces@,
                old(world).shapes@.len() as int,
            ) + doomed_bodies(
                old(world).bodies@,
                final(world).shapes@,
                final(world).spaces@,
                old(world).bodies@.len() as int,
            ) + (if old(world).spaces@[self.index() as int].handles == 1 {
                seq![EngineCall::SpaceDestroy { space: self.index() }]
            } else {
                Seq::<EngineCall>::empty()
            }),
    {
        let record = self.record;
        let last = world.spaces[record].handles == 1;
        world.spaces[record].handles = world.spaces[record].handles - 1;
        if last {
            world.spaces[record].slot.clear();
        }
        let ghost spaces1 = world.spaces@;
        proof {
            let spaces0 = old(world).spaces@;
            assert forall|sp: int| 0 <= sp < spaces0.len() && (#[trigger] spaces1[sp]).handles > 0 implies spaces0[sp].handles
                > 0 && spaces0[sp].bodies@ == spaces1[sp].bodies@ && spaces0[sp].shapes@
                == spaces1[sp].shapes@ by {
                if sp != record {
                    assert(spaces1[sp] == spaces0[sp]);
                }
            }
            lemma_registry_weaker(spaces0, spaces1);
            assert forall|s: int| 0 <= s < world.shapes@.len() && shape_held(
                world.shapes@,
                spaces1,
                s,
            ) implies (#[trigger] world.shapes@[s]).live by {
                assert(shape_held(world.shapes@, spaces0, s));
            }
            assert forall|b: int| 0 <= b < world.bodies@.len() && body_held(
                world.bodies@,
                world.shapes@,
                spaces1,
                b,
            ) implies (#[trigger] world.bodies@[b]).live by {
                assert(body_held(world.bodies@, world.shapes@, spaces0, b));
            }
            assert forall|sp: int, k: int|
                0 <= sp < spaces1.len() && 0 <= k < spaces1[sp].bodies@.len() implies #[trigger] spaces1[sp].bodies@[k]
                < world.bodies@.len() by {
                if sp != record {
                    assert(spaces1[sp] == spaces0[sp]);
                }
                assert(spaces0[sp].bodies@[k] < world.bodies@.len());
            }
            assert forall|sp: int, k: int|
                0 <= sp < spaces1.len() && 0 <= k < spaces1[sp].shapes@.len() implies #[trigger] spaces1[sp].shapes@[k]
                < world.shapes@.len() by {
                if sp != record {
                    assert(spaces1[sp] == spaces0[sp]);
                }
                assert(spaces0[sp].shapes@[k] < world.shapes@.len());
            }
        }
        let mut calls: Vec<EngineCall> = Vec::new();
        if last {
            world.settle(&mut calls);
            calls.push(EngineCall::SpaceDestroy { space: record });
        } else {
            proof {
                Self::lemma_same_registry(old(world), world);
                assert forall|s: int| 0 <= s < world.shapes@.len() implies #[trigger] world.shapes@[s]
                    == settled_shape(world.shapes@[s], shape_held(world.shapes@, spaces1, s)) by {}
                assert forall|b: int| 0 <= b < world.bodies@.len() implies #[trigger] world.bodies@[b]
                    == settled_body(world.bodies@[b], body_held(world.bodies@, world.shapes@, spaces1, b)) by {}
                lemma_no_doomed_shapes(world.shapes@, spaces1, world.shapes@.len() as int);
                lemma_no_doomed_bodies(world.bodies@, world.shapes@, spaces1, world.bodies@.len() as int);
            }
        }
        proof {
            let tail = if last {
                seq![EngineCall::SpaceDestroy { space: record }]
            } else {
                Seq::<EngineCall>::empty()
            };
            assert(calls@ =~= doomed_shapes(old(world).shapes@, spaces1, old(world).shapes@.len() as int)
                + doomed_bodies(old(world).bodies@, world.shapes@, spaces1, old(world).bodies@.len() as int)
                + tail);
            assert(old(world).shapes@.len() == old(world).shapes.len());
            assert(old(world).bodies@.len() == old(world).bodies.len());
            let doomed_s = doomed_shapes(old(world).shapes@, spaces1, old(world).shapes@.len() as int);
            let doomed_b = doomed_bodies(
                old(world).bodies@,
                world.shapes@,
                spaces1,
                old(world).bodies@.len() as int,
            );
            assert forall|i: int| 0 <= i < calls@.len() implies old(world).serves(#[trigger] calls@[i]) by {
                if i < doomed_s.len() {
                    lemma_doomed_shapes_lived(old(world).shapes@, spaces1, old(world).shapes@.len() as int, i);
                    assert(calls@[i] == doomed_s[i]);
                } else if i < doomed_s.len() + doomed_b.len() {
                    lemma_doomed_bodies_lived(
                        old(world).bodies@,
                        world.shapes@,
                        spaces1,
                        old(world).bodies@.len() as int,
                        i - doomed_s.len(),
                    );
                    assert(calls@[i] == doomed_b[i - doomed_s.len()]);
                } else {
                    assert(calls@[i] == tail[i - doomed_s.len() - doomed_b.len()]);
                }
            }
            assert forall|s: usize|
                s < old(world).shapes@.len() && (#[trigger] old(world).shapes@[s as int]).handles > 0 implies !calls@.contains(
                (EngineCall::ShapeDestroy { shape: s }),
            ) by {
                let call = EngineCall::ShapeDestroy { shape: s };
                lemma_shape_spared(old(world).shapes@, spaces1, old(world).shapes@.len() as int, s);
                lemma_bodies_apart(
                    old(world).bodies@,
                    world.shapes@,
                    spaces1,
                    old(world).bodies@.len() as int,
                    s,
                );
                if calls@.contains(call) {
                    Self::lemma_in_either(doomed_s + doomed_b, tail, call);
                    if (doomed_s + doomed_b).contains(call) {
                        Self::lemma_in_either(doomed_s, doomed_b, call);
                    } else {
                        let i = choose|i: int| 0 <= i < tail.len() && tail[i] == call;
                        assert(tail[i] != call);
                    }
                }
            }
            assert forall|b: usize|
                b < old(world).bodies@.len() && (#[trigger] old(world).bodies@[b as int]).handles > 0 implies !calls@.contains(
                (EngineCall::BodyDestroy { body: b }),
            ) by {
                let call = EngineCall::BodyDestroy { body: b };
                lemma_body_spared(
                    old(world).bodies@,
                    world.shapes@,
                    spaces1,
                    old(world).bodies@.len() as int,
                    b,
                );
                lemma_shapes_apart(old(world).shapes@, spaces1, old(world).shapes@.len() as int, b);
                if calls@.contains(call) {
                    Self::lemma_in_either(doomed_s + doomed_b, tail, call);
                    if (doomed_s + doomed_b).contains(call) {
                        Self::lemma_in_either(doomed_s, doomed_b, call);
                    } else {
                        let i = choose|i: int| 0 <= i < tail.len() && tail[i] == call;
                        assert(tail[i] != call);
                    }
                }
            }
            assert forall|s: int|
                0 <= s < old(world).shapes@.len() && old(world).shapes@[s].handles > 0 implies #[trigger] world.shapes@[s]
                == old(world).shapes@[s] by {
                assert(world.shapes@[s] == settled_shape(
                    old(world).shapes@[s],
                    shape_held(old(world).shapes@, spaces1, s),
                ));
            }
            assert forall|b: int|
                0 <= b < old(world).bodies@.len() && old(world).bodies@[b].handles > 0 implies #[trigger] world.bodies@[b]
                == old(world).bodies@[b] by {
                assert(world.bodies@[b] == settled_body(
                    old(world).bodies@[b],
                    body_held(old(world).bodies@, world.shapes@, spaces1, b),
                ));
            }
        }
        calls
    }

    /// What is among the calls of two sequences in a row is among those of
    /// one of them.
    proof fn lemma_in_either(a: Seq<EngineCall>, b: Seq<EngineCall>, call: EngineCall)
        requires
            (a + b).contains(call),
        ensures
            a.contains(call) || b.contains(call),
    {
        let i = choose|i: int| 0 <= i < (a + b).len() && (a + b)[i] == call;
        if i < a.len() {
            assert(a[i] == call);
        } else {
            assert(b[i - a.len()] == call);
        }
    }

    /// Two worlds whose spaces live alike and list alike, and whose bodies
    /// and shapes are the same, are well-formed together.
    proof fn lemma_same_registry<V>(a: &World<V>, b: &World<V>)
        requires
            a.wf(),
            a.bodies@ == b.bodies@,
            a.shapes@ == b.shapes@,
            a.spaces@.len() == b.spaces@.len(),
            forall|sp: int|
                0 <= sp < a.spaces@.len() ==> ((#[trigger] a.spaces@[sp]).handles > 0) == (b.spaces@[sp].handles
                    > 0) && a.spaces@[sp].bodies@ == b.spaces@[sp].bodies@ && a.spaces@[sp].shapes@
                    == b.spaces@[sp].shapes@,
        ensures
            b.wf(),
    {
        lemma_registry_weaker(a.spaces@, b.spaces@);
        assert forall|sp: int|
            0 <= sp < a.spaces@.len() && (#[trigger] a.spaces@[sp]).handles > 0 implies b.spaces@[sp].handles
            > 0 && b.spaces@[sp].bodies@ == a.spaces@[sp].bodies@ && b.spaces@[sp].shapes@
            == a.spaces@[sp].shapes@ by {}
        lemma_registry_weaker(b.spaces@, a.spaces@);
        assert forall|s: int| 0 <= s < b.shapes@.len() implies (shape_held(b.shapes@, b.spaces@, s) <==> (
        #[trigger] b.shapes@[s]).live) by {
            assert(shape_held(a.shapes@, a.spaces@, s) <==> a.shapes@[s].live);
        }
        assert forall|x: int| 0 <= x < b.bodies@.len() implies (body_held(
            b.bodies@,
            b.shapes@,
            b.spaces@,
            x,
        ) <==> (#[trigger] b.bodies@[x]).live) by {
            assert(body_held(a.bodies@, a.shapes@, a.spaces@, x) <==> a.bodies@[x].live);
        }
        assert forall|sp: int, k: int|
            0 <= sp < b.spaces@.len() && 0 <= k < b.spaces@[sp].bodies@.len() implies #[trigger] b.spaces@[sp].bodies@[k]
            < b.bodies@.len() by {
            assert(a.spaces@[sp].bodies@[k] < a.bodies@.len());
        }
        assert forall|sp: int, k: int|
            0 <= sp < b.spaces@.len() && 0 <= k < b.spaces@[sp].shapes@.len() implies #[trigger] b.spaces@[sp].shapes@[k]
            < b.shapes@.len() by {
            assert(a.spaces@[sp].shapes@[k] < a.shapes@.len());
        }
    }

    /// The extension data of the space that was stored under `tag`; nothing
    /// when none was stored or it was stored under another tag.
    pub fn user_data<'a, V>(&self, world: &'a World<V>, tag: TypeTag) -> (r: Option<&'a V>)
        requires
            self.held_in(world),
        ensures
            r == match world.spaces@[self.index() as int].slot.lookup(tag) {
                Some(v) => Some(&v),
                None => None,
            },
    {
        world.spaces[self.record].user_data(tag)
    }

    /// Stores `val` under `tag` as the extension data of the space, in place
    /// of whatever was stored. Every handle on the space sees it.
    pub fn set_user_data<V>(&self, world: &mut World<V>, tag: TypeTag, val: V)
        requires
            old(world).wf(),
            self.held_in(old(world)),
        ensures
            final(world).wf(),
            self.held_in(final(world)),
            final(world).spaces@.len() == old(world).spaces@.len(),
            forall|i: int|
                0 <= i < old(world).spaces@.len() && i != self.index() ==> final(world).spaces@[i] == old(
                    world,
                ).spaces@[i],
            old(world).spaces@[self.index() as int].same_entity(&final(world).spaces@[self.index() as int]),
            final(world).spaces@[self.index() as int].slot.held == Some((tag, val)),
            final(world).bodies@ == old(world).bodies@,
            final(world).shapes@ == old(world).shapes@,
    {
        let record = self.record;
        world.spaces[record].set_user_data(tag, val);
        proof {
            old(world).lemma_slots_apart(world);
        }
    }

    /// Mutable access to the extension data of the space that was stored
    /// under `tag`; nothing when none was stored or it was stored under
    /// another tag.
    pub fn user_data_mut<'a, V>(&self, world: &'a mut World<V>, tag: TypeTag) -> (r: Option<&'a mut V>)
        requires
            old(world).wf(),
            self.held_in(old(world)),
        ensures
            final(world).wf(),
            self.held_in(final(world)),
            final(world).spaces@.len() == old(world).spaces@.len(),
            forall|i: int|
                0 <= i < old(world).spaces@.len() && i != self.index() ==> final(world).spaces@[i] == old(
                    world,
                ).spaces@[i],
            old(world).spaces@[self.index() as int].same_entity(&final(world).spaces@[self.index() as int]),
            final(world).bodies@ == old(world).bodies@,
            final(world).shapes@ == old(world).shapes@,
            match r {
                Some(v) => old(world).spaces@[self.index() as int].slot.lookup(tag) == Some(*v)
                    && final(world).spaces@[self.index() as int].slot.held == Some((tag, *final(v))),
                None => old(world).spaces@[self.index() as int].slot.lookup(tag) is None
                    && final(world).spaces@[self.index() as int].slot == old(world).spaces@[self.index() as int].slot,
            },
    {
        let record = self.record;
        assert(old(world).same_but_slots(final(world)) ==> final(world).wf()) by {
            if old(world).same_but_slots(final(world)) {
                old(world).lemma_slots_apart(final(world));
            }
        }
        world.spaces[record].user_data_mut(tag)
    }
}

impl Space {
    /// Advances the simulation of the space by `timestep`, which goes to the engine as it is.
    pub fn step<V>(&self, world: &World<V>, timestep: Scalar) -> (call: EngineCall)
        requires
            world.wf(),
            self.held_in(world),
        ensures
            world.serves(call),
            call == (EngineCall::SpaceStep { space: self.index(), interval: timestep }),
    {
        EngineCall::SpaceStep { space: self.record, interval: timestep }
    }

    /// Asks for the gravity of the space.
    pub fn gravity<V>(&self, world: &World<V>) -> (call: EngineCall)
        requires
            world.wf(),
            self.held_in(world),
        ensures
            world.serves(call),
            call == (EngineCall::SpaceGetGravity { space: self.index() }),
    {
        EngineCall::SpaceGetGravity { space: self.record }
    }

    /// Asks for the damping of the space.
    pub fn damping<V>(&self, world: &World<V>) -> (call: EngineCall)
        requires
            world.wf(),
            self.held_in(world),
        ensures
            world.serves(call),
            call == (EngineCall::SpaceGetScalar {
                space: self.index(),
                attr: SpaceScalar::Damping,
            }),
    {
        EngineCall::SpaceGetScalar { space: self.record, attr: SpaceScalar::Damping }
    }

    /// Asks for the overlap that the space tolerates between shapes.
    pub fn collision_slop<V>(&self, world: &World<V>) -> (call: EngineCall)
        requires
            world.wf(),
            self.held_in(world),
        ensures
            world.serves(call),
            call == (EngineCall::SpaceGetScalar {
                space: self.index(),
                attr: SpaceScalar::CollisionSlop,
            }),
    {
        EngineCall::SpaceGetScalar { space: self.record, attr: SpaceScalar::CollisionSlop }
    }

    /// Asks for the rate at which the space pushes overlapping shapes apart.
    pub fn collision_bias<V>(&self, world: &World<V>) -> (call: EngineCall)
        requires
            world.wf(),
            self.held_in(world),
        ensures
            world.serves(call),
            call == (EngineCall::SpaceGetScalar {
                space: self.index(),
                attr: SpaceScalar::CollisionBias,
            }),
    {
        EngineCall::SpaceGetScalar { space: self.record, attr: SpaceScalar::CollisionBias }
    }

    /// Asks for the speed under which a body counts as idle.
    pub fn idle_speed_threshold<V>(&self, world: &World<V>) -> (call: EngineCall)
        requires
            world.wf(),
            self.held_in(world),
        ensures
            world.serves(call),
            call == (EngineCall::SpaceGetScalar {
                space: self.index(),
                attr: SpaceScalar::IdleSpeedThreshold,
            }),
    {
        EngineCall::SpaceGetScalar { space: self.record, attr: SpaceScalar::IdleSpeedThreshold }
    }

    /// Asks for the time after which idle bodies fall asleep.
    pub fn sleep_time_threshold<V>(&self, world: &World<V>) -> (call: EngineCall)
        requires
            world.wf(),
            self.held_in(world),
        ensures
            world.serves(call),
            call == (EngineCall::SpaceGetScalar {
                space: self.index(),
                attr: SpaceScalar::SleepTimeThreshold,
            }),
    {
        EngineCall::SpaceGetScalar { space: self.record, attr: SpaceScalar::SleepTimeThreshold }
    }

    /// Asks for the number of steps over which the space keeps a contact.
    pub fn collision_persistence<V>(&self, world: &World<V>) -> (call: EngineCall)
        requires
            world.wf(),
            self.held_in(world),
        ensures
            world.serves(call),
            call == (EngineCall::SpaceGetCollisionPersistence { space: self.index() }),
    {
        EngineCall::SpaceGetCollisionPersistence { space: self.record }
    }

    /// Asks for the number of passes that the solver makes per step.
    pub fn iterations<V>(&self, world: &World<V>) -> (call: EngineCall)
        requires
            world.wf(),
            self.held_in(world),
        ensures
            world.serves(call),
            call == (EngineCall::SpaceGetIterations { space: self.index() }),
    {
        EngineCall::SpaceGetIterations { space: self.record }
    }

    /// Sets the gravity of the space.
    pub fn set_gravity<V>(&self, world: &World<V>, ax: Scalar, ay: Scalar) -> (call: EngineCall)
        requires
            world.wf(),
            self.held_in(world),
        ensures
            world.serves(call),
            call == (EngineCall::SpaceSetGravity {
                space: self.index(),
                value: (Vect { x: ax, y: ay }),
            }),
    {
        EngineCall::SpaceSetGravity { space: self.record, value: (Vect { x: ax, y: ay }) }
    }

    /// Sets the damping of the space.
    pub fn set_damping<V>(&self, world: &World<V>, damping: Scalar) -> (call: EngineCall)
        requires
            world.wf(),
            self.held_in(world),
        ensures
            world.serves(call),
            call == (EngineCall::SpaceSetScalar {
                space: self.index(),
                attr: SpaceScalar::Damping,
                value: damping,
            }),
    {
        EngineCall::SpaceSetScalar {
            space: self.record,
            attr: SpaceScalar::Damping,
            value: damping,
        }
    }

    /// Sets the overlap that the space tolerates between shapes.
    pub fn set_collision_slop<V>(&self, world: &World<V>, slop: Scalar) -> (call: EngineCall)
        requires
            world.wf(),
            self.held_in(world),
        ensures
            world.serves(call),
            call == (EngineCall::SpaceSetScalar {
                space: self.index(),
                attr: SpaceScalar::CollisionSlop,
                value: slop,
            }),
    {
        EngineCall::SpaceSetScalar {
            space: self.record,
            attr: SpaceScalar::CollisionSlop,
            value: slop,
        }
    }

    /// Sets the rate at which the space pushes overlapping shapes apart.
    pub fn set_collision_bias<V>(&self, world: &World<V>, bias: Scalar) -> (call: EngineCall)
        requires
            world.wf(),
            self.held_in(world),
        ensures
            world.serves(call),
            call == (EngineCall::SpaceSetScalar {
                space: self.index(),
                attr: SpaceScalar::CollisionBias,
                value: bias,
            }),
    {
        EngineCall::SpaceSetScalar {
            space: self.record,
            attr: SpaceScalar::CollisionBias,
            value: bias,
        }
    }

    /// Sets the speed under which a body counts as idle.
    pub fn set_idle_speed_threshold<V>(&self, world: &World<V>, threshold: Scalar) -> (call: EngineCall)
        requires
            world.wf(),
            self.held_in(world),
        ensures
            world.serves(call),
            call == (EngineCall::SpaceSetScalar {
                space: self.index(),
                attr: SpaceScalar::IdleSpeedThreshold,
                value: threshold,
            }),
    {
        EngineCall::SpaceSetScalar {
            space: self.record,
            attr: SpaceScalar::IdleSpeedThreshold,
            value: threshold,
        }
    }

    /// Sets the time after which idle bodies fall asleep.
    pub fn set_sleep_time_threshold<V>(&self, world: &World<V>, threshold: Scalar) -> (call: EngineCall)
        requires
            world.wf(),
            self.held_in(world),
        ensures
            world.serves(call),
            call == (EngineCall::SpaceSetScalar {
                space: self.index(),
                attr: SpaceScalar::SleepTimeThreshold,
                value: threshold,
            }),
    {
        EngineCall::SpaceSetScalar {
            space: self.record,
            attr: SpaceScalar::SleepTimeThreshold,
            value: threshold,
        }
    }

    /// Sets the number of steps over which the space keeps a contact.
    pub fn set_collision_persistence<V>(&self, world: &World<V>, persistence: u32) -> (call: EngineCall)
        requires
            world.wf(),
            self.held_in(world),
        ensures
            world.serves(call),
            call == (EngineCall::SpaceSetCollisionPersistence {
                space: self.index(),
                value: persistence,
            }),
    {
        EngineCall::SpaceSetCollisionPersistence { space: self.record, value: persistence }
    }

    /// Sets the number of passes that the solver makes per step. The number
    /// goes to the engine as it is.
    pub fn set_iterations<V>(&self, world: &World<V>, iterations: i32) -> (call: EngineCall)
        requires
            world.wf(),
            self.held_in(world),
        ensures
            world.serves(call),
            call == (EngineCall::SpaceSetIterations { space: self.index(), value: iterations }),
    {
        EngineCall::SpaceSetIterations { space: self.record, value: iterations }
    }
}

impl Space {
    /// Handles that alias one record are one space: what is stored through
    /// one of them is found through the other, and both name the same
    /// record to the engine, so that what one sets the other reads.
    pub proof fn lemma_alias_sees_change<V>(
        &self,
        alias: &Space,
        world: &World<V>,
        tag: TypeTag,
        val: V,
    )
        requires
            alias.index() == self.index(),
            world.spaces@[self.index() as int].slot.held == Some((tag, val)),
        ensures
            world.spaces@[alias.index() as int].slot.lookup(tag) == Some(val),
            self.held_in(world) ==> alias.held_in(world),
            forall|attr: SpaceScalar|
                (EngineCall::SpaceGetScalar { space: alias.index(), attr }) == (EngineCall::SpaceGetScalar {
                    space: self.index(),
                    attr,
                }),
    {
    }
}

} // verus!
