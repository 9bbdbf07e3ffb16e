//! Handles on shape records.

use vstd::prelude::*;
use crate::body::Body;
use crate::engine::{EngineCall, ShapeScalar};
use crate::scalar::{Scalar, Vect};
use crate::user_data::{Slot, TypeTag, UserData};
use crate::world::{
    body_attached, body_held, carries, settled_body, settled_shape, shape_held, shape_registered,
    ShapeForm, ShapeRecord, World,
};

verus! {

/// A handle on the record of a convex polygon.
pub struct PolyShape {
    record: usize,
}

/// A handle on the record of a circle.
pub struct CircleShape {
    record: usize,
}

/// A handle on the record of a segment.
pub struct SegmentShape {
    record: usize,
}

/// A handle on one shape record, by the geometry it was made with.
///
/// A shape is made on a body and stays on it: as long as the shape record
/// exists, so does the record of its body, whatever becomes of the handle
/// that the shape was made from.
pub enum Shape {
    Poly(PolyShape),
    Circle(CircleShape),
    Segment(SegmentShape),
}

impl PolyShape {
    /// The index of the record that this handle aliases.
    pub closed spec fn index(&self) -> usize {
        self.record
    }
}

impl CircleShape {
    /// The index of the record that this handle aliases.
    pub closed spec fn index(&self) -> usize {
        self.record
    }
}

impl SegmentShape {
    /// The index of the record that this handle aliases.
    pub closed spec fn index(&self) -> usize {
        self.record
    }
}

impl Shape {
    /// The index of the record that this handle aliases.
    pub open spec fn index(&self) -> usize {
        match self {
            Shape::Poly(p) => p.index(),
            Shape::Circle(c) => c.index(),
            Shape::Segment(s) => s.index(),
        }
    }

    /// The geometry that this handle stands for.
    pub open spec fn form(&self) -> ShapeForm {
        match self {
            Shape::Poly(_) => ShapeForm::Poly,
            Shape::Circle(_) => ShapeForm::Circle,
            Shape::Segment(_) => ShapeForm::Segment,
        }
    }

    /// The handle is one of those counted on a record of `world`, and the
    /// record has the geometry that the handle stands for.
    pub open spec fn held_in<V>(&self, world: &World<V>) -> bool {
        &&& self.index() < world.shapes@.len()
        &&& world.shapes@[self.index() as int].handles > 0
        &&& world.shapes@[self.index() as int].form == self.form()
    }

    /// The record of a shape that was just made on `body`, with its first handle.
    pub open spec fn fresh_record<V>(body: usize, form: ShapeForm) -> ShapeRecord<V> {
        ShapeRecord { handles: 1, live: true, body, form, slot: Slot { held: None } }
    }

    fn handle(record: usize, form: ShapeForm) -> (r: Shape)
        ensures
            r.index() == record,
            r.form() == form,
    {
        match form {
            ShapeForm::Poly => Shape::Poly(PolyShape { record }),
            ShapeForm::Circle => Shape::Circle(CircleShape { record }),
            ShapeForm::Segment => Shape::Segment(SegmentShape { record }),
        }
    }

    fn create<V>(world: &mut World<V>, body: &Body, form: ShapeForm) -> (r: Shape)
        requires
            old(world).wf(),
            body.held_in(old(world)),
        ensures
            final(world).wf(),
            r.index() == old(world).shapes@.len(),
            r.form() == form,
            r.held_in(final(world)),
            body.held_in(final(world)),
            final(world).shapes@ == old(world).shapes@.push(Self::fresh_record(body.index(), form)),
            final(world).bodies@ == old(world).bodies@,
            final(world).spaces@ == old(world).spaces@,
    {
        let record = world.shapes.len();
        let on = body.get_cp_body();
        world.shapes.push(ShapeRecord { handles: 1, live: true, body: on, form, slot: Slot::empty() });
        proof {
            let shapes0 = old(world).shapes@;
            let shapes1 = world.shapes@;
            assert(body_held(old(world).bodies@, shapes0, old(world).spaces@, on as int));
            assert forall|s: int| 0 <= s < shapes1.len() implies (shape_held(shapes1, world.spaces@, s) <==> (
            #[trigger] shapes1[s]).live) by {
                if s < shapes0.len() {
                    assert(shapes1[s] == shapes0[s]);
                    assert(shape_held(shapes1, world.spaces@, s) == shape_held(
                        shapes0,
                        old(world).spaces@,
                        s,
                    ));
                }
            }
            assert forall|b: int| 0 <= b < world.bodies@.len() implies (body_held(
                world.bodies@,
                shapes1,
                world.spaces@,
                b,
            ) <==> (#[trigger] world.bodies@[b]).live) by {
                if body_attached(shapes1, b) {
                    let w = choose|w: int| carries(shapes1, w, b);
                    if w < shapes0.len() {
                        assert(carries(shapes0, w, b));
                    }
                }
                if body_attached(shapes0, b) {
                    let w = choose|w: int| carries(shapes0, w, b);
                    assert(carries(shapes1, w, b));
                }
                assert(body_held(old(world).bodies@, shapes0, old(world).spaces@, b) ==> old(
                    world,
                ).bodies@[b].live);
            }
        }
        Self::handle(record, form)
    }

    /// Makes a segment from `start` to `end` on `body`, and the first handle on it.
    pub fn new_segment<V>(world: &mut World<V>, body: &Body, start: Vect, end: Vect, radius: Scalar) -> (r: (
        Shape,
        Vec<EngineCall>,
    ))
        requires
            old(world).wf(),
            body.held_in(old(world)),
        ensures
            forall|i: int| 0 <= i < r.1@.len() ==> final(world).serves(#[trigger] r.1@[i]),
            final(world).wf(),
            r.0 is Segment,
            r.0.index() == old(world).shapes@.len(),
            r.0.held_in(final(world)),
            body.held_in(final(world)),
            final(world).shapes@ == old(world).shapes@.push(
                Self::fresh_record(body.index(), ShapeForm::Segment),
            ),
            final(world).bodies@ == old(world).bodies@,
            final(world).spaces@ == old(world).spaces@,
            r.1@ == seq![
                EngineCall::SegmentShapeInit {
                    shape: r.0.index(),
                    body: body.index(),
                    a: start,
                    b: end,
                    radius,
                },
            ],
    {
        let shape = Self::create(world, body, ShapeForm::Segment);
        let mut calls: Vec<EngineCall> = Vec::new();
        calls.push(
            EngineCall::SegmentShapeInit {
                shape: shape.get_cp_shape(),
                body: body.get_cp_body(),
                a: start,
                b: end,
                radius,
            },
        );
        assert(calls@ =~= seq![
            EngineCall::SegmentShapeInit {
                shape: shape.index(),
                body: body.index(),
                a: start,
                b: end,
                radius,
            },
        ]);
        (shape, calls)
    }

    /// Makes a circle around `offset` on `body`, and the first handle on it.
    pub fn new_circle<V>(world: &mut World<V>, body: &Body, radius: Scalar, offset: Vect) -> (r: (
        Shape,
        Vec<EngineCall>,
    ))
        requires
            old(world).wf(),
            body.held_in(old(world)),
        ensures
            forall|i: int| 0 <= i < r.1@.len() ==> final(world).serves(#[trigger] r.1@[i]),
            final(world).wf(),
            r.0 is Circle,
            r.0.index() == old(world).shapes@.len(),
            r.0.held_in(final(world)),
            body.held_in(final(world)),
            final(world).shapes@ == old(world).shapes@.push(
                Self::fresh_record(body.index(), ShapeForm::Circle),
            ),
            final(world).bodies@ == old(world).bodies@,
            final(world).spaces@ == old(world).spaces@,
            r.1@ == seq![
                EngineCall::CircleShapeInit { shape: r.0.index(), body: body.index(), radius, offset },
            ],
    {
        let shape = Self::create(world, body, ShapeForm::Circle);
        let mut calls: Vec<EngineCall> = Vec::new();
        calls.push(
            EngineCall::CircleShapeInit {
                shape: shape.get_cp_shape(),
                body: body.get_cp_body(),
                radius,
                offset,
            },
        );
        assert(calls@ =~= seq![
            EngineCall::CircleShapeInit { shape: shape.index(), body: body.index(), radius, offset },
        ]);
        (shape, calls)
    }

    /// Makes a convex polygon from its vertices on `body`, and the first
    /// handle on it. The vertices go to the engine as they are, in order.
    pub fn new_poly<V>(world: &mut World<V>, body: &Body, points: Vec<Vect>, radius: Scalar) -> (r: (
        Shape,
        Vec<EngineCall>,
    ))
        requires
            old(world).wf(),
            body.held_in(old(world)),
            points@.len() <= i32::MAX,
        ensures
            forall|i: int| 0 <= i < r.1@.len() ==> final(world).serves(#[trigger] r.1@[i]),
            final(world).wf(),
            r.0 is Poly,
            r.0.index() == old(world).shapes@.len(),
            r.0.held_in(final(world)),
            body.held_in(final(world)),
            final(world).shapes@ == old(world).shapes@.push(
                Self::fresh_record(body.index(), ShapeForm::Poly),
            ),
            final(world).bodies@ == old(world).bodies@,
            final(world).spaces@ == old(world).spaces@,
            r.1@ == seq![
                EngineCall::PolyShapeInit { shape: r.0.index(), body: body.index(), verts: points, radius },
            ],
    {
        let shape = Self::create(world, body, ShapeForm::Poly);
        let mut calls: Vec<EngineCall> = Vec::new();
        calls.push(
            EngineCall::PolyShapeInit {
                shape: shape.get_cp_shape(),
                body: body.get_cp_body(),
                verts: points,
                radius,
            },
        );
        assert(calls@ =~= seq![
            EngineCall::PolyShapeInit { shape: shape.index(), body: body.index(), verts: points, radius },
        ]);
        (shape, calls)
    }

    /// Makes a box of the given width and height, centred on `body`, and the
    /// first handle on it. A box is a polygon.
    pub fn new_box<V>(world: &mut World<V>, body: &Body, width: Scalar, height: Scalar, radius: Scalar) -> (r: (
        Shape,
        Vec<EngineCall>,
    ))
        requires
            old(world).wf(),
            body.held_in(old(world)),
        ensures
            forall|i: int| 0 <= i < r.1@.len() ==> final(world).serves(#[trigger] r.1@[i]),
            final(world).wf(),
            r.0 is Poly,
            r.0.index() == old(world).shapes@.len(),
            r.0.held_in(final(world)),
            body.held_in(final(world)),
            final(world).shapes@ == old(world).shapes@.push(
                Self::fresh_record(body.index(), ShapeForm::Poly),
            ),
            final(world).bodies@ == old(world).bodies@,
            final(world).spaces@ == old(world).spaces@,
            r.1@ == seq![
                EngineCall::BoxShapeInit {
                    shape: r.0.index(),
                    body: body.index(),
                    width,
                    height,
                    radius,
                },
            ],
    {
        let shape = Self::create(world, body, ShapeForm::Poly);
        let mut calls: Vec<EngineCall> = Vec::new();
        calls.push(
            EngineCall::BoxShapeInit {
                shape: shape.get_cp_shape(),
                body: body.get_cp_body(),
                width,
                height,
                radius,
            },
        );
        assert(calls@ =~= seq![
            EngineCall::BoxShapeInit { shape: shape.index(), body: body.index(), width, height, radius },
        ]);
        (shape, calls)
    }

    /// The index under which the engine record of this shape is kept.
    pub fn get_cp_shape(&self) -> (r: usize)
        ensures
            r == self.index(),
    {
        match self {
            Shape::Poly(p) => p.record,
            Shape::Circle(c) => c.record,
            Shape::Segment(s) => s.record,
        }
    }

    /// The index under which the engine record of this shape is kept, for a
    /// caller that is about to change the record.
    pub fn get_cp_shape_mut(&mut self) -> (r: usize)
        ensures
            r == old(self).index(),
            *final(self) == *old(self),
    {
        self.get_cp_shape()
    }

    /// The geometry that this handle stands for.
    pub fn get_form(&self) -> (r: ShapeForm)
        ensures
            r == self.form(),
    {
        match self {
            Shape::Poly(_) => ShapeForm::Poly,
            Shape::Circle(_) => ShapeForm::Circle,
            Shape::Segment(_) => ShapeForm::Segment,
        }
    }

    /// Whether this handle is counted on a record of `world` that has the
    /// geometry that the handle stands for.
    pub fn is_held_in<V>(&self, world: &World<V>) -> (r: bool)
        ensures
            r == self.held_in(world),
    {
        let record = self.get_cp_shape();
        record < world.shapes.len() && world.shapes[record].handles > 0 && world.shapes[record].form
            == self.get_form()
    }

    /// Whether another handle can still be counted on the record.
    pub fn can_duplicate<V>(&self, world: &World<V>) -> (r: bool)
        requires
            self.held_in(world),
        ensures
            r == (world.shapes@[self.index() as int].handles < usize::MAX),
    {
        world.shapes[self.get_cp_shape()].handles < usize::MAX
    }

    /// Makes another handle on the same record, of the same geometry.
    pub fn duplicate<V>(&self, world: &mut World<V>) -> (r: Shape)
        requires
            old(world).wf(),
            self.held_in(old(world)),
            old(world).shapes@[self.index() as int].handles < usize::MAX,
        ensures
            final(world).wf(),
            r.index() == self.index(),
            r.form() == self.form(),
            r.held_in(final(world)),
            self.held_in(final(world)),
            final(world).shapes@ == old(world).shapes@.update(
                self.index() as int,
                (ShapeRecord {
                    handles: (old(world).shapes@[self.index() as int].handles + 1) as usize,
                    ..old(world).shapes@[self.index() as int]
                }),
            ),
            final(world).bodies@ == old(world).bodies@,
            final(world).spaces@ == old(world).spaces@,
    {
        let record = self.get_cp_shape();
        world.shapes[record].handles = world.shapes[record].handles + 1;
        proof {
            let shapes0 = old(world).shapes@;
            let shapes1 = world.shapes@;
            assert(shapes1 =~= shapes0.update(
                record as int,
                (ShapeRecord { handles: (shapes0[record as int].handles + 1) as usize, ..shapes0[record as int] }),
            ));
            assert forall|s: int| 0 <= s < shapes1.len() implies (shape_held(shapes1, world.spaces@, s) <==> (
            #[trigger] shapes1[s]).live) by {
                assert(shapes0[s].live == shapes1[s].live);
                assert(shape_held(shapes0, world.spaces@, s) ==> shape_held(shapes1, world.spaces@, s));
                assert(shape_held(shapes0, old(world).spaces@, s) <==> shapes0[s].live);
            }
            assert forall|b: int| 0 <= b < world.bodies@.len() implies (body_held(
                world.bodies@,
                shapes1,
                world.spaces@,
                b,
            ) <==> (#[trigger] world.bodies@[b]).live) by {
                if body_attached(shapes1, b) {
                    let w = choose|w: int| carries(shapes1, w, b);
                    assert(shapes0[w].live == shapes1[w].live);
                    assert(carries(shapes0, w, b));
                }
                if body_attached(shapes0, b) {
                    let w = choose|w: int| carries(shapes0, w, b);
                    assert(shapes0[w].live == shapes1[w].live);
                    assert(carries(shapes1, w, b));
                }
                assert(body_held(old(world).bodies@, shapes0, old(world).spaces@, b) <==> old(
                    world,
                ).bodies@[b].live);
            }
        }
        Self::handle(record, self.get_form())
    }

    /// Gives this handle up. The shape record is torn down when this was its
    /// last handle and no living space has the shape registered; the record
    /// of its body follows when the shape was all that kept it alive.
    /// Nothing else changes.
    pub fn release<V>(self, world: &mut World<V>) -> (calls: Vec<EngineCall>)
        requires
            old(world).wf(),
            self.held_in(old(world)),
        ensures
            forall|i: int| 0 <= i < calls@.len() ==> old(world).serves(#[trigger] calls@[i]),
            final(world).wf(),
            final(world).spaces@ == old(world).spaces@,
            final(world).shapes@ == old(world).shapes@.update(
                self.index() as int,
                settled_shape(
                    (ShapeRecord {
                        handles: (old(world).shapes@[self.index() as int].handles - 1) as usize,
                        ..old(world).shapes@[self.index() as int]
                    }),
                    old(world).shapes@[self.index() as int].handles > 1 || shape_registered(
                        old(world).spaces@,
                        self.index() as int,
                    ),
                ),
            ),
            final(world).bodies@ == old(world).bodies@.update(
                old(world).shapes@[self.index() as int].body as int,
                settled_body(
                    old(world).bodies@[old(world).shapes@[self.index() as int].body as int],
                    body_held(
                        old(world).bodies@,
                        final(world).shapes@,
                        old(world).spaces@,
                        old(world).shapes@[self.index() as int].body as int,
                    ),
                ),
            ),
            calls@ == (if final(world).shapes@[self.index() as int].live {
                Seq::<EngineCall>::empty()
            } else {
                seq![EngineCall::ShapeDestroy { shape: self.index() }]
            }) + (if final(world).bodies@[old(world).shapes@[self.index() as int].body as int].live {
                Seq::<EngineCall>::empty()
            } else {
                seq![EngineCall::BodyDestroy { body: old(world).shapes@[self.index() as int].body }]
            }),
    {
        let record = self.get_cp_shape();
        let on = world.shapes[record].body;
        let ghost shapes0 = old(world).shapes@;
        let ghost bodies0 = old(world).bodies@;
        let ghost spaces0 = old(world).spaces@;
        proof {
            assert(shape_held(shapes0, spaces0, record as int));
            assert(shapes0[record as int].live);
            assert(carries(shapes0, record as int, on as int));
            assert(body_held(bodies0, shapes0, spaces0, on as int));
        }
        world.shapes[record].handles = world.shapes[record].handles - 1;
        let mut calls: Vec<EngineCall> = Vec::new();
        let held = world.shapes[record].handles > 0 || world.shape_is_registered(record);
        if !held {
            world.shapes[record].live = false;
            world.shapes[record].slot.clear();
            calls.push(EngineCall::ShapeDestroy { shape: record });
            let kept = world.bodies[on].handles > 0 || world.body_is_attached(on) || world.body_is_registered(
                on,
            );
            if !kept {
                world.bodies[on].live = false;
                world.bodies[on].slot.clear();
                calls.push(EngineCall::BodyDestroy { body: on });
            }
        }
        proof {
            let shapes2 = world.shapes@;
            assert(shapes2 =~= shapes0.update(record as int, shapes2[record as int]));
            assert(world.bodies@ =~= bodies0.update(on as int, world.bodies@[on as int]));
            assert forall|s: int| 0 <= s < shapes2.len() implies (shape_held(shapes2, spaces0, s) <==> (
            #[trigger] shapes2[s]).live) && (shapes2[s].live || shapes2[s].slot.held is None) by {
                if s != record {
                    assert(shapes2[s] == shapes0[s]);
                    assert(shape_held(shapes0, spaces0, s) <==> shapes0[s].live);
                }
            }
            assert forall|b: int| 0 <= b < bodies0.len() && b != on implies body_attached(shapes2, b)
                == body_attached(shapes0, b) by {
                if body_attached(shapes2, b) {
                    let w = choose|w: int| carries(shapes2, w, b);
                    assert(w != record);
                    assert(shapes2[w] == shapes0[w]);
                    assert(carries(shapes0, w, b));
                }
                if body_attached(shapes0, b) {
                    let w = choose|w: int| carries(shapes0, w, b);
                    assert(w != record);
                    assert(shapes2[w] == shapes0[w]);
                    assert(carries(shapes2, w, b));
                }
            }
            if held {
                assert(carries(shapes2, record as int, on as int));
            }
            assert forall|b: int| 0 <= b < world.bodies@.len() implies (body_held(
                world.bodies@,
                shapes2,
                spaces0,
                b,
            ) <==> (#[trigger] world.bodies@[b]).live) && (world.bodies@[b].live
                || world.bodies@[b].slot.held is None) by {
                if b != on {
                    assert(world.bodies@[b] == bodies0[b]);
                    assert(body_held(bodies0, shapes0, spaces0, b) <==> bodies0[b].live);
                }
            }
            if held {
                assert(calls@ =~= Seq::<EngineCall>::empty() + Seq::<EngineCall>::empty());
            } else if world.bodies@[on as int].live {
                assert(calls@ =~= seq![EngineCall::ShapeDestroy { shape: record }] + Seq::<EngineCall>::empty());
            } else {
                assert(calls@ =~= seq![EngineCall::ShapeDestroy { shape: record }] + seq![
                    EngineCall::BodyDestroy { body: on },
                ]);
            }
        }
        calls
    }

    /// The extension data of the shape that was stored under `tag`; nothing
    /// when none was stored or it was stored under another tag.
    pub fn user_data<'a, V>(&self, world: &'a World<V>, tag: TypeTag) -> (r: Option<&'a V>)
        requires
            self.held_in(world),
        ensures
            r == match world.shapes@[self.index() as int].slot.lookup(tag) {
                Some(v) => Some(&v),
                None => None,
            },
    {
        world.shapes[self.get_cp_shape()].user_data(tag)
    }

    /// Stores `val` under `tag` as the extension data of the shape, in place
    /// of whatever was stored. Every handle on the shape sees it.
    pub fn set_user_data<V>(&self, world: &mut World<V>, tag: TypeTag, val: V)
        requires
            old(world).wf(),
            self.held_in(old(world)),
        ensures
            final(world).wf(),
            self.held_in(final(world)),
            final(world).shapes@.len() == old(world).shapes@.len(),
            forall|i: int|
                0 <= i < old(world).shapes@.len() && i != self.index() ==> final(world).shapes@[i] == old(
                    world,
                ).shapes@[i],
            old(world).shapes@[self.index() as int].same_entity(&final(world).shapes@[self.index() as int]),
            final(world).shapes@[self.index() as int].slot.held == Some((tag, val)),
            final(world).bodies@ == old(world).bodies@,
            final(world).spaces@ == old(world).spaces@,
    {
        let record = self.get_cp_shape();
        proof {
            assert(shape_held(old(world).shapes@, old(world).spaces@, self.index() as int));
        }
        world.shapes[record].set_user_data(tag, val);
        proof {
            old(world).lemma_slots_apart(world);
        }
    }

    /// Mutable access to the extension data of the shape that was stored
    /// under `tag`; nothing when none was stored or it was stored under
    /// another tag.
    pub fn user_data_mut<'a, V>(&self, world: &'a mut World<V>, tag: TypeTag) -> (r: Option<&'a mut V>)
        requires
            old(world).wf(),
            self.held_in(old(world)),
        ensures
            final(world).wf(),
            self.held_in(final(world)),
            final(world).shapes@.len() == old(world).shapes@.len(),
            forall|i: int|
                0 <= i < old(world).shapes@.len() && i != self.index() ==> final(world).shapes@[i] == old(
                    world,
                ).shapes@[i],
            old(world).shapes@[self.index() as int].same_entity(&final(world).shapes@[self.index() as int]),
            final(world).bodies@ == old(world).bodies@,
            final(world).spaces@ == old(world).spaces@,
            match r {
                Some(v) => old(world).shapes@[self.index() as int].slot.lookup(tag) == Some(*v)
                    && final(world).shapes@[self.index() as int].slot.held == Some((tag, *final(v))),
                None => old(world).shapes@[self.index() as int].slot.lookup(tag) is None
                    && final(world).shapes@[self.index() as int].slot == old(world).shapes@[self.index() as int].slot,
            },
    {
        let record = self.get_cp_shape();
        proof {
            assert(shape_held(old(world).shapes@, old(world).spaces@, self.index() as int));
        }
        assert(old(world).same_but_slots(final(world)) ==> final(world).wf()) by {
            if old(world).same_but_slots(final(world)) {
                old(world).lemma_slots_apart(final(world));
            }
        }
        world.shapes[record].user_data_mut(tag)
    }
}

impl Shape {
    /// A record that a handle is counted on exists, and so does the record
    /// of the body that the shape was made on.
    pub proof fn lemma_held_is_live<V>(&self, world: &World<V>)
        requires
            world.wf(),
            self.held_in(world),
        ensures
            world.shapes@[self.index() as int].live,
            world.shapes@[self.index() as int].body < world.bodies@.len(),
            world.bodies@[world.shapes@[self.index() as int].body as int].live,
    {
        let s = self.index() as int;
        let b = world.shapes@[s].body as int;
        assert(shape_held(world.shapes@, world.spaces@, s));
        assert(world.shapes@[s].live);
        assert(carries(world.shapes@, s, b));
        assert(body_held(world.bodies@, world.shapes@, world.spaces@, b));
    }

    /// Asks for the density of the shape.
    pub fn density<V>(&self, world: &World<V>) -> (call: EngineCall)
        requires
            world.wf(),
            self.held_in(world),
        ensures
            world.serves(call),
            call == (EngineCall::ShapeGetScalar {
                shape: self.index(),
                attr: ShapeScalar::Density,
            }),
    {
        EngineCall::ShapeGetScalar { shape: self.get_cp_shape(), attr: ShapeScalar::Density }
    }

    /// Asks for the elasticity of the shape.
    pub fn elasticity<V>(&self, world: &World<V>) -> (call: EngineCall)
        requires
            world.wf(),
            self.held_in(world),
        ensures
            world.serves(call),
            call == (EngineCall::ShapeGetScalar {
                shape: self.index(),
                attr: ShapeScalar::Elasticity,
            }),
    {
        EngineCall::ShapeGetScalar { shape: self.get_cp_shape(), attr: ShapeScalar::Elasticity }
    }

    /// Asks for the friction of the shape.
    pub fn friction<V>(&self, world: &World<V>) -> (call: EngineCall)
        requires
            world.wf(),
            self.held_in(world),
        ensures
            world.serves(call),
            call == (EngineCall::ShapeGetScalar {
                shape: self.index(),
                attr: ShapeScalar::Friction,
            }),
    {
        EngineCall::ShapeGetScalar { shape: self.get_cp_shape(), attr: ShapeScalar::Friction }
    }

    /// Asks for the mass of the shape.
    pub fn mass<V>(&self, world: &World<V>) -> (call: EngineCall)
        requires
            world.wf(),
            self.held_in(world),
        ensures
            world.serves(call),
            call == (EngineCall::ShapeGetScalar { shape: self.index(), attr: ShapeScalar::Mass }),
    {
        EngineCall::ShapeGetScalar { shape: self.get_cp_shape(), attr: ShapeScalar::Mass }
    }

    /// Asks whether the shape is a sensor: one that detects contacts and
    /// takes no part in their resolution. `sensor_of` reads the answer.
    pub fn is_sensor<V>(&self, world: &World<V>) -> (call: EngineCall)
        requires
            world.wf(),
            self.held_in(world),
        ensures
            world.serves(call),
            call == (EngineCall::ShapeGetSensor { shape: self.index() }),
    {
        EngineCall::ShapeGetSensor { shape: self.get_cp_shape() }
    }

    /// Asks for the velocity of the surface of the shape.
    pub fn surface_velocity<V>(&self, world: &World<V>) -> (call: EngineCall)
        requires
            world.wf(),
            self.held_in(world),
        ensures
            world.serves(call),
            call == (EngineCall::ShapeGetSurfaceVelocity { shape: self.index() }),
    {
        EngineCall::ShapeGetSurfaceVelocity { shape: self.get_cp_shape() }
    }

    /// Sets the density of the shape.
    pub fn set_density<V>(&self, world: &World<V>, density: Scalar) -> (call: EngineCall)
        requires
            world.wf(),
            self.held_in(world),
        ensures
            world.serves(call),
            call == (EngineCall::ShapeSetScalar {
                shape: self.index(),
                attr: ShapeScalar::Density,
                value: density,
            }),
    {
        EngineCall::ShapeSetScalar {
            shape: self.get_cp_shape(),
            attr: ShapeScalar::Density,
            value: density,
        }
    }

    /// Sets the elasticity of the shape.
    pub fn set_elasticity<V>(&self, world: &World<V>, elasticity: Scalar) -> (call: EngineCall)
        requires
            world.wf(),
            self.held_in(world),
        ensures
            world.serves(call),
            call == (EngineCall::ShapeSetScalar {
                shape: self.index(),
                attr: ShapeScalar::Elasticity,
                value: elasticity,
            }),
    {
        EngineCall::ShapeSetScalar {
            shape: self.get_cp_shape(),
            attr: ShapeScalar::Elasticity,
            value: elasticity,
        }
    }

    /// Sets the friction of the shape. The elasticity stays as it is.
    pub fn set_friction<V>(&self, world: &World<V>, friction: Scalar) -> (call: EngineCall)
        requires
            world.wf(),
            self.held_in(world),
        ensures
            world.serves(call),
            call == (EngineCall::ShapeSetScalar {
                shape: self.index(),
                attr: ShapeScalar::Friction,
                value: friction,
            }),
    {
        EngineCall::ShapeSetScalar {
            shape: self.get_cp_shape(),
            attr: ShapeScalar::Friction,
            value: friction,
        }
    }

    /// Sets the mass of the shape.
    pub fn set_mass<V>(&self, world: &World<V>, mass: Scalar) -> (call: EngineCall)
        requires
            world.wf(),
            self.held_in(world),
        ensures
            world.serves(call),
            call == (EngineCall::ShapeSetScalar {
                shape: self.index(),
                attr: ShapeScalar::Mass,
                value: mass,
            }),
    {
        EngineCall::ShapeSetScalar {
            shape: self.get_cp_shape(),
            attr: ShapeScalar::Mass,
            value: mass,
        }
    }

    /// The flag by which the engine is told whether a shape is a sensor.
    pub open spec fn sensor_flag(is_sensor: bool) -> u8 {
        if is_sensor {
            1
        } else {
            0
        }
    }

    /// Makes the shape a sensor, or a solid shape again.
    pub fn set_sensor<V>(&self, world: &World<V>, is_sensor: bool) -> (call: EngineCall)
        requires
            world.wf(),
            self.held_in(world),
        ensures
            world.serves(call),
            call == (EngineCall::ShapeSetSensor {
                shape: self.index(),
                flag: Self::sensor_flag(is_sensor),
            }),
    {
        let flag: u8 = if is_sensor {
            1
        } else {
            0
        };
        EngineCall::ShapeSetSensor { shape: self.get_cp_shape(), flag }
    }

    /// Reads the answer of the engine to `is_sensor`: any flag but zero
    /// means that the shape is a sensor.
    pub fn sensor_of(flag: u8) -> (r: bool)
        ensures
            r == (flag != 0),
    {
        flag != 0
    }

    /// Sets the velocity of the surface of the shape.
    pub fn set_surface_velocity<V>(&self, world: &World<V>, surface_velocity: Vect) -> (call: EngineCall)
        requires
            world.wf(),
            self.held_in(world),
        ensures
            world.serves(call),
            call == (EngineCall::ShapeSetSurfaceVelocity {
                shape: self.index(),
                value: surface_velocity,
            }),
    {
        EngineCall::ShapeSetSurfaceVelocity { shape: self.get_cp_shape(), value: surface_velocity }
    }
}

impl PolyShape {
    /// The handle is one of those counted on a record of `world`, and the
    /// record is that of a poly.
    pub open spec fn held_in<V>(&self, world: &World<V>) -> bool {
        &&& self.index() < world.shapes@.len()
        &&& world.shapes@[self.index() as int].handles > 0
        &&& world.shapes@[self.index() as int].form == ShapeForm::Poly
    }

    /// Whether this handle is counted on a record of `world` that is that
    /// of a poly.
    pub fn is_held_in<V>(&self, world: &World<V>) -> (r: bool)
        ensures
            r == self.held_in(world),
    {
        self.record < world.shapes.len() && world.shapes[self.record].handles > 0 && match world.shapes[self.record].form {
            ShapeForm::Poly => true,
            _ => false,
        }
    }

    /// Asks for the number of vertices of the polygon.
    pub fn count<V>(&self, world: &World<V>) -> (call: EngineCall)
        requires
            world.wf(),
            self.held_in(world),
        ensures
            world.serves(call),
            call == (EngineCall::PolyShapeGetCount { shape: self.index() }),
    {
        EngineCall::PolyShapeGetCount { shape: self.record }
    }

    /// Asks for the radius by which the corners of the polygon are rounded.
    pub fn radius<V>(&self, world: &World<V>) -> (call: EngineCall)
        requires
            world.wf(),
            self.held_in(world),
        ensures
            world.serves(call),
            call == (EngineCall::PolyShapeGetRadius { shape: self.index() }),
    {
        EngineCall::PolyShapeGetRadius { shape: self.record }
    }

    /// Asks for vertex `i` of the polygon. The engine counts vertices in 32
    /// bits.
    pub fn vert<V>(&self, world: &World<V>, i: usize) -> (call: EngineCall)
        requires
            world.wf(),
            self.held_in(world),
            i <= i32::MAX,
        ensures
            world.serves(call),
            call == (EngineCall::PolyShapeGetVert { shape: self.index(), index: i as i32 }),
    {
        EngineCall::PolyShapeGetVert { shape: self.record, index: i as i32 }
    }
}

impl CircleShape {
    /// The handle is one of those counted on a record of `world`, and the
    /// record is that of a circle.
    pub open spec fn held_in<V>(&self, world: &World<V>) -> bool {
        &&& self.index() < world.shapes@.len()
        &&& world.shapes@[self.index() as int].handles > 0
        &&& world.shapes@[self.index() as int].form == ShapeForm::Circle
    }

    /// Whether this handle is counted on a record of `world` that is that
    /// of a circle.
    pub fn is_held_in<V>(&self, world: &World<V>) -> (r: bool)
        ensures
            r == self.held_in(world),
    {
        self.record < world.shapes.len() && world.shapes[self.record].handles > 0 && match world.shapes[self.record].form {
            ShapeForm::Circle => true,
            _ => false,
        }
    }

    /// Asks for the centre of the circle, in the coordinates of its body.
    pub fn offset<V>(&self, world: &World<V>) -> (call: EngineCall)
        requires
            world.wf(),
            self.held_in(world),
        ensures
            world.serves(call),
            call == (EngineCall::CircleShapeGetOffset { shape: self.index() }),
    {
        EngineCall::CircleShapeGetOffset { shape: self.record }
    }

    /// Asks for the radius of the circle.
    pub fn radius<V>(&self, world: &World<V>) -> (call: EngineCall)
        requires
            world.wf(),
            self.held_in(world),
        ensures
            world.serves(call),
            call == (EngineCall::CircleShapeGetRadius { shape: self.index() }),
    {
        EngineCall::CircleShapeGetRadius { shape: self.record }
    }
}

impl SegmentShape {
    /// The handle is one of those counted on a record of `world`, and the
    /// record is that of a segment.
    pub open spec fn held_in<V>(&self, world: &World<V>) -> bool {
        &&& self.index() < world.shapes@.len()
        &&& world.shapes@[self.index() as int].handles > 0
        &&& world.shapes@[self.index() as int].form == ShapeForm::Segment
    }

    /// Whether this handle is counted on a record of `world` that is that
    /// of a segment.
    pub fn is_held_in<V>(&self, world: &World<V>) -> (r: bool)
        ensures
            r == self.held_in(world),
    {
        self.record < world.shapes.len() && world.shapes[self.record].handles > 0 && match world.shapes[self.record].form {
            ShapeForm::Segment => true,
            _ => false,
        }
    }

    /// Asks for the first end of the segment.
    pub fn start<V>(&self, world: &World<V>) -> (call: EngineCall)
        requires
            world.wf(),
            self.held_in(world),
        ensures
            world.serves(call),
            call == (EngineCall::SegmentShapeGetA { shape: self.index() }),
    {
        EngineCall::SegmentShapeGetA { shape: self.record }
    }

    /// Asks for the second end of the segment.
    pub fn end<V>(&self, world: &World<V>) -> (call: EngineCall)
        requires
            world.wf(),
            self.held_in(world),
        ensures
            world.serves(call),
            call == (EngineCall::SegmentShapeGetB { shape: self.index() }),
    {
        EngineCall::SegmentShapeGetB { shape: self.record }
    }

    /// Asks for the normal of the segment, which the engine derives from its two ends.
    pub fn normal<V>(&self, world: &World<V>) -> (call: EngineCall)
        requires
            world.wf(),
            self.held_in(world),
        ensures
            world.serves(call),
            call == (EngineCall::SegmentShapeGetNormal { shape: self.index() }),
    {
        EngineCall::SegmentShapeGetNormal { shape: self.record }
    }

    /// Asks for the thickness of the segment.
    pub fn radius<V>(&self, world: &World<V>) -> (call: EngineCall)
        requires
            world.wf(),
            self.held_in(world),
        ensures
            world.serves(call),
            call == (EngineCall::SegmentShapeGetRadius { shape: self.index() }),
    {
        EngineCall::SegmentShapeGetRadius { shape: self.record }
    }
}

impl Shape {
    /// Handles that alias one record are one shape: what is stored through
    /// one of them is found through the other, and both name the same
    /// record to the engine, so that what one sets the other reads.
    pub proof fn lemma_alias_sees_change<V>(
        &self,
        alias: &Shape,
        world: &World<V>,
        tag: TypeTag,
        val: V,
    )
        requires
            alias.index() == self.index(),
            alias.form() == self.form(),
            world.shapes@[self.index() as int].slot.held == Some((tag, val)),
        ensures
            world.shapes@[alias.index() as int].slot.lookup(tag) == Some(val),
            self.held_in(world) ==> alias.held_in(world),
            forall|attr: ShapeScalar|
                (EngineCall::ShapeGetScalar { shape: alias.index(), attr }) == (EngineCall::ShapeGetScalar {
                    shape: self.index(),
                    attr,
                }),
    {
    }
}

} // verus!
