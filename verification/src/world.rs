//! The records behind the handles, and what keeps each of them alive.
//!
//! A body record is kept alive by the handles that the application holds on
//! it, by every living shape that was made on it, and by every living space
//! that it is registered in. A shape record is kept alive by its handles and
//! by the living spaces that it is registered in. A space record is kept
//! alive by its handles alone. A record is torn down as soon as nothing
//! keeps it alive, never earlier, and never twice.

use vstd::prelude::*;
use crate::engine::{BodyKind, EngineCall};
use crate::user_data::{Slot, UserData};
use void::Void;

verus! {

/// What the layer keeps for one body record of the engine.
pub struct BodyRecord<V> {
    /// Handles that the application holds on this record.
    pub handles: usize,
    /// Whether the engine record exists: initialised and not yet torn down.
    pub live: bool,
    /// The kind that the body was made with.
    pub kind: BodyKind,
    /// The extension data of the body.
    pub slot: Slot<V>,
}

/// The geometry that a shape record was made with.
#[derive(Clone, Copy, Debug, PartialEq, Eq, Structural)]
pub enum ShapeForm {
    Poly,
    Circle,
    Segment,
}

/// What the layer keeps for one shape record of the engine.
pub struct ShapeRecord<V> {
    /// Handles that the application holds on this record.
    pub handles: usize,
    /// Whether the engine record exists: initialised and not yet torn down.
    pub live: bool,
    /// The body that the shape was made on; it never changes.
    pub body: usize,
    /// The geometry that the shape was made with.
    pub form: ShapeForm,
    /// The extension data of the shape.
    pub slot: Slot<V>,
}

/// What the layer keeps for one space record of the engine.
///
/// The engine record of a space exists exactly while `handles` is positive.
pub struct SpaceRecord<V> {
    /// Handles that the application holds on this record.
    pub handles: usize,
    /// The bodies registered into the space, in the order of registration.
    pub bodies: Vec<usize>,
    /// The shapes registered into the space, in the order of registration.
    pub shapes: Vec<usize>,
    /// The extension data of the space.
    pub slot: Slot<V>,
}

/// Every record that the layer has made, living or torn down.
///
/// A record is named by its index, which is never given to another record.
pub struct World<V> {
    /// The body records, by index.
    pub bodies: Vec<BodyRecord<V>>,
    /// The shape records, by index.
    pub shapes: Vec<ShapeRecord<V>>,
    /// The space records, by index.
    pub spaces: Vec<SpaceRecord<V>>,
}

/// `void::Void`, the type without values: the type of the extension data
/// in a world whose records carry none. Nothing is claimed of it.
#[verifier::external_type_specification]
#[verifier::external_body]
pub struct ExVoid(void::Void);

impl World<Void> {
    /// A world without records, in which no record will ever carry
    /// extension data: there is no value to store.
    pub fn without_data() -> (w: World<Void>)
        ensures
            w.wf(),
            w.bodies@.len() == 0,
            w.shapes@.len() == 0,
            w.spaces@.len() == 0,
    {
        World { bodies: Vec::new(), shapes: Vec::new(), spaces: Vec::new() }
    }
}

/// Entry `k` of the bodies of the living space `sp` is the body `b`.
pub open spec fn lists_body<V>(spaces: Seq<SpaceRecord<V>>, sp: int, k: int, b: int) -> bool {
    &&& 0 <= sp < spaces.len()
    &&& spaces[sp].handles > 0
    &&& 0 <= k < spaces[sp].bodies@.len()
    &&& spaces[sp].bodies@[k] == b
}

/// Some living space has the body `b` registered.
pub open spec fn body_registered<V>(spaces: Seq<SpaceRecord<V>>, b: int) -> bool {
    exists|sp: int, k: int| #[trigger] lists_body(spaces, sp, k, b)
}

/// Entry `k` of the shapes of the living space `sp` is the shape `s`.
pub open spec fn lists_shape<V>(spaces: Seq<SpaceRecord<V>>, sp: int, k: int, s: int) -> bool {
    &&& 0 <= sp < spaces.len()
    &&& spaces[sp].handles > 0
    &&& 0 <= k < spaces[sp].shapes@.len()
    &&& spaces[sp].shapes@[k] == s
}

/// Some living space has the shape `s` registered.
pub open spec fn shape_registered<V>(spaces: Seq<SpaceRecord<V>>, s: int) -> bool {
    exists|sp: int, k: int| #[trigger] lists_shape(spaces, sp, k, s)
}

/// The shape `s` is alive and was made on the body `b`.
pub open spec fn carries<V>(shapes: Seq<ShapeRecord<V>>, s: int, b: int) -> bool {
    &&& 0 <= s < shapes.len()
    &&& shapes[s].live
    &&& shapes[s].body == b
}

/// Some living shape was made on the body `b`.
pub open spec fn body_attached<V>(shapes: Seq<ShapeRecord<V>>, b: int) -> bool {
    exists|s: int| #[trigger] carries(shapes, s, b)
}

/// Something keeps the shape `s` alive: a handle, or a living space.
pub open spec fn shape_held<V>(
    shapes: Seq<ShapeRecord<V>>,
    spaces: Seq<SpaceRecord<V>>,
    s: int,
) -> bool {
    shapes[s].handles > 0 || shape_registered(spaces, s)
}

/// Something keeps the body `b` alive: a handle, a living shape, or a living space.
pub open spec fn body_held<V>(
    bodies: Seq<BodyRecord<V>>,
    shapes: Seq<ShapeRecord<V>>,
    spaces: Seq<SpaceRecord<V>>,
    b: int,
) -> bool {
    bodies[b].handles > 0 || body_attached(shapes, b) || body_registered(spaces, b)
}

/// The shape record `r` once it is known whether anything keeps it alive.
pub open spec fn settled_shape<V>(r: ShapeRecord<V>, held: bool) -> ShapeRecord<V> {
    if held {
        r
    } else {
        ShapeRecord { live: false, slot: Slot { held: None }, ..r }
    }
}

/// The body record `r` once it is known whether anything keeps it alive.
pub open spec fn settled_body<V>(r: BodyRecord<V>, held: bool) -> BodyRecord<V> {
    if held {
        r
    } else {
        BodyRecord { live: false, slot: Slot { held: None }, ..r }
    }
}

/// The calls that tear down, in the order of their indices, the living
/// shapes among the first `n` that nothing keeps alive.
pub open spec fn doomed_shapes<V>(
    shapes: Seq<ShapeRecord<V>>,
    spaces: Seq<SpaceRecord<V>>,
    n: int,
) -> Seq<EngineCall>
    decreases n,
{
    if n <= 0 {
        Seq::empty()
    } else if shapes[n - 1].live && !shape_held(shapes, spaces, n - 1) {
        doomed_shapes(shapes, spaces, n - 1).push(EngineCall::ShapeDestroy { shape: (n - 1) as usize })
    } else {
        doomed_shapes(shapes, spaces, n - 1)
    }
}

/// The calls that tear down, in the order of their indices, the living
/// bodies among the first `n` that nothing keeps alive.
pub open spec fn doomed_bodies<V>(
    bodies: Seq<BodyRecord<V>>,
    shapes: Seq<ShapeRecord<V>>,
    spaces: Seq<SpaceRecord<V>>,
    n: int,
) -> Seq<EngineCall>
    decreases n,
{
    if n <= 0 {
        Seq::empty()
    } else if bodies[n - 1].live && !body_held(bodies, shapes, spaces, n - 1) {
        doomed_bodies(bodies, shapes, spaces, n - 1).push(EngineCall::BodyDestroy { body: (n - 1) as usize })
    } else {
        doomed_bodies(bodies, shapes, spaces, n - 1)
    }
}

/// Where every living shape is kept alive, no shape among the first `n` is
/// torn down.
pub proof fn lemma_no_doomed_shapes<V>(shapes: Seq<ShapeRecord<V>>, spaces: Seq<SpaceRecord<V>>, n: int)
    requires
        n <= shapes.len(),
        forall|s: int| 0 <= s < n && (#[trigger] shapes[s]).live ==> shape_held(shapes, spaces, s),
    ensures
        doomed_shapes(shapes, spaces, n) == Seq::<EngineCall>::empty(),
    decreases n,
{
    if n > 0 {
        lemma_no_doomed_shapes(shapes, spaces, n - 1);
    }
}

/// Where every living body is kept alive, no body among the first `n` is
/// torn down.
pub proof fn lemma_no_doomed_bodies<V>(
    bodies: Seq<BodyRecord<V>>,
    shapes: Seq<ShapeRecord<V>>,
    spaces: Seq<SpaceRecord<V>>,
    n: int,
)
    requires
        n <= bodies.len(),
        forall|b: int| 0 <= b < n && (#[trigger] bodies[b]).live ==> body_held(bodies, shapes, spaces, b),
    ensures
        doomed_bodies(bodies, shapes, spaces, n) == Seq::<EngineCall>::empty(),
    decreases n,
{
    if n > 0 {
        lemma_no_doomed_bodies(bodies, shapes, spaces, n - 1);
    }
}

/// A shape that something keeps alive, or that was torn down before, is
/// not torn down.
pub proof fn lemma_shape_spared<V>(shapes: Seq<ShapeRecord<V>>, spaces: Seq<SpaceRecord<V>>, n: int, x: usize)
    requires
        n <= shapes.len() <= usize::MAX,
        x < shapes.len(),
        !shapes[x as int].live || shape_held(shapes, spaces, x as int),
    ensures
        !doomed_shapes(shapes, spaces, n).contains(EngineCall::ShapeDestroy { shape: x }),
    decreases n,
{
    if n > 0 {
        lemma_shape_spared(shapes, spaces, n - 1, x);
        let rest = doomed_shapes(shapes, spaces, n - 1);
        let call = EngineCall::ShapeDestroy { shape: x };
        if shapes[n - 1].live && !shape_held(shapes, spaces, n - 1) {
            let last = EngineCall::ShapeDestroy { shape: (n - 1) as usize };
            if rest.push(last).contains(call) {
                let i = choose|i: int| 0 <= i < rest.push(last).len() && rest.push(last)[i] == call;
                if i < rest.len() {
                    assert(rest[i] == call);
                } else {
                    assert(last == call);
                    assert(n - 1 == x);
                }
            }
        }
    }
}

/// A body that something keeps alive, or that was torn down before, is not
/// torn down.
pub proof fn lemma_body_spared<V>(
    bodies: Seq<BodyRecord<V>>,
    shapes: Seq<ShapeRecord<V>>,
    spaces: Seq<SpaceRecord<V>>,
    n: int,
    x: usize,
)
    requires
        n <= bodies.len() <= usize::MAX,
        x < bodies.len(),
        !bodies[x as int].live || body_held(bodies, shapes, spaces, x as int),
    ensures
        !doomed_bodies(bodies, shapes, spaces, n).contains(EngineCall::BodyDestroy { body: x }),
    decreases n,
{
    if n > 0 {
        lemma_body_spared(bodies, shapes, spaces, n - 1, x);
        let rest = doomed_bodies(bodies, shapes, spaces, n - 1);
        let call = EngineCall::BodyDestroy { body: x };
        if bodies[n - 1].live && !body_held(bodies, shapes, spaces, n - 1) {
            let last = EngineCall::BodyDestroy { body: (n - 1) as usize };
            if rest.push(last).contains(call) {
                let i = choose|i: int| 0 <= i < rest.push(last).len() && rest.push(last)[i] == call;
                if i < rest.len() {
                    assert(rest[i] == call);
                } else {
                    assert(last == call);
                    assert(n - 1 == x);
                }
            }
        }
    }
}

/// Tearing shapes down tears no body down.
pub proof fn lemma_shapes_apart<V>(shapes: Seq<ShapeRecord<V>>, spaces: Seq<SpaceRecord<V>>, n: int, x: usize)
    ensures
        !doomed_shapes(shapes, spaces, n).contains(EngineCall::BodyDestroy { body: x }),
    decreases n,
{
    if n > 0 {
        lemma_shapes_apart(shapes, spaces, n - 1, x);
        let rest = doomed_shapes(shapes, spaces, n - 1);
        let call = EngineCall::BodyDestroy { body: x };
        let last = EngineCall::ShapeDestroy { shape: (n - 1) as usize };
        if rest.push(last).contains(call) {
            let i = choose|i: int| 0 <= i < rest.push(last).len() && rest.push(last)[i] == call;
            assert(rest[i] == call);
        }
    }
}

/// Tearing bodies down tears no shape down.
pub proof fn lemma_bodies_apart<V>(
    bodies: Seq<BodyRecord<V>>,
    shapes: Seq<ShapeRecord<V>>,
    spaces: Seq<SpaceRecord<V>>,
    n: int,
    x: usize,
)
    ensures
        !doomed_bodies(bodies, shapes, spaces, n).contains(EngineCall::ShapeDestroy { shape: x }),
    decreases n,
{
    if n > 0 {
        lemma_bodies_apart(bodies, shapes, spaces, n - 1, x);
        let rest = doomed_bodies(bodies, shapes, spaces, n - 1);
        let call = EngineCall::ShapeDestroy { shape: x };
        let last = EngineCall::BodyDestroy { body: (n - 1) as usize };
        if rest.push(last).contains(call) {
            let i = choose|i: int| 0 <= i < rest.push(last).len() && rest.push(last)[i] == call;
            assert(rest[i] == call);
        }
    }
}

/// Whatever shape is torn down existed: each of the calls names one living
/// shape, and nothing else.
pub proof fn lemma_doomed_shapes_lived<V>(
    shapes: Seq<ShapeRecord<V>>,
    spaces: Seq<SpaceRecord<V>>,
    n: int,
    i: int,
)
    requires
        n <= shapes.len() <= usize::MAX,
        0 <= i < doomed_shapes(shapes, spaces, n).len(),
    ensures
        doomed_shapes(shapes, spaces, n)[i].named_body() is None,
        doomed_shapes(shapes, spaces, n)[i].named_space() is None,
        doomed_shapes(shapes, spaces, n)[i].named_shape() matches Some(s) && s < n && shapes[s as int].live,
    decreases n,
{
    if n > 0 {
        if i < doomed_shapes(shapes, spaces, n - 1).len() {
            lemma_doomed_shapes_lived(shapes, spaces, n - 1, i);
        }
    }
}

/// Whatever body is torn down existed: each of the calls names one living
/// body, and nothing else.
pub proof fn lemma_doomed_bodies_lived<V>(
    bodies: Seq<BodyRecord<V>>,
    shapes: Seq<ShapeRecord<V>>,
    spaces: Seq<SpaceRecord<V>>,
    n: int,
    i: int,
)
    requires
        n <= bodies.len() <= usize::MAX,
        0 <= i < doomed_bodies(bodies, shapes, spaces, n).len(),
    ensures
        doomed_bodies(bodies, shapes, spaces, n)[i].named_shape() is None,
        doomed_bodies(bodies, shapes, spaces, n)[i].named_space() is None,
        doomed_bodies(bodies, shapes, spaces, n)[i].named_body() matches Some(b) && b < n && bodies[b as int].live,
    decreases n,
{
    if n > 0 {
        if i < doomed_bodies(bodies, shapes, spaces, n - 1).len() {
            lemma_doomed_bodies_lived(bodies, shapes, spaces, n - 1, i);
        }
    }
}

/// A registry that lists no more than another keeps no more alive.
pub proof fn lemma_registry_weaker<V>(a: Seq<SpaceRecord<V>>, b: Seq<SpaceRecord<V>>)
    requires
        a.len() == b.len(),
        forall|sp: int|
            0 <= sp < a.len() && (#[trigger] b[sp]).handles > 0 ==> a[sp].handles > 0 && a[sp].bodies@
                == b[sp].bodies@ && a[sp].shapes@ == b[sp].shapes@,
    ensures
        forall|x: int| #[trigger] body_registered(b, x) ==> body_registered(a, x),
        forall|x: int| #[trigger] shape_registered(b, x) ==> shape_registered(a, x),
{
    assert forall|x: int| #[trigger] body_registered(b, x) implies body_registered(a, x) by {
        let (sp, k) = choose|sp: int, k: int| lists_body(b, sp, k, x);
        assert(b[sp].handles > 0);
        assert(lists_body(a, sp, k, x));
    }
    assert forall|x: int| #[trigger] shape_registered(b, x) implies shape_registered(a, x) by {
        let (sp, k) = choose|sp: int, k: int| lists_shape(b, sp, k, x);
        assert(b[sp].handles > 0);
        assert(lists_shape(a, sp, k, x));
    }
}

/// Shapes of which no more are alive than of others keep no more bodies alive.
pub proof fn lemma_attachments_weaker<V>(a: Seq<ShapeRecord<V>>, b: Seq<ShapeRecord<V>>)
    requires
        a.len() == b.len(),
        forall|s: int| 0 <= s < a.len() && (#[trigger] b[s]).live ==> a[s].live && a[s].body == b[s].body,
    ensures
        forall|x: int| #[trigger] body_attached(b, x) ==> body_attached(a, x),
{
    assert forall|x: int| #[trigger] body_attached(b, x) implies body_attached(a, x) by {
        let s = choose|s: int| carries(b, s, x);
        assert(b[s].live);
        assert(carries(a, s, x));
    }
}

impl<V> UserData<V> for BodyRecord<V> {
    open spec fn slot(&self) -> Slot<V> {
        self.slot
    }

    open spec fn same_entity(&self, other: &Self) -> bool {
        self.handles == other.handles && self.live == other.live && self.kind == other.kind
    }

    fn get_userdata_box(&self) -> (r: &Slot<V>) {
        &self.slot
    }

    fn get_userdata_mut_box(&mut self) -> (r: &mut Slot<V>) {
        &mut self.slot
    }
}

impl<V> UserData<V> for ShapeRecord<V> {
    open spec fn slot(&self) -> Slot<V> {
        self.slot
    }

    open spec fn same_entity(&self, other: &Self) -> bool {
        self.handles == other.handles && self.live == other.live && self.body == other.body && self.form
            == other.form
    }

    fn get_userdata_box(&self) -> (r: &Slot<V>) {
        &self.slot
    }

    fn get_userdata_mut_box(&mut self) -> (r: &mut Slot<V>) {
        &mut self.slot
    }
}

impl<V> UserData<V> for SpaceRecord<V> {
    open spec fn slot(&self) -> Slot<V> {
        self.slot
    }

    open spec fn same_entity(&self, other: &Self) -> bool {
        self.handles == other.handles && self.bodies == other.bodies && self.shapes == other.shapes
    }

    fn get_userdata_box(&self) -> (r: &Slot<V>) {
        &self.slot
    }

    fn get_userdata_mut_box(&mut self) -> (r: &mut Slot<V>) {
        &mut self.slot
    }
}

impl<V> World<V> {
    /// Every reference names a record, and a record that was torn down has
    /// lost its extension data.
    pub open spec fn linked(&self) -> bool {
        &&& forall|s: int| 0 <= s < self.shapes@.len() ==> (#[trigger] self.shapes@[s]).body < self.bodies@.len()
        &&& forall|sp: int, k: int|
            0 <= sp < self.spaces@.len() && 0 <= k < self.spaces@[sp].bodies@.len()
                ==> #[trigger] self.spaces@[sp].bodies@[k] < self.bodies@.len()
        &&& forall|sp: int, k: int|
            0 <= sp < self.spaces@.len() && 0 <= k < self.spaces@[sp].shapes@.len()
                ==> #[trigger] self.spaces@[sp].shapes@[k] < self.shapes@.len()
        &&& forall|s: int| 0 <= s < self.shapes@.len() && !(#[trigger] self.shapes@[s]).live
                ==> self.shapes@[s].slot.held is None
        &&& forall|b: int| 0 <= b < self.bodies@.len() && !(#[trigger] self.bodies@[b]).live
                ==> self.bodies@[b].slot.held is None
    }

    /// No record is used after it was torn down: whatever is kept alive exists.
    pub open spec fn safe(&self) -> bool {
        &&& forall|s: int| 0 <= s < self.shapes@.len() && shape_held(self.shapes@, self.spaces@, s)
                ==> (#[trigger] self.shapes@[s]).live
        &&& forall|b: int| 0 <= b < self.bodies@.len() && body_held(self.bodies@, self.shapes@, self.spaces@, b)
                ==> (#[trigger] self.bodies@[b]).live
    }

    /// No record outlives its use: whatever exists is kept alive by something.
    pub open spec fn tidy(&self) -> bool {
        &&& forall|s: int| 0 <= s < self.shapes@.len() && (#[trigger] self.shapes@[s]).live
                ==> shape_held(self.shapes@, self.spaces@, s)
        &&& forall|b: int| 0 <= b < self.bodies@.len() && (#[trigger] self.bodies@[b]).live
                ==> body_held(self.bodies@, self.shapes@, self.spaces@, b)
    }

    /// The invariant of the layer.
    pub open spec fn wf(&self) -> bool {
        self.linked() && self.safe() && self.tidy()
    }

    /// Every record that `call` names exists in this world: the call
    /// reaches no record that was torn down, and none that was never made.
    pub open spec fn serves(&self, call: EngineCall) -> bool {
        &&& call.named_body() matches Some(b) ==> b < self.bodies@.len() && self.bodies@[b as int].live
        &&& call.named_shape() matches Some(s) ==> s < self.shapes@.len() && self.shapes@[s as int].live
        &&& call.named_space() matches Some(sp) ==> sp < self.spaces@.len() && self.spaces@[sp as int].handles
            > 0
    }

    /// `other` has the records of this world, each with whatever its slot
    /// may hold, and nothing in the slot of a record that was torn down.
    pub open spec fn same_but_slots(&self, other: &World<V>) -> bool {
        &&& self.bodies@.len() == other.bodies@.len()
        &&& self.shapes@.len() == other.shapes@.len()
        &&& self.spaces@.len() == other.spaces@.len()
        &&& forall|b: int|
            0 <= b < self.bodies@.len() ==> (#[trigger] self.bodies@[b]).same_entity(&other.bodies@[b]) && (
            self.bodies@[b].live || other.bodies@[b].slot.held is None)
        &&& forall|s: int|
            0 <= s < self.shapes@.len() ==> (#[trigger] self.shapes@[s]).same_entity(&other.shapes@[s]) && (
            self.shapes@[s].live || other.shapes@[s].slot.held is None)
        &&& forall|sp: int|
            0 <= sp < self.spaces@.len() ==> (#[trigger] self.spaces@[sp]).same_entity(&other.spaces@[sp])
    }

    /// The invariant does not depend on what the slots of living records hold.
    pub proof fn lemma_slots_apart(&self, other: &World<V>)
        requires
            self.wf(),
            self.same_but_slots(other),
        ensures
            other.wf(),
    {
        assert forall|sp: int|
            0 <= sp < self.spaces@.len() implies (#[trigger] other.spaces@[sp]).handles
            == self.spaces@[sp].handles && other.spaces@[sp].bodies@ == self.spaces@[sp].bodies@
            && other.spaces@[sp].shapes@ == self.spaces@[sp].shapes@ by {
            assert(self.spaces@[sp].same_entity(&other.spaces@[sp]));
        }
        lemma_registry_weaker(self.spaces@, other.spaces@);
        lemma_registry_weaker(other.spaces@, self.spaces@);
        assert forall|s: int|
            0 <= s < self.shapes@.len() implies (#[trigger] other.shapes@[s]).live == self.shapes@[s].live
            && other.shapes@[s].body == self.shapes@[s].body && other.shapes@[s].handles
            == self.shapes@[s].handles by {
            assert(self.shapes@[s].same_entity(&other.shapes@[s]));
        }
        lemma_attachments_weaker(self.shapes@, other.shapes@);
        lemma_attachments_weaker(other.shapes@, self.shapes@);
        assert forall|s: int| 0 <= s < other.shapes@.len() implies (shape_held(
            other.shapes@,
            other.spaces@,
            s,
        ) <==> (#[trigger] other.shapes@[s]).live) by {
            assert(shape_held(self.shapes@, self.spaces@, s) <==> self.shapes@[s].live);
        }
        assert forall|b: int| 0 <= b < other.bodies@.len() implies (body_held(
            other.bodies@,
            other.shapes@,
            other.spaces@,
            b,
        ) <==> (#[trigger] other.bodies@[b]).live) by {
            assert(self.bodies@[b].same_entity(&other.bodies@[b]));
            assert(body_held(self.bodies@, self.shapes@, self.spaces@, b) <==> self.bodies@[b].live);
        }
        assert forall|sp: int, k: int|
            0 <= sp < other.spaces@.len() && 0 <= k < other.spaces@[sp].bodies@.len() implies #[trigger] other.spaces@[sp].bodies@[k]
            < other.bodies@.len() by {
            assert(self.spaces@[sp].bodies@[k] < self.bodies@.len());
        }
        assert forall|sp: int, k: int|
            0 <= sp < other.spaces@.len() && 0 <= k < other.spaces@[sp].shapes@.len() implies #[trigger] other.spaces@[sp].shapes@[k]
            < other.shapes@.len() by {
            assert(self.spaces@[sp].shapes@[k] < self.shapes@.len());
        }
        assert forall|s: int| 0 <= s < other.shapes@.len() implies (#[trigger] other.shapes@[s]).body
            < other.bodies@.len() by {
            assert(self.shapes@[s].body < self.bodies@.len());
        }
        assert forall|s: int| 0 <= s < other.shapes@.len() && !(#[trigger] other.shapes@[s]).live implies other.shapes@[s].slot.held is None by {
            assert(self.shapes@[s].same_entity(&other.shapes@[s]));
        }
        assert forall|b: int| 0 <= b < other.bodies@.len() && !(#[trigger] other.bodies@[b]).live implies other.bodies@[b].slot.held is None by {
            assert(self.bodies@[b].same_entity(&other.bodies@[b]));
        }
    }

    /// A world without records.
    pub fn new() -> (w: World<V>)
        ensures
            w.wf(),
            w.bodies@.len() == 0,
            w.shapes@.len() == 0,
            w.spaces@.len() == 0,
    {
        World { bodies: Vec::new(), shapes: Vec::new(), spaces: Vec::new() }
    }

    /// Whether some living space has the body `b` registered.
    pub fn body_is_registered(&self, b: usize) -> (r: bool)
        ensures
            r == body_registered(self.spaces@, b as int),
    {
        let mut sp: usize = 0;
        while sp < self.spaces.len()
            invariant
                sp <= self.spaces@.len(),
                forall|i: int, k: int| 0 <= i < sp ==> !#[trigger] lists_body(self.spaces@, i, k, b as int),
            decreases self.spaces@.len() - sp,
        {
            if self.spaces[sp].handles > 0 {
                let mut k: usize = 0;
                while k < self.spaces[sp].bodies.len()
                    invariant
                        sp < self.spaces@.len(),
                        self.spaces@[sp as int].handles > 0,
                        k <= self.spaces@[sp as int].bodies@.len(),
                        forall|j: int| 0 <= j < k ==> !#[trigger] lists_body(self.spaces@, sp as int, j, b as int),
                    decreases self.spaces@[sp as int].bodies@.len() - k,
                {
                    if self.spaces[sp].bodies[k] == b {
                        assert(lists_body(self.spaces@, sp as int, k as int, b as int));
                        return true;
                    }
                    k += 1;
                }
            }
            sp += 1;
        }
        false
    }

    /// Whether some living space has the shape `s` registered.
    pub fn shape_is_registered(&self, s: usize) -> (r: bool)
        ensures
            r == shape_registered(self.spaces@, s as int),
    {
        let mut sp: usize = 0;
        while sp < self.spaces.len()
            invariant
                sp <= self.spaces@.len(),
                forall|i: int, k: int| 0 <= i < sp ==> !#[trigger] lists_shape(self.spaces@, i, k, s as int),
            decreases self.spaces@.len() - sp,
        {
            if self.spaces[sp].handles > 0 {
                let mut k: usize = 0;
                while k < self.spaces[sp].shapes.len()
                    invariant
                        sp < self.spaces@.len(),
                        self.spaces@[sp as int].handles > 0,
                        k <= self.spaces@[sp as int].shapes@.len(),
                        forall|j: int| 0 <= j < k ==> !#[trigger] lists_shape(self.spaces@, sp as int, j, s as int),
                    decreases self.spaces@[sp as int].shapes@.len() - k,
                {
                    if self.spaces[sp].shapes[k] == s {
                        assert(lists_shape(self.spaces@, sp as int, k as int, s as int));
                        return true;
                    }
                    k += 1;
                }
            }
            sp += 1;
        }
        false
    }

    /// Whether some living shape was made on the body `b`.
    pub fn body_is_attached(&self, b: usize) -> (r: bool)
        ensures
            r == body_attached(self.shapes@, b as int),
    {
        let mut s: usize = 0;
        while s < self.shapes.len()
            invariant
                s <= self.shapes@.len(),
                forall|j: int| 0 <= j < s ==> !#[trigger] carries(self.shapes@, j, b as int),
            decreases self.shapes@.len() - s,
        {
            if self.shapes[s].live && self.shapes[s].body == b {
                assert(carries(self.shapes@, s as int, b as int));
                return true;
            }
            s += 1;
        }
        false
    }

    /// The lists of the space `sp` name records.
    pub open spec fn space_ok(&self, sp: int) -> bool {
        &&& forall|k: int|
            0 <= k < self.spaces@[sp].bodies@.len() ==> #[trigger] self.spaces@[sp].bodies@[k]
                < self.bodies@.len()
        &&& forall|k: int|
            0 <= k < self.spaces@[sp].shapes@.len() ==> #[trigger] self.spaces@[sp].shapes@[k]
                < self.shapes@.len()
    }

    /// The shape `s` is on a body, exists exactly while something keeps it
    /// alive, and carries no data once it was torn down.
    pub open spec fn shape_ok(&self, s: int) -> bool {
        &&& self.shapes@[s].body < self.bodies@.len()
        &&& self.shapes@[s].live == shape_held(self.shapes@, self.spaces@, s)
        &&& self.shapes@[s].live || self.shapes@[s].slot.held is None
    }

    /// The body `b` exists exactly while something keeps it alive, and
    /// carries no data once it was torn down.
    pub open spec fn body_ok(&self, b: int) -> bool {
        &&& self.bodies@[b].live == body_held(self.bodies@, self.shapes@, self.spaces@, b)
        &&& self.bodies@[b].live || self.bodies@[b].slot.held is None
    }

    fn space_is_ok(&self, sp: usize) -> (r: bool)
        requires
            sp < self.spaces@.len(),
        ensures
            r == self.space_ok(sp as int),
    {
        let mut k: usize = 0;
        while k < self.spaces[sp].bodies.len()
            invariant
                sp < self.spaces@.len(),
                k <= self.spaces@[sp as int].bodies@.len(),
                forall|j: int| 0 <= j < k ==> #[trigger] self.spaces@[sp as int].bodies@[j] < self.bodies@.len(),
            decreases self.spaces@[sp as int].bodies@.len() - k,
        {
            if self.spaces[sp].bodies[k] >= self.bodies.len() {
                return false;
            }
            k += 1;
        }
        let mut k: usize = 0;
        while k < self.spaces[sp].shapes.len()
            invariant
                sp < self.spaces@.len(),
                k <= self.spaces@[sp as int].shapes@.len(),
                forall|j: int|
                    0 <= j < self.spaces@[sp as int].bodies@.len() ==> #[trigger] self.spaces@[sp as int].bodies@[j]
                        < self.bodies@.len(),
                forall|j: int| 0 <= j < k ==> #[trigger] self.spaces@[sp as int].shapes@[j] < self.shapes@.len(),
            decreases self.spaces@[sp as int].shapes@.len() - k,
        {
            if self.spaces[sp].shapes[k] >= self.shapes.len() {
                return false;
            }
            k += 1;
        }
        true
    }

    /// Whether the invariant of the layer holds. It does after every
    /// operation of the layer; whoever writes to the records directly can
    /// find out here whether the layer can go on.
    pub fn is_wf(&self) -> (r: bool)
        ensures
            r == self.wf(),
    {
        let mut sp: usize = 0;
        while sp < self.spaces.len()
            invariant
                sp <= self.spaces@.len(),
                forall|j: int| 0 <= j < sp ==> #[trigger] self.space_ok(j),
            decreases self.spaces@.len() - sp,
        {
            if !self.space_is_ok(sp) {
                return false;
            }
            sp += 1;
        }
        let mut s: usize = 0;
        while s < self.shapes.len()
            invariant
                s <= self.shapes@.len(),
                forall|j: int| 0 <= j < s ==> #[trigger] self.shape_ok(j),
            decreases self.shapes@.len() - s,
        {
            let on = self.shapes[s].body < self.bodies.len();
            let held = self.shapes[s].handles > 0 || self.shape_is_registered(s);
            let bare = self.shapes[s].live || self.shapes[s].slot.held.is_none();
            if !on || held != self.shapes[s].live || !bare {
                assert(!self.shape_ok(s as int));
                return false;
            }
            s += 1;
        }
        let mut b: usize = 0;
        while b < self.bodies.len()
            invariant
                b <= self.bodies@.len(),
                forall|j: int| 0 <= j < b ==> #[trigger] self.body_ok(j),
            decreases self.bodies@.len() - b,
        {
            let held = self.bodies[b].handles > 0 || self.body_is_attached(b) || self.body_is_registered(b);
            let bare = self.bodies[b].live || self.bodies[b].slot.held.is_none();
            if held != self.bodies[b].live || !bare {
                assert(!self.body_ok(b as int));
                return false;
            }
            b += 1;
        }
        proof {
            assert forall|s: int| 0 <= s < self.shapes@.len() implies (#[trigger] self.shapes@[s]).body
                < self.bodies@.len() && (shape_held(self.shapes@, self.spaces@, s)
                <==> self.shapes@[s].live) && (self.shapes@[s].live || self.shapes@[s].slot.held is None) by {
                assert(self.shape_ok(s));
            }
            assert forall|b: int| 0 <= b < self.bodies@.len() implies (body_held(
                self.bodies@,
                self.shapes@,
                self.spaces@,
                b,
            ) <==> (#[trigger] self.bodies@[b]).live) && (self.bodies@[b].live
                || self.bodies@[b].slot.held is None) by {
                assert(self.body_ok(b));
            }
            assert forall|sp: int, k: int|
                0 <= sp < self.spaces@.len() && 0 <= k < self.spaces@[sp].bodies@.len() implies #[trigger] self.spaces@[sp].bodies@[k]
                < self.bodies@.len() by {
                assert(self.space_ok(sp));
            }
            assert forall|sp: int, k: int|
                0 <= sp < self.spaces@.len() && 0 <= k < self.spaces@[sp].shapes@.len() implies #[trigger] self.spaces@[sp].shapes@[k]
                < self.shapes@.len() by {
                assert(self.space_ok(sp));
            }
        }
        true
    }

    /// Tears down every record that nothing keeps alive: the shapes first,
    /// then the bodies, each group in the order of its indices. The calls
    /// are appended to `calls`.
    pub fn settle(&mut self, calls: &mut Vec<EngineCall>)
        requires
            old(self).linked(),
            old(self).safe(),
        ensures
            final(self).wf(),
            final(self).spaces@ == old(self).spaces@,
            final(self).shapes@.len() == old(self).shapes@.len(),
            final(self).bodies@.len() == old(self).bodies@.len(),
            forall|s: int|
                0 <= s < old(self).shapes@.len() ==> #[trigger] final(self).shapes@[s] == settled_shape(
                    old(self).shapes@[s],
                    shape_held(old(self).shapes@, old(self).spaces@, s),
                ),
            forall|b: int|
                0 <= b < old(self).bodies@.len() ==> #[trigger] final(self).bodies@[b] == settled_body(
                    old(self).bodies@[b],
                    body_held(old(self).bodies@, final(self).shapes@, old(self).spaces@, b),
                ),
            final(calls)@ == old(calls)@ + doomed_shapes(
                old(self).shapes@,
                old(self).spaces@,
                old(self).shapes@.len() as int,
            ) + doomed_bodies(
                old(self).bodies@,
                final(self).shapes@,
                old(self).spaces@,
                old(self).bodies@.len() as int,
            ),
    {
        let ghost shapes0 = self.shapes@;
        let ghost bodies0 = self.bodies@;
        let ghost spaces0 = self.spaces@;
        let ghost calls0 = calls@;
        let n: usize = self.shapes.len();
        let mut s: usize = 0;
        while s < n
            invariant
                s <= n,
                n == shapes0.len(),
                self.shapes@.len() == n,
                self.spaces@ == spaces0,
                self.bodies@ == bodies0,
                forall|j: int|
                    0 <= j < s ==> #[trigger] self.shapes@[j] == settled_shape(
                        shapes0[j],
                        shape_held(shapes0, spaces0, j),
                    ),
                forall|j: int| s <= j < n ==> #[trigger] self.shapes@[j] == shapes0[j],
                forall|j: int| 0 <= j < n && shape_held(shapes0, spaces0, j) ==> (#[trigger] shapes0[j]).live,
                forall|j: int| 0 <= j < n && !(#[trigger] shapes0[j]).live ==> shapes0[j].slot.held is None,
                calls@ == calls0 + doomed_shapes(shapes0, spaces0, s as int),
            decreases n - s,
        {
            assert(self.shapes@[s as int] == shapes0[s as int]);
            if self.shapes[s].live {
                let held = self.shapes[s].handles > 0 || self.shape_is_registered(s);
                if !held {
                    self.shapes[s].live = false;
                    self.shapes[s].slot.clear();
                    calls.push(EngineCall::ShapeDestroy { shape: s });
                    assert(calls@ =~= calls0 + doomed_shapes(shapes0, spaces0, s as int + 1));
                }
            }
            s += 1;
        }
        let ghost shapes1 = self.shapes@;
        let ghost calls1 = calls@;
        let m: usize = self.bodies.len();
        let mut b: usize = 0;
        while b < m
            invariant
                b <= m,
                m == bodies0.len(),
                self.bodies@.len() == m,
                self.spaces@ == spaces0,
                self.shapes@ == shapes1,
                shapes1.len() == shapes0.len(),
                forall|j: int| 0 <= j < shapes0.len() && (#[trigger] shapes1[j]).live ==> shapes0[j].live && shapes1[j].body == shapes0[j].body,
                forall|j: int|
                    0 <= j < b ==> #[trigger] self.bodies@[j] == settled_body(
                        bodies0[j],
                        body_held(bodies0, shapes1, spaces0, j),
                    ),
                forall|j: int| b <= j < m ==> #[trigger] self.bodies@[j] == bodies0[j],
                forall|j: int| 0 <= j < m && body_held(bodies0, shapes0, spaces0, j) ==> (#[trigger] bodies0[j]).live,
                forall|j: int| 0 <= j < m && !(#[trigger] bodies0[j]).live ==> bodies0[j].slot.held is None,
                calls@ == calls1 + doomed_bodies(bodies0, shapes1, spaces0, b as int),
            decreases m - b,
        {
            assert(self.bodies@[b as int] == bodies0[b as int]);
            proof {
                if body_attached(shapes1, b as int) {
                    let w = choose|w: int| carries(shapes1, w, b as int);
                    assert(carries(shapes0, w, b as int));
                }
            }
            if self.bodies[b].live {
                let held = self.bodies[b].handles > 0 || self.body_is_attached(b)
                    || self.body_is_registered(b);
                if !held {
                    self.bodies[b].live = false;
                    self.bodies[b].slot.clear();
                    calls.push(EngineCall::BodyDestroy { body: b });
                    assert(calls@ =~= calls1 + doomed_bodies(bodies0, shapes1, spaces0, b as int + 1));
                }
            }
            b += 1;
        }
        proof {
            assert(calls@ =~= calls0 + doomed_shapes(shapes0, spaces0, n as int) + doomed_bodies(
                bodies0,
                shapes1,
                spaces0,
                m as int,
            ));
            assert forall|j: int| 0 <= j < m implies body_held(self.bodies@, self.shapes@, self.spaces@, j)
                == body_held(bodies0, shapes1, spaces0, j) && (body_held(bodies0, shapes1, spaces0, j)
                ==> bodies0[j].live) by {
                assert(self.bodies@[j] == settled_body(bodies0[j], body_held(bodies0, shapes1, spaces0, j)));
                if body_attached(shapes1, j) {
                    let w = choose|w: int| carries(shapes1, w, j);
                    assert(carries(shapes0, w, j));
                }
            }
            assert forall|j: int| 0 <= j < n implies shape_held(self.shapes@, self.spaces@, j)
                == shape_held(shapes0, spaces0, j) by {
                assert(self.shapes@[j] == settled_shape(shapes0[j], shape_held(shapes0, spaces0, j)));
            }
        }
    }
}

} // verus!
