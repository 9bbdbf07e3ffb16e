use chipmunk::body::Body;
use chipmunk::engine::EngineCall;
use chipmunk::scalar::{Scalar, Vect};
use chipmunk::shape::Shape;
use chipmunk::space::Space;
use chipmunk::user_data::TypeTag;
use chipmunk::world::World;

fn one() -> Scalar {
    Scalar::from_bits(1.0f64.to_bits())
}

#[test]
fn empty_world_is_well_formed() {
    let world: World<u8> = World::new();
    assert!(world.is_wf());
    assert!(world.bodies.is_empty());
    assert!(world.shapes.is_empty());
    assert!(world.spaces.is_empty());
    assert!(!world.body_is_registered(0));
    assert!(!world.shape_is_registered(0));
    assert!(!world.body_is_attached(0));
}

#[test]
fn world_without_data_serves_the_handles() {
    let mut world = World::without_data();
    assert!(world.is_wf());
    let (body, calls) = Body::new_static(&mut world);
    assert_eq!(calls.len(), 2);
    assert!(body.user_data(&world, TypeTag { id: 0 }).is_none());
    assert_eq!(body.release(&mut world), vec![EngineCall::BodyDestroy { body: 0 }]);
    assert!(world.is_wf());
}

#[test]
fn every_operation_leaves_the_world_well_formed() {
    let mut world: World<i32> = World::new();
    let (space, _) = Space::new(&mut world);
    assert!(world.is_wf());
    let (body, _) = Body::new(&mut world, one(), one());
    assert!(world.is_wf());
    let (shape, _) = Shape::new_circle(&mut world, &body, one(), Vect::zero());
    assert!(world.is_wf());
    let alias = body.duplicate(&mut world);
    assert!(world.is_wf());
    space.add_shape(&mut world, &shape);
    assert!(world.is_wf());
    space.add_body(&mut world, &body);
    assert!(world.is_wf());
    shape.set_user_data(&mut world, TypeTag { id: 3 }, 30);
    assert!(world.is_wf());
    body.release(&mut world);
    assert!(world.is_wf());
    alias.release(&mut world);
    assert!(world.is_wf());
    assert!(world.bodies[0].live);
    shape.release(&mut world);
    assert!(world.is_wf());
    assert!(world.shapes[0].live);
    assert_eq!(world.shapes[0].slot.held, Some((TypeTag { id: 3 }, 30)));
    space.release(&mut world);
    assert!(world.is_wf());
    assert!(!world.shapes[0].live);
    assert!(!world.bodies[0].live);
    assert!(world.shapes[0].slot.held.is_none());
}

#[test]
fn record_without_a_keeper_is_found_out() {
    let mut world: World<i32> = World::new();
    let (_body, _) = Body::new(&mut world, one(), one());
    world.bodies[0].handles = 0;
    assert!(!world.is_wf());
    let mut calls = Vec::new();
    world.settle(&mut calls);
    assert_eq!(calls, vec![EngineCall::BodyDestroy { body: 0 }]);
    assert!(world.is_wf());
}

#[test]
fn use_after_teardown_is_found_out() {
    let mut world: World<i32> = World::new();
    let (_body, _) = Body::new(&mut world, one(), one());
    world.bodies[0].live = false;
    assert!(!world.is_wf());
}

#[test]
fn dangling_reference_is_found_out() {
    let mut world: World<i32> = World::new();
    let (_space, _) = Space::new(&mut world);
    world.spaces[0].bodies.push(4);
    assert!(!world.is_wf());
    world.spaces[0].bodies.clear();
    assert!(world.is_wf());
    world.spaces[0].shapes.push(0);
    assert!(!world.is_wf());
}

#[test]
fn data_on_a_dead_record_is_found_out() {
    let mut world: World<i32> = World::new();
    let (body, _) = Body::new(&mut world, one(), one());
    body.release(&mut world);
    assert!(world.is_wf());
    world.bodies[0].slot.set(TypeTag { id: 1 }, 1);
    assert!(!world.is_wf());
}

#[test]
fn shape_on_a_missing_body_is_found_out() {
    let mut world: World<i32> = World::new();
    let (body, _) = Body::new(&mut world, one(), one());
    let (_shape, _) = Shape::new_circle(&mut world, &body, one(), Vect::zero());
    world.shapes[0].body = 1;
    assert!(!world.is_wf());
}

#[test]
fn shape_and_space_data_are_shared_by_their_handles() {
    let mut world: World<String> = World::new();
    let (body, _) = Body::new_static(&mut world);
    let (shape, _) = Shape::new_box(&mut world, &body, one(), one(), Scalar::zero());
    let alias = shape.duplicate(&mut world);
    let tag = TypeTag { id: 11 };
    shape.set_user_data(&mut world, tag, String::from("crate"));
    if let Some(text) = alias.user_data_mut(&mut world, tag) {
        text.push('s');
    }
    assert_eq!(shape.user_data(&world, tag), Some(&String::from("crates")));
    assert!(shape.user_data(&world, TypeTag { id: 12 }).is_none());
    assert!(body.user_data(&world, tag).is_none());
    let (space, _) = Space::new(&mut world);
    let other = space.duplicate_homogenous(&mut world);
    space.set_user_data(&mut world, tag, String::from("room"));
    assert_eq!(other.user_data(&world, tag), Some(&String::from("room")));
    assert!(other.user_data_mut(&mut world, TypeTag { id: 12 }).is_none());
    assert!(world.is_wf());
}
