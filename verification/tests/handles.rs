use chipmunk::body::Body;
use chipmunk::engine::{BodyKind, BodyScalar, BodyVect, EngineCall, ShapeScalar, SpaceScalar};
use chipmunk::scalar::{Scalar, Vect};
use chipmunk::shape::Shape;
use chipmunk::space::Space;
use chipmunk::util::moment_of_circle;
use chipmunk::world::{ShapeForm, World};

fn num(x: f64) -> Scalar {
    Scalar::from_bits(x.to_bits())
}

fn vect(x: f64, y: f64) -> Vect {
    Vect::new(num(x), num(y))
}

#[test]
fn scalar_keeps_its_bits() {
    let x = Scalar::from_bits(0x4002_0000_0000_0000);
    assert_eq!(x.to_bits(), 0x4002_0000_0000_0000);
    assert_eq!(f64::from_bits(x.to_bits()), 2.25);
    assert_eq!(Scalar::zero().to_bits(), 0);
    assert_eq!(Vect::zero(), vect(0.0, 0.0));
    let nan = Scalar::from_bits(f64::NAN.to_bits());
    assert_eq!(nan, Scalar::from_bits(f64::NAN.to_bits()));
    assert_ne!(num(0.0), num(-0.0));
}

#[test]
fn new_body_passes_mass_and_moment_on() {
    let mut world: World<()> = World::new();
    let (body, calls) = Body::new(&mut world, num(1.0), num(12.5));
    assert_eq!(body.get_cp_body(), 0);
    assert_eq!(calls, vec![EngineCall::BodyInit { body: 0, mass: num(1.0), moment: num(12.5) }]);
    assert_eq!(world.bodies.len(), 1);
    assert_eq!(world.bodies[0].handles, 1);
    assert!(world.bodies[0].live);
    assert_eq!(world.bodies[0].kind, BodyKind::Dynamic);
}

#[test]
fn new_body_does_not_judge_its_numbers() {
    let mut world: World<()> = World::new();
    let (_, calls) = Body::new(&mut world, num(-3.0), num(f64::NAN));
    assert_eq!(calls, vec![EngineCall::BodyInit { body: 0, mass: num(-3.0), moment: num(f64::NAN) }]);
}

#[test]
fn kinematic_body_has_no_mass_of_its_own() {
    let mut world: World<()> = World::new();
    let (body, calls) = Body::new_kinematic(&mut world);
    assert_eq!(
        calls,
        vec![
            EngineCall::BodyInit { body: 0, mass: num(0.0), moment: num(0.0) },
            EngineCall::BodySetType { body: 0, kind: BodyKind::Kinematic },
        ]
    );
    assert_eq!(world.bodies[body.get_cp_body()].kind, BodyKind::Kinematic);
}

#[test]
fn static_body_has_no_mass_of_its_own() {
    let mut world: World<()> = World::new();
    let (first, _) = Body::new(&mut world, num(1.0), num(1.0));
    let (body, calls) = Body::new_static(&mut world);
    assert_eq!(first.get_cp_body(), 0);
    assert_eq!(body.get_cp_body(), 1);
    assert_eq!(
        calls,
        vec![
            EngineCall::BodyInit { body: 1, mass: num(0.0), moment: num(0.0) },
            EngineCall::BodySetType { body: 1, kind: BodyKind::Static },
        ]
    );
    assert_eq!(world.bodies[1].kind, BodyKind::Static);
}

#[test]
fn duplicate_aliases_the_record() {
    let mut world: World<()> = World::new();
    let (body, _) = Body::new(&mut world, num(1.0), num(1.0));
    assert!(body.can_duplicate(&world));
    let alias = body.duplicate(&mut world);
    assert_eq!(alias.get_cp_body(), body.get_cp_body());
    assert_eq!(world.bodies.len(), 1);
    assert_eq!(world.bodies[0].handles, 2);
    assert_eq!(
        body.set_position(&world, num(3.0), num(4.0)),
        EngineCall::BodySetVect { body: 0, attr: BodyVect::Position, value: vect(3.0, 4.0) }
    );
    assert_eq!(alias.position(&world), EngineCall::BodyGetVect { body: 0, attr: BodyVect::Position });
    assert_eq!(body.position(&world), alias.position(&world));
}

#[test]
fn body_lives_until_its_last_handle_goes() {
    let mut world: World<()> = World::new();
    let (body, _) = Body::new(&mut world, num(1.0), num(1.0));
    let alias = body.duplicate(&mut world);
    assert_eq!(body.release(&mut world), vec![]);
    assert!(world.bodies[0].live);
    assert!(alias.is_held_in(&world));
    assert_eq!(alias.release(&mut world), vec![EngineCall::BodyDestroy { body: 0 }]);
    assert!(!world.bodies[0].live);
    assert_eq!(world.bodies[0].handles, 0);
}

#[test]
fn handle_of_a_dead_record_is_not_held() {
    let mut world: World<()> = World::new();
    let (space, _) = Space::new(&mut world);
    let token = space.into_raw_ptr();
    let again = Space::from_raw_ptr(token);
    assert!(again.is_held_in(&world));
    again.release(&mut world);
    let stale = Space::from_raw_ptr(token);
    assert!(!stale.is_held_in(&world));
    let nowhere = Space::from_raw_ptr(17);
    assert!(!nowhere.is_held_in(&world));
}

#[test]
fn raw_token_round_trip_counts_nothing() {
    let mut world: World<()> = World::new();
    let (space, _) = Space::new(&mut world);
    let token = space.into_raw_ptr();
    assert_eq!(token, 0);
    assert_eq!(world.spaces[0].handles, 1);
    let space = Space::from_raw_ptr(token);
    assert_eq!(space.get_cp_space(), 0);
    assert_eq!(world.spaces[0].handles, 1);
    assert_eq!(space.release(&mut world), vec![EngineCall::SpaceDestroy { space: 0 }]);
}

#[test]
fn shape_constructors_name_shape_and_body() {
    let mut world: World<()> = World::new();
    let (_, _) = Body::new_static(&mut world);
    let (body, _) = Body::new(&mut world, num(1.0), num(1.0));
    let (segment, calls) = Shape::new_segment(&mut world, &body, vect(-20.0, 0.0), vect(20.0, 0.0), num(0.0));
    assert_eq!(
        calls,
        vec![EngineCall::SegmentShapeInit {
            shape: 0,
            body: 1,
            a: vect(-20.0, 0.0),
            b: vect(20.0, 0.0),
            radius: num(0.0),
        }]
    );
    assert!(matches!(segment, Shape::Segment(_)));
    let (circle, calls) = Shape::new_circle(&mut world, &body, num(5.0), vect(0.5, 0.0));
    assert_eq!(
        calls,
        vec![EngineCall::CircleShapeInit { shape: 1, body: 1, radius: num(5.0), offset: vect(0.5, 0.0) }]
    );
    assert!(matches!(circle, Shape::Circle(_)));
    let corners = vec![vect(0.0, 0.0), vect(1.0, 0.0), vect(0.0, 1.0)];
    let (poly, calls) = Shape::new_poly(&mut world, &body, corners.clone(), num(0.25));
    assert_eq!(
        calls,
        vec![EngineCall::PolyShapeInit { shape: 2, body: 1, verts: corners, radius: num(0.25) }]
    );
    assert!(matches!(poly, Shape::Poly(_)));
    let (boxed, calls) = Shape::new_box(&mut world, &body, num(2.0), num(3.0), num(0.0));
    assert_eq!(
        calls,
        vec![EngineCall::BoxShapeInit {
            shape: 3,
            body: 1,
            width: num(2.0),
            height: num(3.0),
            radius: num(0.0),
        }]
    );
    assert!(matches!(boxed, Shape::Poly(_)));
    assert_eq!(world.shapes.len(), 4);
    assert_eq!(world.shapes[0].form, ShapeForm::Segment);
    assert_eq!(world.shapes[1].form, ShapeForm::Circle);
    assert_eq!(world.shapes[2].form, ShapeForm::Poly);
    assert_eq!(world.shapes[3].form, ShapeForm::Poly);
    for record in world.shapes.iter() {
        assert_eq!(record.body, 1);
        assert_eq!(record.handles, 1);
        assert!(record.live);
    }
    assert_eq!(world.bodies[1].handles, 1);
}

#[test]
fn empty_polygon_is_passed_on() {
    let mut world: World<()> = World::new();
    let (body, _) = Body::new_static(&mut world);
    let (_, calls) = Shape::new_poly(&mut world, &body, Vec::new(), num(0.0));
    assert_eq!(calls, vec![EngineCall::PolyShapeInit { shape: 0, body: 0, verts: vec![], radius: num(0.0) }]);
}

#[test]
fn shape_keeps_its_body_alive() {
    let mut world: World<()> = World::new();
    let (body, _) = Body::new(&mut world, num(1.0), num(1.0));
    let (shape, _) = Shape::new_circle(&mut world, &body, num(1.0), vect(0.0, 0.0));
    assert_eq!(body.release(&mut world), vec![]);
    assert!(world.bodies[0].live);
    assert_eq!(world.bodies[0].handles, 0);
    assert!(world.body_is_attached(0));
    assert_eq!(
        shape.release(&mut world),
        vec![EngineCall::ShapeDestroy { shape: 0 }, EngineCall::BodyDestroy { body: 0 }]
    );
    assert!(!world.shapes[0].live);
    assert!(!world.bodies[0].live);
    assert!(!world.body_is_attached(0));
}

#[test]
fn tearing_a_shape_down_spares_a_held_body() {
    let mut world: World<()> = World::new();
    let (body, _) = Body::new(&mut world, num(1.0), num(1.0));
    let (shape, _) = Shape::new_circle(&mut world, &body, num(1.0), vect(0.0, 0.0));
    assert_eq!(shape.release(&mut world), vec![EngineCall::ShapeDestroy { shape: 0 }]);
    assert!(world.bodies[0].live);
    assert_eq!(body.release(&mut world), vec![EngineCall::BodyDestroy { body: 0 }]);
}

#[test]
fn one_of_two_shapes_does_not_take_the_body_along() {
    let mut world: World<()> = World::new();
    let (body, _) = Body::new(&mut world, num(1.0), num(1.0));
    let (first, _) = Shape::new_circle(&mut world, &body, num(1.0), vect(0.0, 0.0));
    let (second, _) = Shape::new_circle(&mut world, &body, num(2.0), vect(0.0, 0.0));
    body.release(&mut world);
    assert_eq!(first.release(&mut world), vec![EngineCall::ShapeDestroy { shape: 0 }]);
    assert!(world.bodies[0].live);
    assert_eq!(
        second.release(&mut world),
        vec![EngineCall::ShapeDestroy { shape: 1 }, EngineCall::BodyDestroy { body: 0 }]
    );
}

#[test]
fn shape_duplicate_keeps_index_and_geometry() {
    let mut world: World<()> = World::new();
    let (body, _) = Body::new_static(&mut world);
    let (mut shape, _) = Shape::new_segment(&mut world, &body, vect(0.0, 0.0), vect(1.0, 0.0), num(0.0));
    assert!(shape.can_duplicate(&world));
    let alias = shape.duplicate(&mut world);
    assert!(matches!(alias, Shape::Segment(_)));
    assert_eq!(alias.get_cp_shape(), shape.get_cp_shape());
    assert_eq!(shape.get_cp_shape_mut(), 0);
    assert_eq!(alias.get_form(), ShapeForm::Segment);
    assert_eq!(world.shapes[0].handles, 2);
    assert_eq!(shape.release(&mut world), vec![]);
    assert!(alias.is_held_in(&world));
    assert_eq!(alias.release(&mut world), vec![EngineCall::ShapeDestroy { shape: 0 }]);
}

#[test]
fn new_space_overrides_no_default() {
    let mut world: World<()> = World::new();
    let (space, calls) = Space::new(&mut world);
    assert_eq!(calls, vec![EngineCall::SpaceInit { space: 0 }]);
    assert_eq!(space.get_cp_space(), 0);
    assert_eq!(world.spaces[0].handles, 1);
    assert!(world.spaces[0].bodies.is_empty());
    assert!(world.spaces[0].shapes.is_empty());
    assert!(world.spaces[0].slot.held.is_none());
}

#[test]
fn registering_a_shape_does_not_register_its_body() {
    let mut world: World<()> = World::new();
    let (space, _) = Space::new(&mut world);
    let (body, _) = Body::new(&mut world, num(1.0), num(1.0));
    let (shape, _) = Shape::new_circle(&mut world, &body, num(1.0), vect(0.0, 0.0));
    let calls = space.add_shape(&mut world, &shape);
    assert_eq!(calls, vec![EngineCall::SpaceAddShape { space: 0, shape: 0 }]);
    assert_eq!(world.spaces[0].shapes, vec![0]);
    assert!(world.spaces[0].bodies.is_empty());
    assert!(!world.body_is_registered(0));
    assert!(world.shape_is_registered(0));
    assert_eq!(world.bodies[0].kind, BodyKind::Dynamic);
    let calls = space.add_body(&mut world, &body);
    assert_eq!(calls, vec![EngineCall::SpaceAddBody { space: 0, body: 0 }]);
    assert_eq!(world.spaces[0].bodies, vec![0]);
    assert!(world.body_is_registered(0));
}

#[test]
fn space_keeps_what_is_registered_alive() {
    let mut world: World<()> = World::new();
    let (space, _) = Space::new(&mut world);
    let (body, _) = Body::new(&mut world, num(1.0), num(1.0));
    let (shape, _) = Shape::new_circle(&mut world, &body, num(1.0), vect(0.0, 0.0));
    space.add_body(&mut world, &body);
    space.add_shape(&mut world, &shape);
    assert_eq!(shape.release(&mut world), vec![]);
    assert_eq!(body.release(&mut world), vec![]);
    assert!(world.shapes[0].live);
    assert!(world.bodies[0].live);
    assert_eq!(
        space.release(&mut world),
        vec![
            EngineCall::ShapeDestroy { shape: 0 },
            EngineCall::BodyDestroy { body: 0 },
            EngineCall::SpaceDestroy { space: 0 },
        ]
    );
    assert!(!world.shapes[0].live);
    assert!(!world.bodies[0].live);
    assert_eq!(world.spaces[0].handles, 0);
}

#[test]
fn space_lets_go_of_shapes_then_bodies_then_itself() {
    let mut world: World<()> = World::new();
    let (space, _) = Space::new(&mut world);
    let (floor, _) = Body::new_static(&mut world);
    let (ball, _) = Body::new(&mut world, num(1.0), num(1.0));
    let (ball_shape, _) = Shape::new_circle(&mut world, &ball, num(1.0), vect(0.0, 0.0));
    let (floor_shape, _) = Shape::new_segment(&mut world, &floor, vect(0.0, 0.0), vect(1.0, 0.0), num(0.0));
    space.add_body(&mut world, &ball);
    space.add_shape(&mut world, &floor_shape);
    space.add_shape(&mut world, &ball_shape);
    space.add_body(&mut world, &floor);
    floor.release(&mut world);
    ball.release(&mut world);
    ball_shape.release(&mut world);
    floor_shape.release(&mut world);
    assert_eq!(
        space.release(&mut world),
        vec![
            EngineCall::ShapeDestroy { shape: 0 },
            EngineCall::ShapeDestroy { shape: 1 },
            EngineCall::BodyDestroy { body: 0 },
            EngineCall::BodyDestroy { body: 1 },
            EngineCall::SpaceDestroy { space: 0 },
        ]
    );
}

#[test]
fn tearing_a_space_down_spares_what_the_application_holds() {
    let mut world: World<()> = World::new();
    let (space, _) = Space::new(&mut world);
    let (body, _) = Body::new(&mut world, num(1.0), num(1.0));
    let (shape, _) = Shape::new_circle(&mut world, &body, num(1.0), vect(0.0, 0.0));
    let (other, _) = Body::new_static(&mut world);
    space.add_body(&mut world, &body);
    space.add_shape(&mut world, &shape);
    space.add_body(&mut world, &other);
    other.release(&mut world);
    assert_eq!(
        space.release(&mut world),
        vec![EngineCall::BodyDestroy { body: 1 }, EngineCall::SpaceDestroy { space: 0 }]
    );
    assert!(world.bodies[0].live);
    assert!(world.shapes[0].live);
    assert!(body.is_held_in(&world));
    assert!(shape.is_held_in(&world));
    assert_eq!(
        shape.release(&mut world),
        vec![EngineCall::ShapeDestroy { shape: 0 }]
    );
    assert_eq!(body.release(&mut world), vec![EngineCall::BodyDestroy { body: 0 }]);
}

#[test]
fn space_lives_until_its_last_handle_goes() {
    let mut world: World<()> = World::new();
    let (space, _) = Space::new(&mut world);
    let (body, _) = Body::new_static(&mut world);
    space.add_body(&mut world, &body);
    body.release(&mut world);
    assert!(space.can_duplicate(&world));
    let alias = space.duplicate_homogenous(&mut world);
    assert_eq!(alias.get_cp_space(), 0);
    assert_eq!(space.release(&mut world), vec![]);
    assert!(world.bodies[0].live);
    assert_eq!(
        alias.release(&mut world),
        vec![EngineCall::BodyDestroy { body: 0 }, EngineCall::SpaceDestroy { space: 0 }]
    );
}

#[test]
fn body_in_two_spaces_outlives_the_first() {
    let mut world: World<()> = World::new();
    let (first, _) = Space::new(&mut world);
    let (second, _) = Space::new(&mut world);
    let (body, _) = Body::new_static(&mut world);
    first.add_body(&mut world, &body);
    second.add_body(&mut world, &body);
    body.release(&mut world);
    assert_eq!(first.release(&mut world), vec![EngineCall::SpaceDestroy { space: 0 }]);
    assert!(world.bodies[0].live);
    assert_eq!(
        second.release(&mut world),
        vec![EngineCall::BodyDestroy { body: 0 }, EngineCall::SpaceDestroy { space: 1 }]
    );
}

#[test]
fn settle_leaves_a_settled_world_alone() {
    let mut world: World<()> = World::new();
    let (space, _) = Space::new(&mut world);
    let (body, _) = Body::new_static(&mut world);
    space.add_body(&mut world, &body);
    let mut calls = vec![EngineCall::SpaceStep { space: 0, interval: num(0.5) }];
    world.settle(&mut calls);
    assert_eq!(calls, vec![EngineCall::SpaceStep { space: 0, interval: num(0.5) }]);
    assert!(world.bodies[0].live);
}

#[test]
fn body_attributes_are_asked_of_the_record() {
    let mut world: World<()> = World::new();
    let (_, _) = Body::new_static(&mut world);
    let (body, _) = Body::new(&mut world, num(1.0), num(1.0));
    let scalar = |attr| EngineCall::BodyGetScalar { body: 1, attr };
    let vector = |attr| EngineCall::BodyGetVect { body: 1, attr };
    assert_eq!(body.angle_rad(&world), scalar(BodyScalar::Angle));
    assert_eq!(body.angular_velocity_rad(&world), scalar(BodyScalar::AngularVelocity));
    assert_eq!(body.mass(&world), scalar(BodyScalar::Mass));
    assert_eq!(body.moment(&world), scalar(BodyScalar::Moment));
    assert_eq!(body.torque(&world), scalar(BodyScalar::Torque));
    assert_eq!(body.center_of_gravity(&world), vector(BodyVect::CenterOfGravity));
    assert_eq!(body.force(&world), vector(BodyVect::Force));
    assert_eq!(body.position(&world), vector(BodyVect::Position));
    assert_eq!(body.velocity(&world), vector(BodyVect::Velocity));
}

#[test]
fn body_setters_pass_their_numbers_on() {
    let mut world: World<()> = World::new();
    let (body, _) = Body::new(&mut world, num(1.0), num(1.0));
    let scalar = |attr, x| EngineCall::BodySetScalar { body: 0, attr, value: num(x) };
    let vector = |attr, x, y| EngineCall::BodySetVect { body: 0, attr, value: vect(x, y) };
    assert_eq!(body.set_angle_rad(&world, num(0.5)), scalar(BodyScalar::Angle, 0.5));
    assert_eq!(body.set_angular_velocity_rad(&world, num(1.5)), scalar(BodyScalar::AngularVelocity, 1.5));
    assert_eq!(body.set_mass(&world, num(-2.0)), scalar(BodyScalar::Mass, -2.0));
    assert_eq!(body.set_moment(&world, num(8.0)), scalar(BodyScalar::Moment, 8.0));
    assert_eq!(body.set_torque(&world, num(3.0)), scalar(BodyScalar::Torque, 3.0));
    assert_eq!(
        body.set_center_of_gravity(&world, num(1.0), num(2.0)),
        vector(BodyVect::CenterOfGravity, 1.0, 2.0)
    );
    assert_eq!(body.set_force(&world, num(0.0), num(-9.5)), vector(BodyVect::Force, 0.0, -9.5));
    assert_eq!(body.set_position(&world, num(0.0), num(15.0)), vector(BodyVect::Position, 0.0, 15.0));
    assert_eq!(body.set_velocity(&world, num(7.0), num(0.1)), vector(BodyVect::Velocity, 7.0, 0.1));
}

#[test]
fn position_reaches_the_engine_bit_for_bit() {
    let mut world: World<()> = World::new();
    let (body, _) = Body::new(&mut world, num(1.0), num(1.0));
    let x = Scalar::from_bits(0x7ff8_0000_0000_1234);
    let y = Scalar::from_bits(0x8000_0000_0000_0000);
    match body.set_position(&world, x, y) {
        EngineCall::BodySetVect { body: 0, attr: BodyVect::Position, value } => {
            assert_eq!(value.x.to_bits(), 0x7ff8_0000_0000_1234);
            assert_eq!(value.y.to_bits(), 0x8000_0000_0000_0000);
        }
        other => panic!("not a position: {:?}", other),
    }
}

#[test]
fn setting_the_mass_of_a_body_leaves_its_shapes_alone() {
    let mut world: World<()> = World::new();
    let (body, _) = Body::new(&mut world, num(1.0), num(1.0));
    let (shape, _) = Shape::new_circle(&mut world, &body, num(1.0), vect(0.0, 0.0));
    assert_eq!(
        body.set_mass(&world, num(4.0)),
        EngineCall::BodySetScalar { body: 0, attr: BodyScalar::Mass, value: num(4.0) }
    );
    assert_eq!(shape.mass(&world), EngineCall::ShapeGetScalar { shape: 0, attr: ShapeScalar::Mass });
}

#[test]
fn shape_attributes_are_asked_of_the_record() {
    let mut world: World<()> = World::new();
    let (body, _) = Body::new_static(&mut world);
    let (_, _) = Shape::new_circle(&mut world, &body, num(1.0), vect(0.0, 0.0));
    let (shape, _) = Shape::new_circle(&mut world, &body, num(1.0), vect(0.0, 0.0));
    let scalar = |attr| EngineCall::ShapeGetScalar { shape: 1, attr };
    assert_eq!(shape.density(&world), scalar(ShapeScalar::Density));
    assert_eq!(shape.elasticity(&world), scalar(ShapeScalar::Elasticity));
    assert_eq!(shape.friction(&world), scalar(ShapeScalar::Friction));
    assert_eq!(shape.mass(&world), scalar(ShapeScalar::Mass));
    assert_eq!(shape.is_sensor(&world), EngineCall::ShapeGetSensor { shape: 1 });
    assert_eq!(shape.surface_velocity(&world), EngineCall::ShapeGetSurfaceVelocity { shape: 1 });
}

#[test]
fn shape_setters_pass_their_numbers_on() {
    let mut world: World<()> = World::new();
    let (body, _) = Body::new_static(&mut world);
    let (shape, _) = Shape::new_circle(&mut world, &body, num(1.0), vect(0.0, 0.0));
    let scalar = |attr, x| EngineCall::ShapeSetScalar { shape: 0, attr, value: num(x) };
    assert_eq!(shape.set_density(&world, num(2.0)), scalar(ShapeScalar::Density, 2.0));
    assert_eq!(shape.set_elasticity(&world, num(0.5)), scalar(ShapeScalar::Elasticity, 0.5));
    assert_eq!(shape.set_mass(&world, num(3.0)), scalar(ShapeScalar::Mass, 3.0));
    assert_eq!(
        shape.set_surface_velocity(&world, vect(1.0, -1.0)),
        EngineCall::ShapeSetSurfaceVelocity { shape: 0, value: vect(1.0, -1.0) }
    );
}

#[test]
fn set_friction_sets_the_friction_and_not_the_elasticity() {
    let mut world: World<()> = World::new();
    let (body, _) = Body::new_static(&mut world);
    let (shape, _) = Shape::new_circle(&mut world, &body, num(1.0), vect(0.0, 0.0));
    let call = shape.set_friction(&world, num(0.7));
    assert_eq!(call, EngineCall::ShapeSetScalar { shape: 0, attr: ShapeScalar::Friction, value: num(0.7) });
    assert_ne!(call, EngineCall::ShapeSetScalar { shape: 0, attr: ShapeScalar::Elasticity, value: num(0.7) });
}

#[test]
fn sensor_flag_is_one_or_zero() {
    let mut world: World<()> = World::new();
    let (body, _) = Body::new_static(&mut world);
    let (shape, _) = Shape::new_circle(&mut world, &body, num(1.0), vect(0.0, 0.0));
    assert_eq!(shape.set_sensor(&world, true), EngineCall::ShapeSetSensor { shape: 0, flag: 1 });
    assert_eq!(shape.set_sensor(&world, false), EngineCall::ShapeSetSensor { shape: 0, flag: 0 });
    assert!(!Shape::sensor_of(0));
    assert!(Shape::sensor_of(1));
    assert!(Shape::sensor_of(255));
}

#[test]
fn geometry_is_asked_of_the_matching_handle() {
    let mut world: World<()> = World::new();
    let (body, _) = Body::new_static(&mut world);
    let (poly, _) = Shape::new_box(&mut world, &body, num(1.0), num(1.0), num(0.0));
    let (circle, _) = Shape::new_circle(&mut world, &body, num(1.0), vect(0.0, 0.0));
    let (segment, _) = Shape::new_segment(&mut world, &body, vect(0.0, 0.0), vect(1.0, 0.0), num(0.0));
    match poly {
        Shape::Poly(p) => {
            assert!(p.is_held_in(&world));
            assert_eq!(p.count(&world), EngineCall::PolyShapeGetCount { shape: 0 });
            assert_eq!(p.radius(&world), EngineCall::PolyShapeGetRadius { shape: 0 });
            assert_eq!(p.vert(&world, 3), EngineCall::PolyShapeGetVert { shape: 0, index: 3 });
            assert_eq!(
                p.vert(&world, 2147483647),
                EngineCall::PolyShapeGetVert { shape: 0, index: i32::MAX }
            );
        }
        _ => panic!("a box is a polygon"),
    }
    match circle {
        Shape::Circle(c) => {
            assert!(c.is_held_in(&world));
            assert_eq!(c.offset(&world), EngineCall::CircleShapeGetOffset { shape: 1 });
            assert_eq!(c.radius(&world), EngineCall::CircleShapeGetRadius { shape: 1 });
        }
        _ => panic!("a circle was made"),
    }
    match segment {
        Shape::Segment(s) => {
            assert!(s.is_held_in(&world));
            assert_eq!(s.start(&world), EngineCall::SegmentShapeGetA { shape: 2 });
            assert_eq!(s.end(&world), EngineCall::SegmentShapeGetB { shape: 2 });
            assert_eq!(s.normal(&world), EngineCall::SegmentShapeGetNormal { shape: 2 });
            assert_eq!(s.radius(&world), EngineCall::SegmentShapeGetRadius { shape: 2 });
        }
        _ => panic!("a segment was made"),
    }
}

#[test]
fn space_tunables_are_asked_of_the_record() {
    let mut world: World<()> = World::new();
    let (_, _) = Space::new(&mut world);
    let (space, _) = Space::new(&mut world);
    let scalar = |attr| EngineCall::SpaceGetScalar { space: 1, attr };
    assert_eq!(space.gravity(&world), EngineCall::SpaceGetGravity { space: 1 });
    assert_eq!(space.damping(&world), scalar(SpaceScalar::Damping));
    assert_eq!(space.collision_slop(&world), scalar(SpaceScalar::CollisionSlop));
    assert_eq!(space.collision_bias(&world), scalar(SpaceScalar::CollisionBias));
    assert_eq!(space.idle_speed_threshold(&world), scalar(SpaceScalar::IdleSpeedThreshold));
    assert_eq!(space.sleep_time_threshold(&world), scalar(SpaceScalar::SleepTimeThreshold));
    assert_eq!(space.collision_persistence(&world), EngineCall::SpaceGetCollisionPersistence { space: 1 });
    assert_eq!(space.iterations(&world), EngineCall::SpaceGetIterations { space: 1 });
}

#[test]
fn space_setters_pass_their_numbers_on() {
    let mut world: World<()> = World::new();
    let (space, _) = Space::new(&mut world);
    let scalar = |attr, x| EngineCall::SpaceSetScalar { space: 0, attr, value: num(x) };
    assert_eq!(
        space.set_gravity(&world, num(0.0), num(-100.0)),
        EngineCall::SpaceSetGravity { space: 0, value: vect(0.0, -100.0) }
    );
    assert_eq!(space.set_damping(&world, num(0.9)), scalar(SpaceScalar::Damping, 0.9));
    assert_eq!(space.set_collision_slop(&world, num(0.1)), scalar(SpaceScalar::CollisionSlop, 0.1));
    assert_eq!(space.set_collision_bias(&world, num(0.2)), scalar(SpaceScalar::CollisionBias, 0.2));
    assert_eq!(
        space.set_idle_speed_threshold(&world, num(0.3)),
        scalar(SpaceScalar::IdleSpeedThreshold, 0.3)
    );
    assert_eq!(
        space.set_sleep_time_threshold(&world, num(f64::INFINITY)),
        scalar(SpaceScalar::SleepTimeThreshold, f64::INFINITY)
    );
    assert_eq!(
        space.set_collision_persistence(&world, 3),
        EngineCall::SpaceSetCollisionPersistence { space: 0, value: 3 }
    );
    assert_eq!(space.set_iterations(&world, -10), EngineCall::SpaceSetIterations { space: 0, value: -10 });
    assert_eq!(
        space.step(&world, num(-0.25)),
        EngineCall::SpaceStep { space: 0, interval: num(-0.25) }
    );
}

#[test]
fn moment_of_circle_is_asked_about_the_centre() {
    assert_eq!(
        moment_of_circle(num(1.0), num(5.0), num(0.0)),
        EngineCall::MomentForCircle { mass: num(1.0), inner: num(5.0), outer: num(0.0), offset: vect(0.0, 0.0) }
    );
}

#[test]
fn bouncing_ball_is_set_up_and_torn_down_in_order() {
    let mut world: World<()> = World::new();
    let mut trace: Vec<EngineCall> = Vec::new();
    trace.push(moment_of_circle(num(1.0), num(5.0), num(0.0)));
    let moment = num(12.5);
    let (space, mut calls) = Space::new(&mut world);
    trace.append(&mut calls);
    trace.push(space.set_gravity(&world, num(0.0), num(-100.0)));
    let (floor, mut calls) = Body::new_static(&mut world);
    trace.append(&mut calls);
    let (floor_shape, mut calls) =
        Shape::new_segment(&mut world, &floor, vect(-20.0, 0.0), vect(20.0, 0.0), num(0.0));
    trace.append(&mut calls);
    trace.push(floor_shape.set_friction(&world, num(1.0)));
    trace.append(&mut space.add_body(&mut world, &floor));
    trace.append(&mut space.add_shape(&mut world, &floor_shape));
    let (ball, mut calls) = Body::new(&mut world, num(1.0), moment);
    trace.append(&mut calls);
    let (ball_shape, mut calls) = Shape::new_circle(&mut world, &ball, num(5.0), vect(0.0, 0.0));
    trace.append(&mut calls);
    trace.push(ball.set_position(&world, num(0.0), num(15.0)));
    trace.push(ball_shape.set_friction(&world, num(0.7)));
    trace.append(&mut space.add_body(&mut world, &ball));
    trace.append(&mut space.add_shape(&mut world, &ball_shape));
    let friction = |shape, x| EngineCall::ShapeSetScalar { shape, attr: ShapeScalar::Friction, value: num(x) };
    assert_eq!(
        trace,
        vec![
            EngineCall::MomentForCircle {
                mass: num(1.0),
                inner: num(5.0),
                outer: num(0.0),
                offset: vect(0.0, 0.0),
            },
            EngineCall::SpaceInit { space: 0 },
            EngineCall::SpaceSetGravity { space: 0, value: vect(0.0, -100.0) },
            EngineCall::BodyInit { body: 0, mass: num(0.0), moment: num(0.0) },
            EngineCall::BodySetType { body: 0, kind: BodyKind::Static },
            EngineCall::SegmentShapeInit {
                shape: 0,
                body: 0,
                a: vect(-20.0, 0.0),
                b: vect(20.0, 0.0),
                radius: num(0.0),
            },
            friction(0, 1.0),
            EngineCall::SpaceAddBody { space: 0, body: 0 },
            EngineCall::SpaceAddShape { space: 0, shape: 0 },
            EngineCall::BodyInit { body: 1, mass: num(1.0), moment: num(12.5) },
            EngineCall::CircleShapeInit { shape: 1, body: 1, radius: num(5.0), offset: vect(0.0, 0.0) },
            EngineCall::BodySetVect { body: 1, attr: BodyVect::Position, value: vect(0.0, 15.0) },
            friction(1, 0.7),
            EngineCall::SpaceAddBody { space: 0, body: 1 },
            EngineCall::SpaceAddShape { space: 0, shape: 1 },
        ]
    );
    for _ in 0..60 {
        assert_eq!(ball.position(&world), EngineCall::BodyGetVect { body: 1, attr: BodyVect::Position });
        assert_eq!(
            space.step(&world, num(1.0 / 60.0)),
            EngineCall::SpaceStep { space: 0, interval: num(1.0 / 60.0) }
        );
    }
    assert_eq!(ball_shape.release(&mut world), vec![]);
    assert_eq!(ball.release(&mut world), vec![]);
    assert_eq!(floor_shape.release(&mut world), vec![]);
    assert_eq!(floor.release(&mut world), vec![]);
    assert_eq!(
        space.release(&mut world),
        vec![
            EngineCall::ShapeDestroy { shape: 0 },
            EngineCall::ShapeDestroy { shape: 1 },
            EngineCall::BodyDestroy { body: 0 },
            EngineCall::BodyDestroy { body: 1 },
            EngineCall::SpaceDestroy { space: 0 },
        ]
    );
}
