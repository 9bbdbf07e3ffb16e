use chipmunk::arbiter::{Arbiter, ContactPoint, ContactPointSet, MAX_CONTACTS};
use chipmunk::engine::EngineCall;
use chipmunk::scalar::{Scalar, Vect};

fn number(x: f64) -> Scalar {
    Scalar::from_bits(x.to_bits())
}

fn point(x: f64) -> ContactPoint {
    ContactPoint {
        a: Vect::new(number(x), number(0.0)),
        b: Vect::new(number(x), number(1.0)),
        dist: number(-x),
    }
}

#[test]
fn pair_has_at_most_two_points() {
    assert_eq!(MAX_CONTACTS, 2);
    assert!(Arbiter::from_engine(-1).is_none());
    assert!(Arbiter::from_engine(3).is_none());
    assert!(Arbiter::from_engine(i32::MAX).is_none());
    assert!(Arbiter::from_engine(i32::MIN).is_none());
    for count in 0..=2 {
        match Arbiter::from_engine(count) {
            Some(pair) => assert_eq!(pair.count(), count as u32),
            None => panic!("{} points are possible", count),
        }
    }
}

#[test]
fn contact_points_are_taken_over_as_they_are() {
    let normal = Vect::new(number(0.0), number(1.0));
    let points = [point(1.0), point(2.0)];
    assert_eq!(
        ContactPointSet::from_engine(1, normal, points),
        Some(ContactPointSet { count: 1, normal, points })
    );
    assert_eq!(
        ContactPointSet::from_engine(0, normal, points),
        Some(ContactPointSet { count: 0, normal, points })
    );
    assert_eq!(
        ContactPointSet::from_engine(2, normal, points),
        Some(ContactPointSet { count: 2, normal, points })
    );
    assert_eq!(ContactPointSet::from_engine(3, normal, points), None);
    assert_eq!(ContactPointSet::from_engine(-1, normal, points), None);
}

#[test]
fn contact_points_agree_with_the_count_of_the_pair() {
    let normal = Vect::new(number(1.0), number(0.0));
    let points = [point(1.0), point(2.0)];
    let pair = Arbiter::from_engine(2).unwrap();
    assert_eq!(pair.contact_point_set(), EngineCall::ArbiterGetContactPointSet);
    let set = pair.read_contact_point_set(2, normal, points).unwrap();
    assert_eq!(set.count, pair.count());
    assert_eq!(set.normal, normal);
    assert_eq!(set.points[1].dist, number(-2.0));
    assert_eq!(pair.read_contact_point_set(1, normal, points), None);
    assert_eq!(pair.read_contact_point_set(-2, normal, points), None);
}

#[test]
fn points_are_asked_for_by_index() {
    let pair = Arbiter::from_engine(2).unwrap();
    assert_eq!(pair.depth(0), EngineCall::ArbiterGetDepth { index: 0 });
    assert_eq!(pair.depth(1), EngineCall::ArbiterGetDepth { index: 1 });
    assert_eq!(pair.point_a(1), EngineCall::ArbiterGetPointA { index: 1 });
    assert_eq!(pair.point_b(0), EngineCall::ArbiterGetPointB { index: 0 });
}

#[test]
fn combined_values_are_asked_for_and_overridden() {
    let mut pair = Arbiter::from_engine(0).unwrap();
    assert_eq!(pair.normal(), EngineCall::ArbiterGetNormal);
    assert_eq!(pair.friction(), EngineCall::ArbiterGetFriction);
    assert_eq!(pair.restitution(), EngineCall::ArbiterGetRestitution);
    assert_eq!(pair.surface_velocity(), EngineCall::ArbiterGetSurfaceVelocity);
    assert_eq!(pair.set_friction(number(0.5)), EngineCall::ArbiterSetFriction { value: number(0.5) });
    assert_eq!(
        pair.set_restitution(number(0.25)),
        EngineCall::ArbiterSetRestitution { value: number(0.25) }
    );
    assert_eq!(
        pair.set_surface_velocity(number(1.0), number(-1.0)),
        EngineCall::ArbiterSetSurfaceVelocity { value: Vect::new(number(1.0), number(-1.0)) }
    );
    assert_eq!(pair.count(), 0);
}
