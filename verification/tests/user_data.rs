use chipmunk::body::Body;
use chipmunk::scalar::Scalar;
use chipmunk::space::Space;
use chipmunk::user_data::{Slot, TypeTag, UserData};
use chipmunk::world::World;

const TEXT: TypeTag = TypeTag { id: 1 };
const NUMBER: TypeTag = TypeTag { id: 2 };

#[test]
fn empty_slot_yields_nothing() {
    let slot: Slot<String> = Slot::empty();
    assert!(slot.get(TEXT).is_none());
    assert!(slot.get(NUMBER).is_none());
}

#[test]
fn slot_round_trip() {
    let mut slot: Slot<String> = Slot::empty();
    slot.set(TEXT, String::from("ball"));
    assert_eq!(slot.get(TEXT), Some(&String::from("ball")));
}

#[test]
fn slot_yields_nothing_under_another_tag() {
    let mut slot: Slot<String> = Slot::empty();
    slot.set(TEXT, String::from("ball"));
    assert!(slot.get(NUMBER).is_none());
    assert!(slot.get_mut(NUMBER).is_none());
}

#[test]
fn slot_set_overwrites_whatever_was_stored() {
    let mut slot: Slot<i64> = Slot::empty();
    slot.set(TEXT, 1);
    slot.set(NUMBER, 2);
    assert!(slot.get(TEXT).is_none());
    assert_eq!(slot.get(NUMBER), Some(&2));
}

#[test]
fn slot_get_mut_changes_the_stored_value() {
    let mut slot: Slot<i64> = Slot::empty();
    slot.set(NUMBER, 2);
    match slot.get_mut(NUMBER) {
        Some(v) => *v += 40,
        None => panic!("the value was stored under this tag"),
    }
    assert_eq!(slot.get(NUMBER), Some(&42));
}

#[test]
fn slot_clear_empties() {
    let mut slot: Slot<i64> = Slot::empty();
    slot.set(NUMBER, 2);
    slot.clear();
    assert!(slot.get(NUMBER).is_none());
    assert!(slot.held.is_none());
}

#[test]
fn records_offer_the_slot_operations() {
    let mut world: World<String> = World::new();
    let (body, _) = Body::new_static(&mut world);
    let record = &mut world.bodies[body.get_cp_body()];
    assert!(record.user_data(TEXT).is_none());
    record.set_user_data(TEXT, String::from("floor"));
    assert_eq!(record.user_data(TEXT), Some(&String::from("floor")));
    assert!(record.user_data(NUMBER).is_none());
    if let Some(v) = record.user_data_mut(TEXT) {
        v.push_str("ing");
    }
    assert_eq!(record.get_userdata_box().get(TEXT), Some(&String::from("flooring")));
    record.get_userdata_mut_box().clear();
    assert!(record.user_data(TEXT).is_none());
    assert_eq!(record.handles, 1);
    assert!(record.live);
}

#[test]
fn body_data_is_shared_by_duplicates() {
    let mut world: World<i64> = World::new();
    let (body, _) = Body::new_static(&mut world);
    let alias = body.duplicate(&mut world);
    body.set_user_data(&mut world, NUMBER, 7);
    assert_eq!(alias.user_data(&world, NUMBER), Some(&7));
    assert!(alias.user_data(&world, TEXT).is_none());
    if let Some(v) = alias.user_data_mut(&mut world, NUMBER) {
        *v = 8;
    }
    assert_eq!(body.user_data(&world, NUMBER), Some(&8));
}

#[test]
fn swap_userdata_replaces_the_data_of_the_space() {
    let mut world: World<i64> = World::new();
    let (space, _) = Space::new(&mut world);
    let other = space.duplicate_homogenous(&mut world);
    let space = space.swap_userdata(&mut world, TEXT, 5);
    assert_eq!(other.user_data(&world, TEXT), Some(&5));
    let other = other.swap_userdata(&mut world, NUMBER, 6);
    assert!(space.user_data(&world, TEXT).is_none());
    assert_eq!(space.user_data(&world, NUMBER), Some(&6));
    assert_eq!(world.spaces[other.get_cp_space()].handles, 2);
}

#[test]
fn data_goes_when_the_record_is_torn_down() {
    let mut world: World<i64> = World::new();
    let (body, _) = Body::new(&mut world, Scalar::zero(), Scalar::zero());
    body.set_user_data(&mut world, NUMBER, 7);
    body.release(&mut world);
    assert!(world.bodies[0].slot.held.is_none());
    assert!(!world.bodies[0].live);
}
