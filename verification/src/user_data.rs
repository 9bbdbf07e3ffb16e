//! Extension data: one tagged value per entity.

use vstd::prelude::*;

verus! {

/// Identifies the type under which a value was stored in a slot.
#[derive(Clone, Copy, Debug, PartialEq, Eq, Structural)]
pub struct TypeTag {
    pub id: u64,
}

/// An optional value together with the tag it was stored under.
///
/// A slot holds at most one value. Retrieval names a tag and yields the
/// value only when it was stored under that very tag; an empty slot and a
/// slot filled under another tag look the same to the caller.
pub struct Slot<V> {
    pub held: Option<(TypeTag, V)>,
}

impl<V> Slot<V> {
    /// What retrieval under `tag` yields.
    pub open spec fn lookup(&self, tag: TypeTag) -> Option<V> {
        match self.held {
            Some((t, v)) => if t == tag { Some(v) } else { None },
            None => None,
        }
    }

    /// A slot that holds nothing.
    pub fn empty() -> (r: Slot<V>)
        ensures
            r.held is None,
    {
        Slot { held: None }
    }

    /// Stores `value` under `tag`, replacing whatever the slot held.
    pub fn set(&mut self, tag: TypeTag, value: V)
        ensures
            final(self).held == Some((tag, value)),
    {
        self.held = Some((tag, value));
    }

    /// Empties the slot.
    pub fn clear(&mut self)
        ensures
            final(self).held is None,
    {
        self.held = None;
    }

    /// The value stored under `tag`, if the slot holds one.
    pub fn get(&self, tag: TypeTag) -> (r: Option<&V>)
        ensures
            r == match self.lookup(tag) {
                Some(v) => Some(&v),
                None => None,
            },
    {
        match &self.held {
            Some((t, v)) => if t.id == tag.id { Some(v) } else { None },
            None => None,
        }
    }

    /// Mutable access to the value stored under `tag`, if the slot holds one.
    pub fn get_mut(&mut self, tag: TypeTag) -> (r: Option<&mut V>)
        ensures
            match r {
                Some(v) => old(self).lookup(tag) == Some(*v)
                    && final(self).held == Some((tag, *final(v))),
                None => old(self).lookup(tag) is None && *final(self) == *old(self),
            },
    {
        match &mut self.held {
            Some((t, v)) => if t.id == tag.id { Some(v) } else { None },
            None => None,
        }
    }
}

/// What was stored under a tag is found under that tag, and under no other.
pub proof fn lemma_stored_is_found<V>(slot: Slot<V>, tag: TypeTag, other: TypeTag, value: V)
    requires
        slot.held == Some((tag, value)),
    ensures
        slot.lookup(tag) == Some(value),
        other != tag ==> slot.lookup(other) is None,
{
}

/// In an empty slot nothing is found, whatever the tag.
pub proof fn lemma_empty_finds_nothing<V>(slot: Slot<V>, tag: TypeTag)
    requires
        slot.held is None,
    ensures
        slot.lookup(tag) is None,
{
}

/// An entity that carries extension data.
///
/// Every entity offers the same three operations on its slot; they touch
/// nothing but the slot.
pub trait UserData<V>: Sized {
    /// The slot of the entity.
    spec fn slot(&self) -> Slot<V>;

    /// `other` is this entity but for what its slot holds.
    spec fn same_entity(&self, other: &Self) -> bool;

    /// The slot of the entity.
    fn get_userdata_box(&self) -> (r: &Slot<V>)
        ensures
            *r == self.slot(),
    ;

    /// Mutable access to the slot of the entity.
    fn get_userdata_mut_box(&mut self) -> (r: &mut Slot<V>)
        ensures
            *r == old(self).slot(),
            final(self).slot() == *final(r),
            old(self).same_entity(final(self)),
    ;

    /// The value stored under `tag`; nothing when the slot is empty or was
    /// filled under another tag.
    fn user_data(&self, tag: TypeTag) -> (r: Option<&V>)
        ensures
            r == match self.slot().lookup(tag) {
                Some(v) => Some(&v),
                None => None,
            },
    {
        self.get_userdata_box().get(tag)
    }

    /// Mutable access to the value stored under `tag`; nothing when the
    /// slot is empty or was filled under another tag.
    fn user_data_mut(&mut self, tag: TypeTag) -> (r: Option<&mut V>)
        ensures
            old(self).same_entity(final(self)),
            match r {
                Some(v) => old(self).slot().lookup(tag) == Some(*v) && final(self).slot().held == Some(
                    (tag, *final(v)),
                ),
                None => old(self).slot().lookup(tag) is None && final(self).slot() == old(self).slot(),
            },
    {
        self.get_userdata_mut_box().get_mut(tag)
    }

    /// Stores `val` under `tag`, in place of whatever was stored.
    fn set_user_data(&mut self, tag: TypeTag, val: V)
        ensures
            old(self).same_entity(final(self)),
            final(self).slot().held == Some((tag, val)),
    {
        self.get_userdata_mut_box().set(tag, val);
    }
}

} // verus!
