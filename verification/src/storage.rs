//! A keyed store for the values of one component kind.

use std::collections::hash_map::Entry;
use std::collections::HashMap;
use vstd::prelude::*;

use crate::component::EntityId;

verus! {

broadcast use vstd::std_specs::hash::group_hash_axioms;

/// All values of one component kind, keyed by the entity that carries them.
/// An entity has at most one value here.
pub struct ComponentStorage<T> {
    components: HashMap<EntityId, T>,
}

impl<T> View for ComponentStorage<T> {
    type V = Map<EntityId, T>;

    closed spec fn view(&self) -> Map<EntityId, T> {
        self.components@
    }
}

impl<T> ComponentStorage<T> {
    /// A store that holds nothing.
    pub fn new() -> (s: Self)
        ensures
            s@ == Map::<EntityId, T>::empty(),
    {
        Self { components: HashMap::new() }
    }

    /// Attaches `component` to `entity`, in place of what it carried before.
    pub fn insert(&mut self, entity: EntityId, component: T)
        ensures
            final(self)@ == old(self)@.insert(entity, component),
    {
        self.components.insert(entity, component);
    }

    /// The value that `entity` carries, if it carries one.
    pub fn get(&self, entity: EntityId) -> (r: Option<&T>)
        ensures
            r == (if self@.contains_key(entity) {
                Some(&self@[entity])
            } else {
                None
            }),
    {
        self.components.get(&entity)
    }

    /// A handle on the value that `entity` carries, if it carries one. What is
    /// written through the handle is what the store holds afterwards.
    pub fn get_mut(&mut self, entity: EntityId) -> (r: Option<&mut T>)
        ensures
            match r {
                Some(v) => old(self)@.contains_key(entity) && *v == old(self)@[entity]
                    && final(self)@ == old(self)@.insert(entity, *final(v)),
                None => !old(self)@.contains_key(entity) && final(self)@ == old(self)@,
            },
    {
        match self.components.entry(entity) {
            Entry::Occupied(slot) => Some(slot.into_mut()),
            Entry::Vacant(_) => None,
        }
    }
}

} // verus!
