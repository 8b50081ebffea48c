//! The store of entities.
use vstd::prelude::*;
use crate::components::Components;
use crate::components::Entity;

verus! {

/// Every entity ever spawned, by its number; a despawned entity leaves its
/// slot empty, and its number is never given out again.
pub struct World {
    slots: Vec<Option<Components>>,
}

/// The slots of the store, by entity number: what is attached to each entity
/// that lives, and nothing for one that is gone.
pub type Slots = Seq<Option<Components>>;

/// What is attached to `entity`, if it lives.
pub open spec fn lookup(slots: Slots, entity: Entity) -> Option<Components> {
    if entity.0 < slots.len() {
        slots[entity.0 as int]
    } else {
        None
    }
}

pub open spec fn alive(slots: Slots, entity: Entity) -> bool {
    lookup(slots, entity) is Some
}

/// The store once `entity` is gone.
pub open spec fn without(slots: Slots, entity: Entity) -> Slots {
    if entity.0 < slots.len() {
        slots.update(entity.0 as int, None)
    } else {
        slots
    }
}

/// The store once a living `entity` has `components` attached; a dead one
/// takes nothing.
pub open spec fn with(
    slots: Slots,
    entity: Entity,
    components: Components,
) -> Slots {
    if alive(slots, entity) {
        slots.update(entity.0 as int, Some(components))
    } else {
        slots
    }
}

impl World {
    /// The slots of the store, by entity number.
    pub closed spec fn view(&self) -> Slots {
        self.slots@
    }

    pub fn new() -> (world: World)
        ensures
            world@.len() == 0,
    {
        World { slots: Vec::new() }
    }

    /// How many entities were ever spawned.
    pub fn len(&self) -> (n: usize)
        ensures
            n == self@.len(),
    {
        self.slots.len()
    }

    /// Adds an entity with `components` attached and names it.
    pub fn spawn(&mut self, components: Components) -> (entity: Entity)
        ensures
            entity.0 == old(self)@.len(),
            final(self)@ == old(self)@.push(Some(components)),
    {
        let entity = Entity(self.slots.len());
        self.slots.push(Some(components));
        entity
    }

    /// Removes `entity` and says whether it was there.
    pub fn despawn(&mut self, entity: Entity) -> (was_alive: bool)
        ensures
            was_alive == alive(old(self)@, entity),
            final(self)@ == without(old(self)@, entity),
    {
        if entity.0 < self.slots.len() {
            let was_alive = self.slots[entity.0].is_some();
            self.slots.set(entity.0, None);
            was_alive
        } else {
            false
        }
    }

    pub fn contains(&self, entity: Entity) -> (found: bool)
        ensures
            found == alive(self@, entity),
    {
        entity.0 < self.slots.len() && self.slots[entity.0].is_some()
    }

    /// What is attached to `entity`, if it lives.
    pub fn get(&self, entity: Entity) -> (components: Option<Components>)
        ensures
            components == lookup(self@, entity),
    {
        if entity.0 < self.slots.len() {
            self.slots[entity.0]
        } else {
            None
        }
    }

    /// Replaces what is attached to a living `entity` and says whether it
    /// lives.
    pub fn set(&mut self, entity: Entity, components: Components) -> (was_alive: bool)
        ensures
            was_alive == alive(old(self)@, entity),
            final(self)@ == with(old(self)@, entity, components),
    {
        if entity.0 < self.slots.len() && self.slots[entity.0].is_some() {
            self.slots.set(entity.0, Some(components));
            true
        } else {
            false
        }
    }
}

} // verus!
