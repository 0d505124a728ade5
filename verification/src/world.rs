//! The world: the entity allocator and one store per component kind.

use vstd::prelude::*;

use crate::component::{rect_holds, Color, EntityId, Position, Size};
use crate::storage::ComponentStorage;

verus! {

/// What a world holds: how many entities were allocated, and which entity
/// carries which component.
#[verifier::ext_equal]
pub struct WorldView {
    pub count: nat,
    pub positions: Map<EntityId, Position>,
    pub sizes: Map<EntityId, Size>,
    pub colors: Map<EntityId, Color>,
}

impl WorldView {
    /// The world before any entity was allocated.
    pub open spec fn empty() -> WorldView {
        WorldView { count: 0, positions: Map::empty(), sizes: Map::empty(), colors: Map::empty() }
    }

    /// `entity` was handed out by this world.
    pub open spec fn allocated(self, entity: EntityId) -> bool {
        (entity as nat) < self.count
    }

    /// Only allocated entities carry components, every size is positive,
    /// and an entity that has a colour has a position and a size too.
    pub open spec fn wf(self) -> bool {
        &&& forall|e: EntityId| #[trigger] self.positions.contains_key(e) ==> self.allocated(e)
        &&& forall|e: EntityId| #[trigger]
            self.sizes.contains_key(e) ==> self.allocated(e) && self.sizes[e].positive()
        &&& forall|e: EntityId| #[trigger]
            self.colors.contains_key(e) ==> self.allocated(e) && self.positions.contains_key(e)
                && self.sizes.contains_key(e)
    }

    /// `entity` has a rectangle, and the point `(x, y)` lies in it or on its
    /// boundary.
    pub open spec fn covers(self, entity: EntityId, x: int, y: int) -> bool {
        &&& self.positions.contains_key(entity)
        &&& self.sizes.contains_key(entity)
        &&& rect_holds(self.positions[entity], self.sizes[entity], x, y)
    }

    /// This world with the colour of `entity` set to `color`, if `entity` has
    /// a colour; this world as it is, if not.
    pub open spec fn with_color(self, entity: EntityId, color: Color) -> WorldView {
        if self.colors.contains_key(entity) {
            WorldView { colors: self.colors.insert(entity, color), ..self }
        } else {
            self
        }
    }

    /// This world with the colour of `entity` inverted, if `entity` has a
    /// colour; this world as it is, if not.
    pub open spec fn with_toggled(self, entity: EntityId) -> WorldView {
        if self.colors.contains_key(entity) {
            self.with_color(entity, self.colors[entity].inverted())
        } else {
            self
        }
    }
}

/// Owner of every component value and of the counter that allocates
/// entities.
pub struct World {
    next_entity_id: EntityId,
    positions: ComponentStorage<Position>,
    sizes: ComponentStorage<Size>,
    colors: ComponentStorage<Color>,
}

impl View for World {
    type V = WorldView;

    closed spec fn view(&self) -> WorldView {
        WorldView {
            count: self.next_entity_id as nat,
            positions: self.positions@,
            sizes: self.sizes@,
            colors: self.colors@,
        }
    }
}

impl World {
    /// A world without entities.
    pub fn new() -> (w: Self)
        ensures
            w@ == WorldView::empty(),
            w@.wf(),
    {
        Self {
            next_entity_id: 0,
            positions: ComponentStorage::new(),
            sizes: ComponentStorage::new(),
            colors: ComponentStorage::new(),
        }
    }

    /// Allocates the next entity. The handle space must not be used up: a
    /// world never hands out a handle twice.
    pub fn create_entity(&mut self) -> (id: EntityId)
        requires
            old(self)@.count < u32::MAX,
        ensures
            id == old(self)@.count,
            final(self)@ == (WorldView { count: old(self)@.count + 1, ..old(self)@ }),
            old(self)@.wf() ==> final(self)@.wf(),
    {
        let id: EntityId = self.next_entity_id;
        self.next_entity_id += 1;
        id
    }

    /// How many entities were allocated. The live entities are those from 0
    /// up to this count, since none is ever deleted.
    pub fn entity_count(&self) -> (n: EntityId)
        ensures
            n == self@.count,
    {
        self.next_entity_id
    }

    /// Gives `entity` the position `position`, in place of one it had.
    pub fn add_position(&mut self, entity: EntityId, position: Position)
        ensures
            final(self)@ == (WorldView {
                positions: old(self)@.positions.insert(entity, position),
                ..old(self)@
            }),
            old(self)@.wf() && old(self)@.allocated(entity) ==> final(self)@.wf(),
    {
        self.positions.insert(entity, position);
    }

    /// Gives `entity` the size `size`, in place of one it had.
    pub fn add_size(&mut self, entity: EntityId, size: Size)
        ensures
            final(self)@ == (WorldView {
                sizes: old(self)@.sizes.insert(entity, size),
                ..old(self)@
            }),
            old(self)@.wf() && old(self)@.allocated(entity) && size.positive()
                ==> final(self)@.wf(),
    {
        self.sizes.insert(entity, size);
    }

    /// Gives `entity` the colour `color`, in place of one it had.
    pub fn add_color(&mut self, entity: EntityId, color: Color)
        ensures
            final(self)@ == (WorldView {
                colors: old(self)@.colors.insert(entity, color),
                ..old(self)@
            }),
            old(self)@.wf() && old(self)@.allocated(entity) && old(self)@.positions.contains_key(
                entity,
            ) && old(self)@.sizes.contains_key(entity) ==> final(self)@.wf(),
    {
        self.colors.insert(entity, color);
    }

    /// The position of `entity`, if it has one.
    pub fn position(&self, entity: EntityId) -> (r: Option<Position>)
        ensures
            r == (if self@.positions.contains_key(entity) {
                Some(self@.positions[entity])
            } else {
                None
            }),
    {
        match self.positions.get(entity) {
            Some(p) => Some(*p),
            None => None,
        }
    }

    /// The size of `entity`, if it has one.
    pub fn size(&self, entity: EntityId) -> (r: Option<Size>)
        ensures
            r == (if self@.sizes.contains_key(entity) {
                Some(self@.sizes[entity])
            } else {
                None
            }),
    {
        match self.sizes.get(entity) {
            Some(s) => Some(*s),
            None => None,
        }
    }

    /// The colour of `entity`, if it has one.
    pub fn color(&self, entity: EntityId) -> (r: Option<Color>)
        ensures
            r == (if self@.colors.contains_key(entity) {
                Some(self@.colors[entity])
            } else {
                None
            }),
    {
        match self.colors.get(entity) {
            Some(c) => Some(*c),
            None => None,
        }
    }

    /// Overwrites the colour of `entity` with `color` and says so, if
    /// `entity` has a colour. An entity without one is left without one.
    pub fn set_color(&mut self, entity: EntityId, color: Color) -> (known: bool)
        ensures
            known == old(self)@.colors.contains_key(entity),
            final(self)@ == old(self)@.with_color(entity, color),
            old(self)@.wf() ==> final(self)@.wf(),
    {
        match self.colors.get_mut(entity) {
            Some(slot) => {
                *slot = color;
                true
            },
            None => false,
        }
    }

    /// Inverts the colour of `entity` and returns the new colour, if `entity`
    /// has a colour.
    pub fn toggle_color(&mut self, entity: EntityId) -> (r: Option<Color>)
        ensures
            r == (if old(self)@.colors.contains_key(entity) {
                Some(old(self)@.colors[entity].inverted())
            } else {
                None
            }),
            final(self)@ == old(self)@.with_toggled(entity),
            old(self)@.wf() ==> final(self)@.wf(),
    {
        match self.colors.get_mut(entity) {
            Some(slot) => {
                slot.r = 255 - slot.r;
                slot.g = 255 - slot.g;
                slot.b = 255 - slot.b;
                Some(*slot)
            },
            None => None,
        }
    }
}

} // verus!
