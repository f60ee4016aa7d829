//! Entities, their liveness, and the component stores of a world.
use vstd::prelude::*;

use crate::ecs::store::ComponentStore;
use crate::utils::hlist::Has;

verus! {

pub type Generation = u32;

/// Names an entity: the slot it lives in and the generation of that slot when it was made.
#[derive(Eq, PartialEq, Structural, Copy, Clone, Debug)]
pub struct EntityId {
    pub(crate) index: usize,
    pub(crate) generation: Generation,
}

impl EntityId {
    pub closed spec fn slot(self) -> usize {
        self.index
    }

    pub closed spec fn generation(self) -> Generation {
        self.generation
    }

    pub(crate) fn slot_index(&self) -> (r: usize)
        ensures
            r == self.slot(),
    {
        self.index
    }

    pub(crate) fn slot_generation(&self) -> (r: Generation)
        ensures
            r == self.generation(),
    {
        self.generation
    }

    /// Entity ids are equal iff their slots and generations are.
    pub proof fn lemma_entity_id_ext(a: EntityId, b: EntityId)
        requires
            a.slot() == b.slot(),
            a.generation() == b.generation(),
        ensures
            a == b,
    {
    }
}

enum EntityState {
    Alive(Generation),
    Dead(Generation),
}

impl EntityState {
    spec fn model(self) -> (bool, Generation) {
        match self {
            EntityState::Alive(generation) => (true, generation),
            EntityState::Dead(generation) => (false, generation),
        }
    }

    fn is_alive(&self) -> (r: bool)
        ensures
            r == self.model().0,
    {
        match self {
            EntityState::Alive(_) => true,
            EntityState::Dead(_) => false,
        }
    }

    fn is_dead(&self) -> (r: bool)
        ensures
            r == !self.model().0,
    {
        !self.is_alive()
    }

    fn generation(&self) -> (r: Generation)
        ensures
            r == self.model().1,
    {
        match self {
            EntityState::Alive(generation) => *generation,
            EntityState::Dead(generation) => *generation,
        }
    }

    /// Whether `entity` is the entity that currently lives in this slot.
    fn holds(&self, entity: &EntityId) -> (r: bool)
        ensures
            r == (self.model() == (true, entity.generation())),
    {
        match self {
            EntityState::Alive(generation) => *generation == entity.generation,
            EntityState::Dead(_) => false,
        }
    }
}

/// A set of entities, each alive or dead, and a list `S` of component stores, one per
/// component type.
pub struct World<S> {
    entities: Vec<EntityState>,
    components: S,
}

/// The first slot that holds a dead entity; the number of slots when all are alive.
pub open spec fn first_dead_slot(slots: Seq<(bool, Generation)>) -> int
    decreases slots.len(),
{
    if slots.len() == 0 {
        0
    } else if !slots[0].0 {
        0
    } else {
        1 + first_dead_slot(slots.drop_first())
    }
}

/// How far a slot has come: alive in generation `g` is `2 g`, dead in generation `g` is
/// `2 g + 1`. Every change to a slot raises it.
pub open spec fn slot_rank(slot: (bool, Generation)) -> int {
    if slot.0 {
        2 * slot.1
    } else {
        2 * slot.1 + 1
    }
}

/// Every slot of `before` is still there in `after`, and none has gone back.
pub open spec fn ranks_grow(before: Seq<(bool, Generation)>, after: Seq<(bool, Generation)>) -> bool {
    &&& before.len() <= after.len()
    &&& forall|i: int| 0 <= i < before.len() ==> slot_rank(#[trigger] before[i]) <= slot_rank(after[i])
}

impl<S> World<S> {
    /// Per slot: whether its entity is alive, and the slot's generation.
    pub closed spec fn slots(self) -> Seq<(bool, Generation)> {
        self.entities@.map_values(|state: EntityState| state.model())
    }

    /// The component stores.
    pub closed spec fn stores(self) -> S {
        self.components
    }

    pub open spec fn spec_is_alive(self, entity: EntityId) -> bool {
        &&& entity.slot() < self.slots().len()
        &&& self.slots()[entity.slot() as int] == (true, entity.generation())
    }

    /// Reviving the first dead slot does not exhaust its generations.
    pub open spec fn can_spawn(self) -> bool {
        let first = first_dead_slot(self.slots());
        first < self.slots().len() ==> self.slots()[first].1 < u32::MAX
    }

    /// Revives the first dead slot in its next generation, or adds a slot at the end when none is
    /// dead, and returns the new entity.
    pub fn new_entity(&mut self) -> (entity: EntityId)
        requires
            old(self).can_spawn(),
        ensures
            entity.slot() == first_dead_slot(old(self).slots()),
            entity.slot() < old(self).slots().len() ==> {
                &&& entity.generation() == old(self).slots()[entity.slot() as int].1 + 1
                &&& final(self).slots() == old(self).slots().update(
                    entity.slot() as int,
                    (true, entity.generation()),
                )
            },
            entity.slot() == old(self).slots().len() ==> {
                &&& entity.generation() == 0
                &&& final(self).slots() == old(self).slots().push((true, 0u32))
            },
            final(self).spec_is_alive(entity),
            !old(self).spec_is_alive(entity),
            forall|other: EntityId| #[trigger]
                old(self).spec_is_alive(other) ==> final(self).spec_is_alive(other),
            ranks_grow(old(self).slots(), final(self).slots()),
            final(self).stores() == old(self).stores(),
    {
        let ghost slots = self.slots();
        let len = self.entities.len();
        let mut index: usize = 0;
        while index < len
            invariant
                len == self.entities@.len(),
                self.slots() == slots,
                slots == old(self).slots(),
                self.stores() == old(self).stores(),
                old(self).can_spawn(),
                0 <= index <= len,
                forall|j: int| 0 <= j < index ==> #[trigger] slots[j].0,
            decreases len - index,
        {
            assert(slots[index as int] == self.entities@[index as int].model());
            if self.entities[index].is_dead() {
                proof {
                    lemma_first_dead_slot_is(slots, index as int);
                }
                let generation = self.entities[index].generation() + 1;
                self.entities.set(index, EntityState::Alive(generation));
                assert(self.slots() =~= slots.update(index as int, (true, generation)));
                return EntityId { index, generation };
            }
            index += 1;
        }
        proof {
            lemma_first_dead_slot_is(slots, len as int);
        }
        self.entities.push(EntityState::Alive(0));
        assert(self.slots() =~= slots.push((true, 0u32)));
        EntityId { index: len, generation: 0 }
    }

    /// Whether `entity` is the entity that currently lives in its slot.
    pub fn is_alive(&self, entity: EntityId) -> (r: bool)
        ensures
            r == self.spec_is_alive(entity),
    {
        if entity.index < self.entities.len() {
            self.entities[entity.index].holds(&entity)
        } else {
            false
        }
    }

    pub fn is_dead(&self, entity: EntityId) -> (r: bool)
        ensures
            r == !self.spec_is_alive(entity),
    {
        !self.is_alive(entity)
    }

    /// Kills whatever entity lives in the slot of `entity`, if one does. The generation of
    /// `entity` is not compared: an id whose slot was revived since kills the revived entity.
    pub fn drop_entity(&mut self, entity: EntityId)
        ensures
            final(self).slots() == if entity.slot() < old(self).slots().len() && old(
                self,
            ).slots()[entity.slot() as int].0 {
                old(self).slots().update(
                    entity.slot() as int,
                    (false, old(self).slots()[entity.slot() as int].1),
                )
            } else {
                old(self).slots()
            },
            !final(self).spec_is_alive(entity),
            forall|other: EntityId|
                #![trigger final(self).spec_is_alive(other)]
                other.slot() != entity.slot() ==> final(self).spec_is_alive(other) == old(
                    self,
                ).spec_is_alive(other),
            ranks_grow(old(self).slots(), final(self).slots()),
            final(self).stores() == old(self).stores(),
    {
        if entity.index < self.entities.len() {
            if self.entities[entity.index].is_alive() {
                let generation = self.entities[entity.index].generation();
                self.entities.set(entity.index, EntityState::Dead(generation));
                assert(self.slots() =~= old(self).slots().update(
                    entity.slot() as int,
                    (false, generation),
                ));
            }
        }
    }

    /// The entities that are alive, in the order of their slots.
    pub fn entity_iter(&self) -> (r: Vec<EntityId>)
        ensures
            forall|entity: EntityId| r@.contains(entity) <==> self.spec_is_alive(entity),
            forall|i: int, j: int|
                0 <= i < j < r@.len() ==> (#[trigger] r@[i]).slot() < (#[trigger] r@[j]).slot(),
    {
        let mut alive: Vec<EntityId> = Vec::new();
        let mut index: usize = 0;
        while index < self.entities.len()
            invariant
                0 <= index <= self.entities@.len(),
                forall|entity: EntityId|
                    alive@.contains(entity) <==> (self.spec_is_alive(entity) && entity.slot()
                        < index),
                forall|i: int| 0 <= i < alive@.len() ==> (#[trigger] alive@[i]).slot() < index,
                forall|i: int, j: int|
                    0 <= i < j < alive@.len() ==> (#[trigger] alive@[i]).slot() < (
                    #[trigger] alive@[j]).slot(),
            decreases self.entities@.len() - index,
        {
            assert(self.slots()[index as int] == self.entities@[index as int].model());
            if self.entities[index].is_alive() {
                let entity = EntityId { index, generation: self.entities[index].generation() };
                let ghost before = alive@;
                alive.push(entity);
                assert forall|other: EntityId|
                    alive@.contains(other) <==> (self.spec_is_alive(other) && other.slot() < index
                        + 1) by {
                    if self.spec_is_alive(other) && other.slot() < index + 1 {
                        if other.slot() == index {
                            EntityId::lemma_entity_id_ext(other, entity);
                            assert(alive@[before.len() as int] == other);
                        } else {
                            assert(before.contains(other));
                            let j = choose|j: int| 0 <= j < before.len() && before[j] == other;
                            assert(alive@[j] == other);
                        }
                    }
                    if alive@.contains(other) {
                        let k = choose|k: int| 0 <= k < alive@.len() && alive@[k] == other;
                        if k < before.len() {
                            assert(before[k] == other);
                            assert(before.contains(other));
                        } else {
                            assert(other == entity);
                        }
                    }
                }
            } else {
                assert forall|other: EntityId|
                    alive@.contains(other) <==> (self.spec_is_alive(other) && other.slot() < index
                        + 1) by {
                    if self.spec_is_alive(other) && other.slot() == index {
                        assert(self.slots()[index as int].0);
                    }
                }
            }
            index += 1;
        }
        alive
    }

    /// Replaces the store of component type `C` with an empty one.
    pub fn add_component<C, I>(&mut self) where S: Has<ComponentStore<C>, I>
        ensures
            final(self).slots() == old(self).slots(),
            final(self).stores() == old(self).stores().spec_replace(final(self).stores().spec_get()),
            final(self).stores().spec_get().is_empty(),
    {
        let empty = ComponentStore::new();
        let ghost replacement = empty;
        let store = self.components.get_mut();
        *store = empty;
        assert(self.components == old(self).components.spec_replace(replacement));
        proof {
            old(self).components.lemma_replace_get(replacement);
        }
    }

    /// The world with an empty store of component type `C` added in front of its stores. The
    /// stores are a list typed by their component types, so this registers a type; to empty the
    /// store of a type that is registered already, use [World::add_component].
    pub fn with_component<C>(self) -> (r: World<(ComponentStore<C>, S)>)
        ensures
            r.slots() == self.slots(),
            r.stores().0.is_empty(),
            r.stores().1 == self.stores(),
    {
        World { entities: self.entities, components: (ComponentStore::new(), self.components) }
    }

    /// The store of component type `C`.
    pub fn components<C, I>(&self) -> (r: &ComponentStore<C>) where S: Has<ComponentStore<C>, I>
        ensures
            *r == self.stores().spec_get(),
    {
        self.components.get()
    }

    /// Mutable access to the store of component type `C`; the entities do not change.
    pub fn components_mut<C, I>(&mut self) -> (r: &mut ComponentStore<C>) where
        S: Has<ComponentStore<C>, I>,
        ensures
            *r == old(self).stores().spec_get(),
            final(self).stores() == old(self).stores().spec_replace(*final(r)),
            final(self).slots() == old(self).slots(),
    {
        self.components.get_mut()
    }

    /// An entity that was alive and then found dead stays dead through any later sequence of
    /// operations, since no operation lowers the rank of a slot.
    pub proof fn lemma_dead_stays_dead(
        first: Self,
        second: Self,
        third: Self,
        entity: EntityId,
    )
        requires
            first.spec_is_alive(entity),
            ranks_grow(first.slots(), second.slots()),
            !second.spec_is_alive(entity),
            ranks_grow(second.slots(), third.slots()),
        ensures
            !third.spec_is_alive(entity),
    {
        let i = entity.slot() as int;
        assert(slot_rank(first.slots()[i]) <= slot_rank(second.slots()[i]));
        assert(slot_rank(second.slots()[i]) <= slot_rank(third.slots()[i]));
    }
}

/// A new entity never takes the id of an entity that was alive before and has died since: the
/// slot it revives has moved past that entity's generation.
pub proof fn lemma_new_entity_differs_from_dead<S>(
    first: World<S>,
    second: World<S>,
    dead: EntityId,
    born: EntityId,
)
    requires
        first.spec_is_alive(dead),
        ranks_grow(first.slots(), second.slots()),
        !second.spec_is_alive(dead),
        born.slot() == first_dead_slot(second.slots()),
        born.slot() < second.slots().len() ==> born.generation() == second.slots()[born.slot() as int].1 + 1,
        born.slot() == second.slots().len() ==> born.generation() == 0,
    ensures
        born != dead,
{
    let i = dead.slot() as int;
    assert(slot_rank(first.slots()[i]) <= slot_rank(second.slots()[i]));
    if born.slot() == dead.slot() {
        lemma_first_dead_slot_bound(second.slots());
        if born.slot() < second.slots().len() {
            lemma_first_dead_slot_dead(second.slots());
        }
    }
}

/// The first dead slot is at most the number of slots.
pub proof fn lemma_first_dead_slot_bound(slots: Seq<(bool, Generation)>)
    ensures
        0 <= first_dead_slot(slots) <= slots.len(),
    decreases slots.len(),
{
    if slots.len() > 0 && slots[0].0 {
        lemma_first_dead_slot_bound(slots.drop_first());
    }
}

/// The first dead slot, when there is one, is dead.
pub proof fn lemma_first_dead_slot_dead(slots: Seq<(bool, Generation)>)
    requires
        first_dead_slot(slots) < slots.len(),
    ensures
        !slots[first_dead_slot(slots)].0,
    decreases slots.len(),
{
    lemma_first_dead_slot_bound(slots);
    if slots.len() > 0 && slots[0].0 {
        let rest = slots.drop_first();
        assert(first_dead_slot(slots) == 1 + first_dead_slot(rest));
        lemma_first_dead_slot_dead(rest);
        let k = first_dead_slot(rest);
        lemma_first_dead_slot_bound(rest);
        assert(0 <= k < rest.len());
        assert(rest[k] == slots[k + 1]);
    }
}

impl Default for World<()> {
    fn default() -> (r: Self)
        ensures
            r.slots() == Seq::<(bool, Generation)>::empty(),
    {
        let r = World { entities: Vec::new(), components: () };
        assert(r.slots() =~= Seq::<(bool, Generation)>::empty());
        r
    }
}

/// [ranks_grow] is transitive, so it holds across any sequence of operations.
pub proof fn lemma_ranks_grow_transitive(
    a: Seq<(bool, Generation)>,
    b: Seq<(bool, Generation)>,
    c: Seq<(bool, Generation)>,
)
    requires
        ranks_grow(a, b),
        ranks_grow(b, c),
    ensures
        ranks_grow(a, c),
{
    assert forall|i: int| 0 <= i < a.len() implies slot_rank(#[trigger] a[i]) <= slot_rank(c[i]) by {
        assert(slot_rank(a[i]) <= slot_rank(b[i]));
        assert(slot_rank(b[i]) <= slot_rank(c[i]));
    }
}

proof fn lemma_first_dead_slot_is(slots: Seq<(bool, Generation)>, index: int)
    requires
        0 <= index <= slots.len(),
        forall|j: int| 0 <= j < index ==> #[trigger] slots[j].0,
        index < slots.len() ==> !slots[index].0,
    ensures
        first_dead_slot(slots) == index,
    decreases index,
{
    if index > 0 {
        assert(slots[0].0);
        let rest = slots.drop_first();
        assert forall|j: int| 0 <= j < index - 1 implies #[trigger] rest[j].0 by {
            assert(rest[j] == slots[j + 1]);
        }
        lemma_first_dead_slot_is(rest, index - 1);
    }
}

} // verus!
