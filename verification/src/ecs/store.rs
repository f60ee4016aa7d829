//! Storage of one component type, indexed by entity.
use vstd::prelude::*;

use crate::ecs::sparse_vec::SparseVec;
use crate::ecs::world::{EntityId, Generation};

verus! {

/// The components of one type, at most one per entity slot. A component belongs to the
/// generation of the entity that it was put for; an entity of another generation in the same
/// slot does not see it.
pub struct ComponentStore<T> {
    components: SparseVec<(Generation, T)>,
}

impl<T> ComponentStore<T> {
    /// Per entity slot: the generation the component was put for, and the component.
    pub closed spec fn slots(self) -> Seq<Option<(Generation, T)>> {
        self.components@
    }

    /// The component of `entity`, if it has one.
    pub open spec fn spec_get(self, entity: EntityId) -> Option<T> {
        if 0 <= entity.slot() < self.slots().len() {
            match self.slots()[entity.slot() as int] {
                Some(stored) => if stored.0 == entity.generation() {
                    Some(stored.1)
                } else {
                    None
                },
                None => None,
            }
        } else {
            None
        }
    }

    /// No entity has a component here.
    pub open spec fn is_empty(self) -> bool {
        forall|entity: EntityId| #[trigger] self.spec_get(entity) is None
    }

    pub fn new() -> (r: Self)
        ensures
            r.slots() == Seq::<Option<(Generation, T)>>::empty(),
            r.is_empty(),
    {
        ComponentStore { components: SparseVec::new() }
    }

    pub fn get(&self, entity: EntityId) -> (r: Option<&T>)
        ensures
            match r {
                Some(component) => self.spec_get(entity) == Some(*component),
                None => self.spec_get(entity) is None,
            },
    {
        match self.components.get(entity.slot_index()) {
            Some(stored) => if stored.0 == entity.slot_generation() {
                Some(&stored.1)
            } else {
                None
            },
            None => None,
        }
    }

    /// Gives `entity` the component, replacing whatever its slot held, for any generation.
    pub fn put(&mut self, entity: EntityId, component: T)
        requires
            entity.slot() < usize::MAX,
        ensures
            final(self).spec_get(entity) == Some(component),
            forall|other: EntityId|
                #![trigger final(self).spec_get(other)]
                other.slot() != entity.slot() ==> final(self).spec_get(other) == old(self).spec_get(
                    other,
                ),
            forall|other: EntityId|
                #![trigger final(self).spec_get(other)]
                other.slot() == entity.slot() && other.generation() != entity.generation()
                    ==> final(self).spec_get(other) is None,
    {
        self.components.set(entity.slot_index(), (entity.slot_generation(), component));
        assert(self.components.spec_get(entity.slot() as int) == Some((entity.generation(), component)));
        assert forall|other: EntityId|
            #![trigger self.spec_get(other)]
            other.slot() != entity.slot() implies self.spec_get(other) == old(self).spec_get(other) by {
            assert(self.components.spec_get(other.slot() as int) == old(self).components.spec_get(
                other.slot() as int,
            ));
        }
        assert forall|other: EntityId|
            #![trigger self.spec_get(other)]
            other.slot() == entity.slot() && other.generation() != entity.generation()
                implies self.spec_get(other) is None by {
            assert(self.components.spec_get(other.slot() as int) == Some((entity.generation(), component)));
        }
    }

    /// Takes the component of `entity` out, if it has one; a component of another generation in
    /// the same slot stays.
    pub fn remove(&mut self, entity: EntityId) -> (r: Option<T>)
        ensures
            r == old(self).spec_get(entity),
            final(self).spec_get(entity) is None,
            r is Some ==> final(self).slots() == old(self).slots().update(entity.slot() as int, None),
            r is None ==> final(self).slots() == old(self).slots(),
    {
        let generation = entity.slot_generation();
        let matches = |stored: &(Generation, T)| -> (b: bool)
            ensures
                b == (stored.0 == generation),
            { stored.0 == generation };
        match self.components.remove_if(entity.slot_index(), matches) {
            Some(stored) => Some(stored.1),
            None => None,
        }
    }

    pub fn has(&self, entity: EntityId) -> (r: bool)
        ensures
            r == self.spec_get(entity) is Some,
    {
        match self.get(entity) {
            Some(_) => true,
            None => false,
        }
    }
}

/// A component belongs to one generation of its slot: when an entity of the slot has a
/// component, an entity of the same slot and another generation, such as the one that revives
/// the slot later, does not see it.
pub proof fn lemma_component_belongs_to_one_generation<T>(
    store: ComponentStore<T>,
    owner: EntityId,
    other: EntityId,
)
    requires
        store.spec_get(owner) is Some,
        other.slot() == owner.slot(),
        other.generation() != owner.generation(),
    ensures
        store.spec_get(other) is None,
{
}

impl<T> Default for ComponentStore<T> {
    fn default() -> (r: Self)
        ensures
            r.is_empty(),
    {
        Self::new()
    }
}

} // verus!
