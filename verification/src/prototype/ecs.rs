use vstd::prelude::*;

verus! {

pub type EntityHandle = usize;

/// Slots of entities; a slot holds the components of its entity, or nothing once the entity is
/// killed. `E` holds one entity's components.
pub struct World<E> {
    entities: Vec<Option<E>>,
}

impl<E> View for World<E> {
    /// The slots, in order of their handles.
    type V = Seq<Option<E>>;

    closed spec fn view(&self) -> Seq<Option<E>> {
        self.entities@
    }
}

/// The first empty slot; the number of slots when none is empty.
pub open spec fn first_empty_slot<E>(slots: Seq<Option<E>>) -> int
    decreases slots.len(),
{
    if slots.len() == 0 {
        0
    } else if slots[0] is None {
        0
    } else {
        1 + first_empty_slot(slots.drop_first())
    }
}

impl<E> World<E> {
    pub open spec fn spec_is_alive(self, entity: EntityHandle) -> bool {
        entity < self@.len() && self@[entity as int] is Some
    }

    /// Puts a new entity, with the components `E::default()` gives, in the first empty slot, or
    /// in a new slot at the end, and returns its handle.
    pub fn new_entity(&mut self) -> (entity: EntityHandle) where E: Default
        ensures
            entity == first_empty_slot(old(self)@),
            entity < old(self)@.len() ==> final(self)@.len() == old(self)@.len(),
            entity == old(self)@.len() ==> final(self)@.len() == old(self)@.len() + 1,
            final(self)@[entity as int] is Some,
            forall|i: int| 0 <= i < old(self)@.len() && i != entity ==> #[trigger] final(self)@[i] == old(self)@[i],
            !old(self).spec_is_alive(entity),
            final(self).spec_is_alive(entity),
    {
        let ghost slots = self@;
        let len = self.entities.len();
        let mut index: usize = 0;
        while index < len
            invariant
                len == self@.len(),
                self@ == slots,
                slots == old(self)@,
                0 <= index <= len,
                forall|j: int| 0 <= j < index ==> #[trigger] slots[j] is Some,
            decreases len - index,
        {
            if self.entities[index].is_none() {
                proof {
                    lemma_first_empty_slot_is(slots, index as int);
                }
                self.entities.set(index, Some(E::default()));
                return index;
            }
            index += 1;
        }
        proof {
            lemma_first_empty_slot_is(slots, len as int);
        }
        self.entities.push(Some(E::default()));
        len
    }

    /// Empties the slot of `entity`.
    pub fn kill(&mut self, entity: EntityHandle)
        requires
            entity < old(self)@.len(),
        ensures
            final(self)@ == old(self)@.update(entity as int, None),
    {
        self.entities.set(entity, None);
    }

    /// The components of `entity`, if its slot holds an entity.
    pub fn entity(&self, entity: EntityHandle) -> (r: Option<&E>)
        ensures
            match r {
                Some(components) => entity < self@.len() && self@[entity as int] == Some(*components),
                None => !self.spec_is_alive(entity),
            },
    {
        if entity < self.entities.len() {
            self.entities[entity].as_ref()
        } else {
            None
        }
    }

    /// Mutable access to the components of `entity`, if its slot holds an entity.
    pub fn entity_mut(&mut self, entity: EntityHandle) -> (r: Option<&mut E>)
        ensures
            match r {
                Some(components) => {
                    &&& entity < old(self)@.len()
                    &&& old(self)@[entity as int] == Some(*components)
                    &&& final(self)@ == old(self)@.update(entity as int, Some(*final(components)))
                },
                None => {
                    &&& !old(self).spec_is_alive(entity)
                    &&& final(self)@ == old(self)@
                },
            },
    {
        if entity < self.entities.len() {
            let slot = &mut self.entities[entity];
            slot.as_mut()
        } else {
            None
        }
    }

    /// Every entity, in order of its handle.
    pub fn entity_iter(&self) -> (r: Vec<EntityItem<'_, E>>)
        ensures
            forall|i: int| 0 <= i < r@.len() ==> self.spec_is_alive(#[trigger] r@[i].item_handle()),
            forall|handle: EntityHandle| self.spec_is_alive(handle) ==> exists|i: int| 0 <= i < r@.len() && #[trigger] r@[i].item_handle() == handle,
            forall|i: int, j: int| 0 <= i < j < r@.len() ==> (#[trigger] r@[i]).item_handle() < (#[trigger] r@[j]).item_handle(),
            forall|i: int| 0 <= i < r@.len() ==> self@[(#[trigger] r@[i]).item_handle() as int] == Some(r@[i].item_entity()),
    {
        let mut items: Vec<EntityItem<'_, E>> = Vec::new();
        let mut index: usize = 0;
        while index < self.entities.len()
            invariant
                0 <= index <= self@.len(),
                forall|i: int| 0 <= i < items@.len() ==> self.spec_is_alive(#[trigger] items@[i].item_handle()),
                forall|i: int| 0 <= i < items@.len() ==> (#[trigger] items@[i]).item_handle() < index,
                forall|handle: EntityHandle| handle < index && self.spec_is_alive(handle) ==> exists|i: int| 0 <= i < items@.len() && #[trigger] items@[i].item_handle() == handle,
                forall|i: int, j: int| 0 <= i < j < items@.len() ==> (#[trigger] items@[i]).item_handle() < (#[trigger] items@[j]).item_handle(),
                forall|i: int| 0 <= i < items@.len() ==> self@[(#[trigger] items@[i]).item_handle() as int] == Some(items@[i].item_entity()),
            decreases self@.len() - index,
        {
            match self.entities[index].as_ref() {
                Some(entity) => {
                    let ghost before = items@;
                    items.push(EntityItem { handle: index, entity });
                    assert forall|handle: EntityHandle| handle < index + 1 && self.spec_is_alive(handle) implies exists|i: int| 0 <= i < items@.len() && #[trigger] items@[i].item_handle() == handle by {
                        if handle == index {
                            assert(items@[before.len() as int].item_handle() == handle);
                        } else {
                            let i = choose|i: int| 0 <= i < before.len() && #[trigger] before[i].item_handle() == handle;
                            assert(items@[i] == before[i]);
                        }
                    }
                },
                None => {},
            }
            index += 1;
        }
        items
    }
}

impl<E> Default for World<E> {
    fn default() -> (r: Self)
        ensures
            r@ == Seq::<Option<E>>::empty(),
    {
        World { entities: Vec::new() }
    }
}

/// An entity of a world: its handle and its components.
pub struct EntityItem<'a, E> {
    handle: EntityHandle,
    entity: &'a E,
}

impl<'a, E> EntityItem<'a, E> {
    pub closed spec fn item_handle(self) -> EntityHandle {
        self.handle
    }

    pub closed spec fn item_entity(self) -> E {
        *self.entity
    }

    pub fn handle(&self) -> (r: EntityHandle)
        ensures
            r == self.item_handle(),
    {
        self.handle
    }

    /// The components of the entity.
    pub fn entity(&self) -> (r: &'a E)
        ensures
            *r == self.item_entity(),
    {
        self.entity
    }
}

proof fn lemma_first_empty_slot_is<E>(slots: Seq<Option<E>>, index: int)
    requires
        0 <= index <= slots.len(),
        forall|j: int| 0 <= j < index ==> #[trigger] slots[j] is Some,
        index < slots.len() ==> slots[index] is None,
    ensures
        first_empty_slot(slots) == index,
    decreases index,
{
    if index > 0 {
        assert(slots[0] is Some);
        let rest = slots.drop_first();
        assert forall|j: int| 0 <= j < index - 1 implies #[trigger] rest[j] is Some by {
            assert(rest[j] == slots[j + 1]);
        }
        lemma_first_empty_slot_is(rest, index - 1);
    }
}

} // verus!
