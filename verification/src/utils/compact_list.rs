//! A list whose slots are reused after removal, addressed by generation-checked handles.
use std::marker::PhantomData;
use vstd::prelude::*;

verus! {

/// A list of values addressed by [Handle]s. Removing a value frees its slot for a later
/// [CompactList::add]; the slot's generation grows on every removal, so that handles to a removed
/// value never reach the value that takes its place.
pub struct CompactList<T> {
    storage: Vec<Entry<T>>,
}

struct Entry<T> {
    generation: u32,
    value: Option<T>,
}

/// Refers to a value in a [CompactList] by its slot and the slot's generation at the time the
/// value was added.
#[derive(PartialOrd, Hash)]
pub struct Handle<T> {
    index: usize,
    generation: u32,
    phantom: PhantomData<T>,
}

impl<T> Handle<T> {
    /// The slot that the handle refers to.
    pub closed spec fn slot(self) -> int {
        self.index as int
    }

    /// The generation of the slot when the handle was made.
    pub closed spec fn generation(self) -> u32 {
        self.generation
    }

    /// Two handles are the same iff they refer to the same slot with the same generation.
    pub proof fn lemma_handle_ext(a: Self, b: Self)
        requires
            a.slot() == b.slot(),
            a.generation() == b.generation(),
        ensures
            a == b,
    {
    }
}

impl<T> Clone for Handle<T> {
    fn clone(&self) -> (r: Self)
        ensures
            r == *self,
    {
        Handle { index: self.index, generation: self.generation, phantom: PhantomData }
    }
}

impl<T> Copy for Handle<T> {

}

impl<T> PartialEq for Handle<T> {
    fn eq(&self, other: &Self) -> (r: bool) {
        self.index == other.index && self.generation == other.generation
    }
}

impl<T> vstd::std_specs::cmp::PartialEqSpecImpl for Handle<T> {
    open spec fn obeys_eq_spec() -> bool {
        true
    }

    open spec fn eq_spec(&self, other: &Self) -> bool {
        self.slot() == other.slot() && self.generation() == other.generation()
    }
}

impl<T> View for CompactList<T> {
    /// The slots, in order: each slot's generation and the value it holds, if any.
    type V = Seq<(u32, Option<T>)>;

    closed spec fn view(&self) -> Seq<(u32, Option<T>)> {
        self.storage@.map_values(|e: Entry<T>| (e.generation, e.value))
    }
}

/// The first slot of `slots` that holds no value; the length of `slots` when all are full.
pub open spec fn first_free_slot<T>(slots: Seq<(u32, Option<T>)>) -> int
    decreases slots.len(),
{
    if slots.len() == 0 {
        0
    } else if slots[0].1 is None {
        0
    } else {
        1 + first_free_slot(slots.drop_first())
    }
}

/// Every slot of `before` is still there in `after`, with a generation at least as large.
pub open spec fn generations_grow<T>(before: Seq<(u32, Option<T>)>, after: Seq<(u32, Option<T>)>) -> bool {
    &&& before.len() <= after.len()
    &&& forall|i: int| 0 <= i < before.len() ==> #[trigger] before[i].0 <= after[i].0
}

impl<T> CompactList<T> {
    /// The handle refers to an existing slot whose generation it carries.
    pub open spec fn spec_valid(self, handle: Handle<T>) -> bool {
        0 <= handle.slot() < self@.len() && self@[handle.slot()].0 == handle.generation()
    }

    /// The value that the handle reaches.
    pub open spec fn spec_get(self, handle: Handle<T>) -> Option<T> {
        if self.spec_valid(handle) {
            self@[handle.slot()].1
        } else {
            None
        }
    }

    /// Removing through `handle` does not exhaust the generations of its slot.
    pub open spec fn can_retire(self, handle: Handle<T>) -> bool {
        self.spec_valid(handle) ==> self@[handle.slot()].0 < u32::MAX
    }

    /// The slots after removing through `handle`: a valid handle's slot is emptied and its
    /// generation grows by one; otherwise nothing changes.
    pub open spec fn spec_retire(self, handle: Handle<T>) -> Seq<(u32, Option<T>)> {
        if self.spec_valid(handle) {
            self@.update(handle.slot(), ((self@[handle.slot()].0 + 1) as u32, None))
        } else {
            self@
        }
    }

    pub fn new() -> (r: Self)
        ensures
            r@ == Seq::<(u32, Option<T>)>::empty(),
    {
        let r = CompactList { storage: Vec::new() };
        assert(r@ =~= Seq::<(u32, Option<T>)>::empty());
        r
    }

    /// Stores `value` in the first free slot, or in a new slot at the end when all are full, and
    /// returns a handle to it.
    pub fn add(&mut self, value: T) -> (handle: Handle<T>)
        ensures
            handle.slot() == first_free_slot(old(self)@),
            handle.slot() < old(self)@.len() ==> {
                &&& handle.generation() == old(self)@[handle.slot()].0
                &&& final(self)@ == old(self)@.update(handle.slot(), (handle.generation(), Some(value)))
            },
            handle.slot() == old(self)@.len() ==> {
                &&& handle.generation() == 0
                &&& final(self)@ == old(self)@.push((0u32, Some(value)))
            },
            final(self).spec_get(handle) == Some(value),
            generations_grow(old(self)@, final(self)@),
            forall|other: Handle<T>|
                #[trigger] old(self).spec_get(other) is Some ==> final(self).spec_get(other)
                    == old(self).spec_get(other),
    {
        let ghost slots = self@;
        assert(slots == old(self)@);
        let len = self.storage.len();
        let mut index: usize = 0;
        while index < len
            invariant
                len == self.storage@.len(),
                self@ == slots,
                slots == old(self)@,
                0 <= index <= len,
                forall|j: int| 0 <= j < index ==> #[trigger] slots[j].1 is Some,
            decreases len - index,
        {
            assert(slots[index as int] == (self.storage@[index as int].generation, self.storage@[index as int].value));
            if self.storage[index].value.is_none() {
                proof {
                    lemma_first_free_slot_is(slots, index as int);
                }
                let generation = self.storage[index].generation;
                self.storage.set(index, Entry { generation, value: Some(value) });
                assert(self@ =~= slots.update(index as int, (generation, Some(value))));
                return Handle { index, generation, phantom: PhantomData };
            }
            index += 1;
        }
        proof {
            lemma_first_free_slot_is(slots, len as int);
        }
        self.storage.push(Entry { generation: 0, value: Some(value) });
        assert(self@ =~= slots.push((0u32, Some(value))));
        Handle { index: len, generation: 0, phantom: PhantomData }
    }

    fn is_valid(&self, handle: Handle<T>) -> (r: bool)
        ensures
            r == self.spec_valid(handle),
    {
        handle.index < self.storage.len() && self.storage[handle.index].generation
            == handle.generation
    }

    /// The value that `handle` refers to, if the handle is still valid and its slot holds one.
    pub fn get(&self, handle: Handle<T>) -> (r: Option<&T>)
        ensures
            match r {
                Some(value) => self.spec_get(handle) == Some(*value),
                None => self.spec_get(handle) is None,
            },
    {
        if self.is_valid(handle) {
            self.storage[handle.index].value.as_ref()
        } else {
            None
        }
    }

    /// Mutable access to the value that `handle` refers to; the slots are otherwise unchanged.
    pub fn get_mut(&mut self, handle: Handle<T>) -> (r: Option<&mut T>)
        ensures
            match r {
                Some(value) => {
                    &&& old(self).spec_get(handle) == Some(*value)
                    &&& final(self)@ == old(self)@.update(
                        handle.slot(),
                        (handle.generation(), Some(*final(value))),
                    )
                },
                None => {
                    &&& old(self).spec_get(handle) is None
                    &&& final(self)@ == old(self)@
                },
            },
            generations_grow(old(self)@, final(self)@),
    {
        if self.is_valid(handle) {
            let entry = &mut self.storage[handle.index];
            entry.value.as_mut()
        } else {
            None
        }
    }

    /// Empties the slot that a valid `handle` refers to and moves the slot to its next
    /// generation, so that no handle made before reaches its next value.
    pub fn remove(&mut self, handle: Handle<T>)
        requires
            old(self).can_retire(handle),
        ensures
            final(self)@ == old(self).spec_retire(handle),
            final(self).spec_get(handle) is None,
            generations_grow(old(self)@, final(self)@),
    {
        if self.is_valid(handle) {
            let generation = self.storage[handle.index].generation + 1;
            self.storage.set(handle.index, Entry { generation, value: None });
            assert(self@ =~= old(self).spec_retire(handle));
        }
    }

    /// Takes the value out of the slot that a valid `handle` refers to, emptying the slot and
    /// moving it to its next generation.
    pub fn take(&mut self, handle: Handle<T>) -> (r: Option<T>)
        requires
            old(self).can_retire(handle),
        ensures
            r == old(self).spec_get(handle),
            final(self)@ == old(self).spec_retire(handle),
            final(self).spec_get(handle) is None,
            generations_grow(old(self)@, final(self)@),
    {
        if self.is_valid(handle) {
            let generation = self.storage[handle.index].generation + 1;
            let mut entry = Entry { generation, value: None };
            std::mem::swap(&mut entry, &mut self.storage[handle.index]);
            assert(self@ =~= old(self).spec_retire(handle));
            entry.value
        } else {
            None
        }
    }

    /// A handle whose slot has moved past its generation never reaches a value again: not now,
    /// and not after any sequence of operations, since none of them lowers a generation.
    pub proof fn lemma_stale_handle_stays_dead(before: Self, after: Self, handle: Handle<T>)
        requires
            0 <= handle.slot() < before@.len(),
            before@[handle.slot()].0 > handle.generation(),
            generations_grow(before@, after@),
        ensures
            after.spec_get(handle) is None,
    {
    }
}

impl<T> Default for CompactList<T> {
    fn default() -> (r: Self)
        ensures
            r@ == Seq::<(u32, Option<T>)>::empty(),
    {
        CompactList::new()
    }
}

/// [generations_grow] is transitive, so it holds across any sequence of operations.
pub proof fn lemma_generations_grow_transitive<T>(
    a: Seq<(u32, Option<T>)>,
    b: Seq<(u32, Option<T>)>,
    c: Seq<(u32, Option<T>)>,
)
    requires
        generations_grow(a, b),
        generations_grow(b, c),
    ensures
        generations_grow(a, c),
{
    assert forall|i: int| 0 <= i < a.len() implies #[trigger] a[i].0 <= c[i].0 by {
        assert(a[i].0 <= b[i].0);
        assert(b[i].0 <= c[i].0);
    }
}

/// A handle whose slot has moved past its generation reaches no value in any later state of a
/// history of lists where each step keeps the generations growing, as every operation of
/// [CompactList] does: once removed or taken, a handle stays dead for ever, even when its slot
/// is reused.
pub proof fn lemma_removed_handle_stays_dead<T>(history: Seq<CompactList<T>>, handle: Handle<T>)
    requires
        history.len() > 0,
        0 <= handle.slot() < history[0]@.len(),
        history[0]@[handle.slot()].0 > handle.generation(),
        forall|k: int| 0 <= k < history.len() - 1 ==> generations_grow(#[trigger] history[k]@, history[k + 1]@),
    ensures
        forall|k: int| 0 <= k < history.len() ==> (#[trigger] history[k]).spec_get(handle) is None,
{
    assert forall|k: int| 0 <= k < history.len() implies (#[trigger] history[k]).spec_get(handle) is None by {
        lemma_generations_between(history, 0, k, handle.slot());
    }
}

/// Along such a history, the generation of a slot never goes down.
proof fn lemma_generations_between<T>(history: Seq<CompactList<T>>, from: int, to: int, slot: int)
    requires
        0 <= from <= to < history.len(),
        0 <= slot < history[from]@.len(),
        forall|k: int| 0 <= k < history.len() - 1 ==> generations_grow(#[trigger] history[k]@, history[k + 1]@),
    ensures
        slot < history[to]@.len(),
        history[from]@[slot].0 <= history[to]@[slot].0,
    decreases to - from,
{
    if from < to {
        lemma_generations_between(history, from, to - 1, slot);
        assert(generations_grow(history[to - 1]@, history[to]@));
    }
}

/// `index` is the first free slot when every slot before it is full and it is free or past the
/// end.
proof fn lemma_first_free_slot_is<T>(slots: Seq<(u32, Option<T>)>, index: int)
    requires
        0 <= index <= slots.len(),
        forall|j: int| 0 <= j < index ==> #[trigger] slots[j].1 is Some,
        index < slots.len() ==> slots[index].1 is None,
    ensures
        first_free_slot(slots) == index,
    decreases index,
{
    if index > 0 {
        assert(slots[0].1 is Some);
        let rest = slots.drop_first();
        assert forall|j: int| 0 <= j < index - 1 implies #[trigger] rest[j].1 is Some by {
            assert(rest[j] == slots[j + 1]);
        }
        lemma_first_free_slot_is(rest, index - 1);
    }
}

} // verus!
