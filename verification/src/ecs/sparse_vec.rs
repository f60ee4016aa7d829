//! A vector indexed by position, where every position may or may not hold a value.
use vstd::prelude::*;

verus! {

/// A vector of optional values. Setting a value beyond the end grows the vector with empty
/// positions.
pub struct SparseVec<T> {
    storage: Vec<Option<T>>,
}

impl<T> View for SparseVec<T> {
    /// The positions, in order; positions past the end hold nothing.
    type V = Seq<Option<T>>;

    closed spec fn view(&self) -> Seq<Option<T>> {
        self.storage@
    }
}

/// The values of `slots` that are present, in order.
pub open spec fn present_values<T>(slots: Seq<Option<T>>) -> Seq<T>
    decreases slots.len(),
{
    if slots.len() == 0 {
        Seq::empty()
    } else {
        let rest = present_values(slots.drop_last());
        match slots.last() {
            Some(value) => rest.push(value),
            None => rest,
        }
    }
}

impl<T> SparseVec<T> {
    /// The value at `index`, if there is one.
    pub open spec fn spec_get(self, index: int) -> Option<T> {
        if 0 <= index < self@.len() {
            self@[index]
        } else {
            None
        }
    }

    pub fn new() -> (r: Self)
        ensures
            r@ == Seq::<Option<T>>::empty(),
    {
        SparseVec { storage: Vec::new() }
    }

    pub fn get(&self, index: usize) -> (r: Option<&T>)
        ensures
            match r {
                Some(value) => self.spec_get(index as int) == Some(*value),
                None => self.spec_get(index as int) is None,
            },
    {
        if index < self.storage.len() {
            self.storage[index].as_ref()
        } else {
            None
        }
    }

    /// Mutable access to the value at `index`; no other position changes.
    pub fn get_mut(&mut self, index: usize) -> (r: Option<&mut T>)
        ensures
            match r {
                Some(value) => {
                    &&& old(self).spec_get(index as int) == Some(*value)
                    &&& final(self)@ == old(self)@.update(index as int, Some(*final(value)))
                },
                None => {
                    &&& old(self).spec_get(index as int) is None
                    &&& final(self)@ == old(self)@
                },
            },
    {
        if index < self.storage.len() {
            let slot = &mut self.storage[index];
            slot.as_mut()
        } else {
            None
        }
    }

    /// Puts `value` at `index`, growing the vector when `index` is past its end, and returns the
    /// value that was there.
    pub fn set(&mut self, index: usize, value: T) -> (r: Option<T>)
        requires
            index < usize::MAX,
        ensures
            r == old(self).spec_get(index as int),
            final(self)@.len() == if index < old(self)@.len() {
                old(self)@.len() as int
            } else {
                index + 1
            },
            forall|i: int|
                #![trigger final(self).spec_get(i)]
                final(self).spec_get(i) == if i == index {
                    Some(value)
                } else {
                    old(self).spec_get(i)
                },
    {
        let ghost before = self@;
        while self.storage.len() <= index
            invariant
                index < usize::MAX,
                before == old(self)@,
                self@.len() >= before.len(),
                self@.len() <= if index < before.len() {
                    before.len() as int
                } else {
                    index + 1
                },
                forall|i: int| 0 <= i < before.len() ==> self@[i] == before[i],
                forall|i: int| before.len() <= i < self@.len() ==> self@[i] is None,
            decreases index + 1 - self.storage.len(),
        {
            self.storage.push(None);
        }
        let mut slot = Some(value);
        std::mem::swap(&mut slot, &mut self.storage[index]);
        slot
    }

    /// Takes the value at `index` out, leaving the position empty.
    pub fn remove(&mut self, index: usize) -> (r: Option<T>)
        ensures
            r == old(self).spec_get(index as int),
            final(self)@ == if index < old(self)@.len() {
                old(self)@.update(index as int, None)
            } else {
                old(self)@
            },
    {
        if index < self.storage.len() {
            let mut slot = None;
            std::mem::swap(&mut slot, &mut self.storage[index]);
            slot
        } else {
            None
        }
    }

    /// Takes the value at `index` out if `predicate` accepts it; otherwise leaves it in place.
    pub fn remove_if<F: FnOnce(&T) -> bool>(&mut self, index: usize, predicate: F) -> (r: Option<T>)
        requires
            old(self).spec_get(index as int) matches Some(value) ==> call_requires(
                predicate,
                (&value,),
            ),
        ensures
            r is Some ==> {
                &&& r == old(self).spec_get(index as int)
                &&& call_ensures(predicate, (&r->Some_0,), true)
                &&& final(self)@ == old(self)@.update(index as int, None)
            },
            r is None ==> {
                &&& final(self)@ == old(self)@
                &&& old(self).spec_get(index as int) matches Some(value) ==> call_ensures(
                    predicate,
                    (&value,),
                    false,
                )
            },
    {
        if index >= self.storage.len() {
            return None;
        }
        let accepted = match self.storage[index].as_ref() {
            Some(component) => predicate(component),
            None => false,
        };
        if accepted {
            let mut slot = None;
            std::mem::swap(&mut slot, &mut self.storage[index]);
            slot
        } else {
            None
        }
    }

    pub fn contains(&self, index: usize) -> (r: bool)
        ensures
            r == self.spec_get(index as int) is Some,
    {
        match self.get(index) {
            Some(_) => true,
            None => false,
        }
    }

    /// The positions that hold a value, in increasing order.
    pub fn occupied(&self) -> (r: Vec<usize>)
        ensures
            forall|i: int, j: int| 0 <= i < j < r@.len() ==> r@[i] < r@[j],
            forall|k: int| 0 <= k < r@.len() ==> self.spec_get(#[trigger] r@[k] as int) is Some,
            forall|index: int|
                #[trigger] self.spec_get(index) is Some ==> exists|k: int|
                    0 <= k < r@.len() && r@[k] == index,
            lists_occupied(self@, r@.map_values(|index: usize| index as int)),
    {
        let mut positions: Vec<usize> = Vec::new();
        let mut index: usize = 0;
        while index < self.storage.len()
            invariant
                0 <= index <= self@.len(),
                forall|i: int, j: int| 0 <= i < j < positions@.len() ==> positions@[i] < positions@[j],
                forall|k: int| 0 <= k < positions@.len() ==> #[trigger] positions@[k] < index,
                forall|k: int|
                    0 <= k < positions@.len() ==> self.spec_get(#[trigger] positions@[k] as int) is Some,
                forall|i: int|
                    0 <= i < index && #[trigger] self.spec_get(i) is Some ==> exists|k: int|
                        0 <= k < positions@.len() && positions@[k] == i,
            decreases self@.len() - index,
        {
            if self.storage[index].is_some() {
                let ghost before = positions@;
                positions.push(index);
                assert forall|i: int| 0 <= i < index + 1 && #[trigger] self.spec_get(i) is Some implies exists|k: int|
                    0 <= k < positions@.len() && positions@[k] == i by {
                    if i == index {
                        assert(positions@[before.len() as int] == i);
                    } else {
                        let k = choose|k: int| 0 <= k < before.len() && before[k] == i;
                        assert(positions@[k] == i);
                    }
                }
            }
            index += 1;
        }
        proof {
            let listed = positions@.map_values(|index: usize| index as int);
            assert forall|i: int|
                0 <= i < self@.len() && #[trigger] self@[i] is Some implies exists|k: int|
                    0 <= k < listed.len() && listed[k] == i by {
                assert(self.spec_get(i) is Some);
                let k = choose|k: int| 0 <= k < positions@.len() && positions@[k] == i;
                assert(listed[k] == i);
            }
            assert forall|k: int| 0 <= k < listed.len() implies 0 <= #[trigger] listed[k] < self@.len()
                && self@[listed[k]] is Some by {
                assert(self.spec_get(positions@[k] as int) is Some);
            }
        }
        positions
    }

    /// The present values, in order of position.
    pub fn iter(&self) -> (r: Vec<&T>)
        ensures
            r@.map_values(|value: &T| *value) == present_values(self@),
    {
        let mut values: Vec<&T> = Vec::new();
        let mut index: usize = 0;
        while index < self.storage.len()
            invariant
                0 <= index <= self@.len(),
                values@.map_values(|value: &T| *value) == present_values(self@.subrange(0, index as int)),
            decreases self@.len() - index,
        {
            let ghost prefix = self@.subrange(0, index as int);
            let ghost next = self@.subrange(0, index + 1);
            assert(next.drop_last() =~= prefix);
            match self.storage[index].as_ref() {
                Some(value) => {
                    values.push(value);
                    assert(values@.map_values(|value: &T| *value) =~= present_values(next));
                },
                None => {},
            }
            index += 1;
        }
        assert(self@.subrange(0, self@.len() as int) =~= self@);
        values
    }
}

impl<T> Default for SparseVec<T> {
    fn default() -> (r: Self)
        ensures
            r@ == Seq::<Option<T>>::empty(),
    {
        Self::new()
    }
}

/// `positions` are, in increasing order, exactly the positions of `slots` that hold a value.
pub open spec fn lists_occupied<T>(slots: Seq<Option<T>>, positions: Seq<int>) -> bool {
    &&& forall|i: int, j: int| 0 <= i < j < positions.len() ==> positions[i] < positions[j]
    &&& forall|k: int|
        0 <= k < positions.len() ==> 0 <= #[trigger] positions[k] < slots.len() && slots[positions[k]] is Some
    &&& forall|index: int|
        0 <= index < slots.len() && #[trigger] slots[index] is Some ==> exists|k: int|
            0 <= k < positions.len() && positions[k] == index
}

/// The present values are the values at the occupied positions, taken in increasing order of
/// position: what [SparseVec::iter] gives is the value at each position that
/// [SparseVec::occupied] lists, in that order.
pub proof fn lemma_present_values_follow_positions<T>(slots: Seq<Option<T>>, positions: Seq<int>)
    requires
        lists_occupied(slots, positions),
    ensures
        present_values(slots) == positions.map_values(|index: int| slots[index]->0),
    decreases slots.len(),
{
    if slots.len() == 0 {
        if positions.len() > 0 {
            assert(0 <= positions[0] < slots.len());
        }
        assert(positions.map_values(|index: int| slots[index]->0) =~= Seq::<T>::empty());
    } else {
        let last = slots.len() - 1;
        let rest = slots.drop_last();
        if slots[last] is Some {
            let k = choose|k: int| 0 <= k < positions.len() && positions[k] == last;
            if k < positions.len() - 1 {
                assert(positions[k] < positions[positions.len() - 1]);
                assert(positions[positions.len() - 1] < slots.len());
            }
            let before = positions.drop_last();
            assert forall|index: int|
                0 <= index < rest.len() && #[trigger] rest[index] is Some implies exists|j: int|
                    0 <= j < before.len() && before[j] == index by {
                assert(slots[index] is Some);
                let j = choose|j: int| 0 <= j < positions.len() && positions[j] == index;
                assert(before[j] == index);
            }
            assert forall|j: int| 0 <= j < before.len() implies 0 <= #[trigger] before[j] < rest.len()
                && rest[before[j]] is Some by {
                assert(positions[j] < positions[positions.len() - 1]);
            }
            lemma_present_values_follow_positions(rest, before);
            assert(before.map_values(|index: int| rest[index]->0) =~= before.map_values(
                |index: int| slots[index]->0,
            ));
            assert(positions.map_values(|index: int| slots[index]->0) =~= before.map_values(
                |index: int| slots[index]->0,
            ).push(slots[last]->0));
        } else {
            assert forall|j: int| 0 <= j < positions.len() implies 0 <= #[trigger] positions[j] < rest.len()
                && rest[positions[j]] is Some by {
                assert(positions[j] != last);
            }
            assert forall|index: int|
                0 <= index < rest.len() && #[trigger] rest[index] is Some implies exists|j: int|
                    0 <= j < positions.len() && positions[j] == index by {
                assert(slots[index] is Some);
            }
            lemma_present_values_follow_positions(rest, positions);
            assert(positions.map_values(|index: int| rest[index]->0) =~= positions.map_values(
                |index: int| slots[index]->0,
            ));
        }
    }
}

/// After `set(index, value)`, the value at `index` is `value`; after `remove(index)`, nothing
/// is there; neither touches another position.
pub proof fn lemma_set_then_remove<T>(
    start: SparseVec<T>,
    after_set: SparseVec<T>,
    after_remove: SparseVec<T>,
    index: usize,
    value: T,
)
    requires
        index < after_set@.len(),
        forall|i: int|
            #![trigger after_set.spec_get(i)]
            after_set.spec_get(i) == if i == index {
                Some(value)
            } else {
                start.spec_get(i)
            },
        after_remove@ == after_set@.update(index as int, None),
    ensures
        after_set.spec_get(index as int) == Some(value),
        after_remove.spec_get(index as int) is None,
        forall|i: int| i != index ==> #[trigger] after_remove.spec_get(i) == start.spec_get(i),
{
    assert forall|i: int| i != index implies #[trigger] after_remove.spec_get(i) == start.spec_get(i) by {
        assert(after_set.spec_get(i) == start.spec_get(i));
    }
}

} // verus!
