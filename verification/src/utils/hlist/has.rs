use std::marker::PhantomData;
use vstd::prelude::*;

verus! {

/// Marker for query operations: the element is the head of the list.
pub struct Here;

/// Marker for query operations: the element is found in the tail, at index `T`.
pub struct There<T> {
    phantom_data: PhantomData<T>,
}

/// A list that holds an element of type `T`, found at the position that `I` encodes.
pub trait Has<T, I>: Sized {
    type Remainder;

    /// The element that the index selects.
    spec fn spec_get(&self) -> T;

    /// The list with the selected element replaced by `value`.
    spec fn spec_replace(self, value: T) -> Self;

    /// The list without the selected element.
    spec fn spec_remainder(self) -> Self::Remainder;

    /// Reading back a replaced element gives the value it was replaced with.
    proof fn lemma_replace_get(self, value: T)
        ensures
            self.spec_replace(value).spec_get() == value,
    ;

    fn get(&self) -> (r: &T)
        ensures
            *r == self.spec_get(),
    ;

    fn get_mut(&mut self) -> (r: &mut T)
        ensures
            *r == old(self).spec_get(),
            *final(self) == old(self).spec_replace(*final(r)),
    ;

    fn pick(self) -> (r: (T, Self::Remainder))
        ensures
            r.0 == self.spec_get(),
            r.1 == self.spec_remainder(),
    ;
}

impl<Head, Tail> Has<Head, Here> for (Head, Tail) {
    type Remainder = Tail;

    open spec fn spec_get(&self) -> Head {
        self.0
    }

    open spec fn spec_replace(self, value: Head) -> Self {
        (value, self.1)
    }

    open spec fn spec_remainder(self) -> Tail {
        self.1
    }

    proof fn lemma_replace_get(self, value: Head) {
    }

    fn get(&self) -> (r: &Head) {
        &self.0
    }

    fn get_mut(&mut self) -> (r: &mut Head) {
        &mut self.0
    }

    fn pick(self) -> (r: (Head, Tail)) {
        self
    }
}

impl<Head, Tail, FromTail, TailIndex> Has<FromTail, There<TailIndex>> for (Head, Tail) where
    Tail: Has<FromTail, TailIndex>,
 {
    type Remainder = (Head, Tail::Remainder);

    open spec fn spec_get(&self) -> FromTail {
        self.1.spec_get()
    }

    open spec fn spec_replace(self, value: FromTail) -> Self {
        (self.0, self.1.spec_replace(value))
    }

    open spec fn spec_remainder(self) -> (Head, Tail::Remainder) {
        (self.0, self.1.spec_remainder())
    }

    proof fn lemma_replace_get(self, value: FromTail) {
        self.1.lemma_replace_get(value);
    }

    fn get(&self) -> (r: &FromTail) {
        self.1.get()
    }

    fn get_mut(&mut self) -> (r: &mut FromTail) {
        self.1.get_mut()
    }

    fn pick(self) -> (r: (FromTail, (Head, Tail::Remainder))) {
        let (picked, remainder) = self.1.pick();
        (picked, (self.0, remainder))
    }
}

} // verus!
