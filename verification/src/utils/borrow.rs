//! Mutable references to every element of a slice at once.
use vstd::prelude::*;

verus! {

/// A mutable reference to each element of `items`, in order. The slice keeps its length,
/// whatever is written through the references.
pub fn borrow_each<'a, T>(items: &'a mut [T]) -> (r: Vec<&'a mut T>)
    ensures
        r@.len() == old(items)@.len(),
        forall|i: int| 0 <= i < r@.len() ==> *(#[trigger] r@[i]) == old(items)@[i],
        final(items)@.len() == old(items)@.len(),
    decreases old(items)@.len(),
{
    if items.len() == 0 {
        return Vec::new();
    }
    let ghost all = items@;
    let (first, rest) = items.split_at_mut(1);
    let mut refs = borrow_each(rest);
    match first.first_mut() {
        Some(item) => {
            refs.insert(0, item);
            refs
        },
        None => refs,
    }
}

} // verus!
