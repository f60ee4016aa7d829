use vstd::prelude::*;

use crate::utils::hlist::{Has, IntoShape, ToMut};

verus! {

/// The list `R` of resources of a process.
pub struct Resources<R> {
    resource_list: R,
}

impl<R> Resources<R> {
    pub closed spec fn list(self) -> R {
        self.resource_list
    }

    pub fn new(resource_list: R) -> (r: Self)
        ensures
            r.list() == resource_list,
    {
        Resources { resource_list }
    }

    /// Mutable access to the resource of type `T`; the others do not change.
    pub fn get<T, I>(&mut self) -> (r: &mut T) where R: Has<T, I>
        ensures
            *r == old(self).list().spec_get(),
            final(self).list() == old(self).list().spec_replace(*final(r)),
    {
        self.resource_list.get_mut()
    }

    /// Mutable references to the resources of the types listed in `SR`, in that order: they are
    /// picked, by type, from references to all the resources.
    pub fn get_some<'a, SR, SI>(&'a mut self) -> (r: <SR as ToMut<'a>>::Output) where
        R: ToMut<'a>,
        SR: ToMut<'a>,
        <R as ToMut<'a>>::Output: IntoShape<<SR as ToMut<'a>>::Output, SI>,
        ensures
            picks_resources::<'a, R, SR, SI>(old(self).list(), r),
     {
        self.resource_list.to_mut().into_shape().0
    }
}

/// `picked` is what is picked, by the types listed in `SR`, from a list of mutable references to
/// the elements of `list`.
pub open spec fn picks_resources<'a, R, SR, SI>(list: R, picked: <SR as ToMut<'a>>::Output) -> bool where
    R: ToMut<'a>,
    SR: ToMut<'a>,
    <R as ToMut<'a>>::Output: IntoShape<<SR as ToMut<'a>>::Output, SI>,
 {
    exists|all: <R as ToMut<'a>>::Output| #[trigger] R::reads(all) == list && all.spec_shape() == picked
}

/// Holders of resources from which the resources of the types listed in `SR` can be borrowed.
pub trait HasResources<'a, SR, SI> where SR: ToMut<'a> {
    /// `picked` are mutable references to resources that this holder holds, of the types
    /// listed in `SR`, in that order.
    spec fn lends(&self, picked: SR::Output) -> bool;

    fn res(&'a mut self) -> (r: SR::Output)
        ensures
            old(self).lends(r),
    ;
}

impl<'a, SR, SI, R> HasResources<'a, SR, SI> for Resources<R> where
    R: ToMut<'a>,
    SR: ToMut<'a>,
    <R as ToMut<'a>>::Output: IntoShape<<SR as ToMut<'a>>::Output, SI>,
 {
    open spec fn lends(&self, picked: <SR as ToMut<'a>>::Output) -> bool {
        picks_resources::<'a, R, SR, SI>(self.list(), picked)
    }

    fn res(&'a mut self) -> (r: <SR as ToMut<'a>>::Output) {
        self.resource_list.to_mut().into_shape().0
    }
}

} // verus!
