//! Heterogeneous lists built from nested pairs: `(a, (b, (c, ())))`.
//!
//! The empty list is `()` and a non-empty list is a pair of its head and its tail.
use vstd::prelude::*;

mod fold;
mod has;
mod map;
mod shape;

pub use fold::{FnFoldHList, TryFold};
pub use has::{Has, Here, There};
pub use map::{FnMapHList, Mappable};
pub use shape::IntoShape;

verus! {

/// Lists that a value can be put in front of.
pub trait Prepend: Sized {
    fn prepend<T>(self, value: T) -> (r: (T, Self))
        ensures
            r == (value, self),
    ;
}

impl Prepend for () {
    fn prepend<T>(self, value: T) -> (r: (T, Self)) {
        (value, ())
    }
}

impl<Head, Tail> Prepend for (Head, Tail) {
    fn prepend<T>(self, value: T) -> (r: (T, Self)) {
        (value, self)
    }
}

/// Lists that another list `T` can be appended to.
pub trait Concat<T>: Sized {
    type Concatenated;

    /// The list made of the elements of `self` followed by those of `list`.
    spec fn spec_concat(self, list: T) -> Self::Concatenated;

    fn concat(self, list: T) -> (r: Self::Concatenated)
        ensures
            r == self.spec_concat(list),
    ;
}

impl<T> Concat<T> for () {
    type Concatenated = T;

    open spec fn spec_concat(self, list: T) -> T {
        list
    }

    fn concat(self, list: T) -> (r: T) {
        list
    }
}

impl<T, Head, Tail> Concat<T> for (Head, Tail) where Tail: Concat<T> {
    type Concatenated = (Head, Tail::Concatenated);

    open spec fn spec_concat(self, list: T) -> (Head, Tail::Concatenated) {
        (self.0, self.1.spec_concat(list))
    }

    fn concat(self, list: T) -> (r: (Head, Tail::Concatenated)) {
        (self.0, self.1.concat(list))
    }
}

/// Lists whose elements can all be borrowed at once.
pub trait ToRef<'a> {
    type Output;

    /// The list of references to the elements, in order.
    spec fn spec_to_ref(&'a self) -> Self::Output;

    fn to_ref(&'a self) -> (r: Self::Output)
        ensures
            r == self.spec_to_ref(),
    ;
}

impl<'a> ToRef<'a> for () {
    type Output = ();

    open spec fn spec_to_ref(&'a self) -> () {
        ()
    }

    fn to_ref(&'a self) -> (r: ()) {
        ()
    }
}

impl<'a, Head: 'a, Tail: 'a> ToRef<'a> for (Head, Tail) where Tail: ToRef<'a> {
    type Output = (&'a Head, Tail::Output);

    open spec fn spec_to_ref(&'a self) -> (&'a Head, Tail::Output) {
        (&self.0, self.1.spec_to_ref())
    }

    fn to_ref(&'a self) -> (r: (&'a Head, Tail::Output)) {
        (&self.0, self.1.to_ref())
    }
}

/// Lists whose elements can all be borrowed mutably at once.
pub trait ToMut<'a>: Sized {
    type Output;

    /// The values that the references of `output` point at now, as a list.
    spec fn reads(output: Self::Output) -> Self;

    /// One mutable reference to each element, in order, each pointing at its element.
    fn to_mut(&'a mut self) -> (r: Self::Output)
        ensures
            Self::reads(r) == *old(self),
    ;
}

impl<'a> ToMut<'a> for () {
    type Output = ();

    open spec fn reads(output: ()) -> () {
        ()
    }

    fn to_mut(&'a mut self) -> (r: ()) {
        ()
    }
}

impl<'a, Head: 'a, Tail: 'a> ToMut<'a> for (Head, Tail) where Tail: ToMut<'a> {
    type Output = (&'a mut Head, Tail::Output);

    open spec fn reads(output: (&'a mut Head, Tail::Output)) -> (Head, Tail) {
        (mut_ref_current(output.0), Tail::reads(output.1))
    }

    /// What is written through the first reference is the list's new head.
    fn to_mut(&'a mut self) -> (r: (&'a mut Head, Tail::Output))
        ensures
            final(self).0 == *final(r.0),
    {
        (&mut self.0, self.1.to_mut())
    }
}

} // verus!
