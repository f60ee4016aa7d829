//! Values that are either held or referred to by a handle.
use vstd::prelude::*;

use crate::utils::Handle;

verus! {

/// A value, or a handle to one.
pub enum MaybeOwned<T> {
    Handle(Handle<T>),
    Owned(T),
}

/// A mutable reference to a value, or a handle to one.
pub enum MaybeRef<'a, T> {
    Handle(Handle<T>),
    Ref(&'a mut T),
}

impl<T> From<Handle<T>> for MaybeOwned<T> {
    fn from(value: Handle<T>) -> (r: Self) {
        MaybeOwned::Handle(value)
    }
}

impl<T> vstd::std_specs::convert::FromSpecImpl<Handle<T>> for MaybeOwned<T> {
    open spec fn obeys_from_spec() -> bool {
        true
    }

    open spec fn from_spec(value: Handle<T>) -> MaybeOwned<T> {
        MaybeOwned::Handle(value)
    }
}

impl<T> From<T> for MaybeOwned<T> {
    fn from(value: T) -> (r: Self) {
        MaybeOwned::Owned(value)
    }
}

impl<T> vstd::std_specs::convert::FromSpecImpl<T> for MaybeOwned<T> {
    open spec fn obeys_from_spec() -> bool {
        true
    }

    open spec fn from_spec(value: T) -> MaybeOwned<T> {
        MaybeOwned::Owned(value)
    }
}

impl<'a, T> From<Handle<T>> for MaybeRef<'a, T> {
    fn from(value: Handle<T>) -> (r: Self) {
        MaybeRef::Handle(value)
    }
}

impl<'a, T> vstd::std_specs::convert::FromSpecImpl<Handle<T>> for MaybeRef<'a, T> {
    open spec fn obeys_from_spec() -> bool {
        true
    }

    open spec fn from_spec(value: Handle<T>) -> MaybeRef<'a, T> {
        MaybeRef::Handle(value)
    }
}

impl<'a, T> From<&'a mut T> for MaybeRef<'a, T> {
    fn from(value: &'a mut T) -> (r: Self) {
        MaybeRef::Ref(value)
    }
}

/// This conversion claims no specification: in specifications a mutable reference is not equated
/// with the one it was moved into.
impl<'a, T> vstd::std_specs::convert::FromSpecImpl<&'a mut T> for MaybeRef<'a, T> {
    open spec fn obeys_from_spec() -> bool {
        false
    }

    open spec fn from_spec(value: &'a mut T) -> MaybeRef<'a, T> {
        MaybeRef::Ref(value)
    }
}

} // verus!
