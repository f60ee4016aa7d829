//! Handing an event, with a context, to the next listener in line.
use vstd::prelude::*;

use super::{Context, Registered};

verus! {

/// What a context carried when it was handed to the next listener. Only [hand_over] makes one,
/// from the context that it hands on.
#[verifier::reject_recursive_types(E)]
#[verifier::reject_recursive_types(R)]
pub struct HandOver<E, R> {
    carried: Ghost<Seq<Registered<E, R>>>,
}

impl<E, R> HandOver<E, R> {
    /// The listeners that the handed-on context carried, in order.
    pub closed spec fn carried(self) -> Seq<Registered<E, R>> {
        self.carried@
    }
}

/// Calls `next` with `event` and `context`, and returns a record of the listeners that `context`
/// carried.
pub fn hand_over<'a, E, R>(next: &mut Registered<E, R>, event: E, context: Context<'a, E, R>) -> (r:
    HandOver<E, R>)
    ensures
        old(next).listener.hears(event),
        r.carried() == context.upcoming(),
{
    let carried = Ghost(context.upcoming());
    next.listener.call(event, Box::new(context));
    HandOver { carried }
}

} // verus!
