//! Handing an event, with a context, to the next handler in line.
use vstd::prelude::*;

use super::{Context, RegisteredHandler};
use crate::events::Event;

verus! {

/// What a context carried when it was handed to the next handler. Only [hand_over] makes one,
/// from the context that it hands on.
#[verifier::reject_recursive_types(M)]
#[verifier::reject_recursive_types(S)]
pub struct HandOver<M: Event, S> {
    carried: Ghost<Seq<RegisteredHandler<M, S>>>,
}

impl<M: Event, S> HandOver<M, S> {
    /// The handlers that the handed-on context carried, in order.
    pub closed spec fn carried(self) -> Seq<RegisteredHandler<M, S>> {
        self.carried@
    }
}

/// Hands `event` to `next` together with `context`, and returns the output of `next` and a record
/// of the handlers that `context` carried.
pub fn hand_over<'a, 's, M: Event, S>(
    next: &mut RegisteredHandler<M, S>,
    event: M,
    context: Context<'a, 's, M, S>,
) -> (r: (M::Output, HandOver<M, S>))
    ensures
        old(next).handler.handles(event, r.0),
        r.1.carried() == context.following(),
{
    let carried = Ghost(context.following());
    let output = next.handler.handle(event, Box::new(context));
    (output, HandOver { carried })
}

} // verus!
