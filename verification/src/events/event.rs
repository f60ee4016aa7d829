use vstd::prelude::*;

verus! {

/// Basic event trait. An [Event] gets passed into the event system, and passed to the first
/// handler. Handlers can delegate the event further up the chain, or return an output
/// immediately.
pub trait Event {
    type Output;
}

} // verus!
