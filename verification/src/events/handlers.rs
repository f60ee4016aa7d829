use vstd::prelude::*;

use crate::events::Event;
use crate::utils::borrow::borrow_each;
use handover::{hand_over, HandOver};

mod handover;

verus! {

/// What a handler receives besides the event: the state, and the means to pass the event on to
/// the next handler in line.
pub trait Delegate<M: Event, S> {
    /// The event has not been passed on yet.
    spec fn can_delegate(&self) -> bool;

    /// No handler comes after the one that holds this delegate.
    spec fn at_end(&self) -> bool;

    /// The handler that comes next promises `output` for `event`.
    spec fn passes_to(&self, event: M, output: M::Output) -> bool;

    /// The state can still be reached: the event was not passed on in vain.
    spec fn state_available(&self) -> bool;

    /// Passes the event to the next handler, if there is one, and returns its output; `None`
    /// when this handler is the last, after which the state can no longer be reached.
    fn delegate(&mut self, event: M) -> (r: Option<M::Output>)
        requires
            old(self).can_delegate(),
        ensures
            r is None <==> old(self).at_end(),
            r matches Some(output) ==> old(self).passes_to(event, output),
            !final(self).can_delegate(),
            final(self).state_available() == (old(self).state_available() && r is Some),
    ;

    /// The state that the handlers share, as it is now.
    spec fn shared(&self) -> S;

    /// The state that the handlers share.
    fn state(&mut self) -> (r: &mut S)
        requires
            old(self).state_available(),
        ensures
            final(self).state_available(),
            *r == old(self).shared(),
            final(self).shared() == *final(r),
            final(self).can_delegate() == old(self).can_delegate(),
            final(self).at_end() == old(self).at_end(),
            forall|event: M, output: M::Output| #[trigger]
                final(self).passes_to(event, output) == old(self).passes_to(event, output),
    ;
}

/// A handler for events of type `M` over shared state `S`.
pub trait EventHandler<M: Event, S> {
    /// What the handler promises of the output it gives for `event`; nothing, unless the
    /// handler says more.
    open spec fn handles(&self, event: M, output: M::Output) -> bool {
        true
    }

    fn handle(&mut self, event: M, context: Box<dyn Delegate<M, S> + '_>) -> (r: M::Output)
        ensures
            old(self).handles(event, r),
    ;
}

/// A handler as it is registered.
#[verifier::reject_recursive_types(M)]
#[verifier::reject_recursive_types(S)]
pub struct RegisteredHandler<M: Event, S> {
    pub handler: Box<dyn EventHandler<M, S>>,
}

/// Passed into event handlers as the last parameter. Use the member function `delegate` to send
/// the event to the next handler in line.
#[verifier::reject_recursive_types(M)]
#[verifier::reject_recursive_types(S)]
pub struct Context<'a, 's, M: Event, S> {
    upstream: Vec<&'a mut RegisteredHandler<M, S>>,
    state: &'s mut S,
    delegated: bool,
    stranded: Ghost<bool>,
    handed_on: Option<HandOver<M, S>>,
}

/// The handlers that `upstream` refers to, in order.
spec fn upstream_handlers<'a, M: Event, S>(upstream: Seq<&'a mut RegisteredHandler<M, S>>) -> Seq<
    RegisteredHandler<M, S>,
> {
    upstream.map_values(|handler: &'a mut RegisteredHandler<M, S>| *handler)
}

impl<'a, 's, M: Event, S> Context<'a, 's, M, S> {
    fn new(upstream: Vec<&'a mut RegisteredHandler<M, S>>, state: &'s mut S) -> (r: Self)
        ensures
            r.is_fresh(),
            r.following() == upstream_handlers(upstream@),
            !r.is_stranded(),
    {
        Context {
            upstream,
            state,
            delegated: false,
            stranded: Ghost(false),
            handed_on: None,
        }
    }

    /// The handlers after the one that holds this context, in order.
    pub closed spec fn following(&self) -> Seq<RegisteredHandler<M, S>> {
        upstream_handlers(self.upstream@)
    }

    /// The handlers that the context handed to the next handler carried, once the event was
    /// passed on.
    pub closed spec fn handed_on(&self) -> Seq<RegisteredHandler<M, S>> {
        match self.handed_on {
            Some(handover) => handover.carried(),
            None => Seq::empty(),
        }
    }

    /// The event was passed on with no handler left to take it; as for a handler that the
    /// chain ran past, its state can no longer be reached.
    pub closed spec fn is_stranded(&self) -> bool {
        self.stranded@
    }

    /// The event has not been passed on yet.
    pub closed spec fn is_fresh(&self) -> bool {
        !self.delegated
    }

    /// The shared state, as it is now.
    pub closed spec fn state_now(&self) -> S {
        *self.state
    }

    /// No handler comes after the one that holds this context.
    pub closed spec fn is_last(&self) -> bool {
        self.following().len() == 0
    }

    /// The handler that comes next promises `output` for `event` (see [EventHandler::handles]).
    pub closed spec fn next_handles(&self, event: M, output: M::Output) -> bool {
        self.following()[0].handler.handles(event, output)
    }

    /// Passes the event to the next handler in the chain, if there is one. Returns [None] if
    /// there are no handlers to delegate to, otherwise returns the next handler's output.
    pub fn delegate(&mut self, event: M) -> (r: Option<M::Output>)
        requires
            old(self).is_fresh(),
        ensures
            r is None <==> old(self).is_last(),
            r matches Some(output) ==> old(self).next_handles(event, output),
            r is Some ==> final(self).handed_on() == old(self).following().drop_first(),
            !final(self).is_fresh(),
            final(self).is_stranded() == (old(self).is_stranded() || r is None),
    {
        match self.pass_on(event) {
            Ok(output) => Some(output),
            Err(_) => None,
        }
    }

    /// Passes the event to the next handler, with a context that carries the handlers after
    /// that one, and returns its output; gives the event back when there is no next handler.
    fn pass_on(&mut self, event: M) -> (r: Result<M::Output, M>)
        requires
            old(self).is_fresh(),
        ensures
            r is Err <==> old(self).is_last(),
            r matches Err(unhandled) ==> unhandled == event,
            r matches Ok(output) ==> old(self).next_handles(event, output),
            r is Ok ==> final(self).handed_on() == old(self).following().drop_first(),
            !final(self).is_fresh(),
            final(self).is_stranded() == (old(self).is_stranded() || r is Err),
    {
        let mut upstream = Vec::new();
        std::mem::swap(&mut upstream, &mut self.upstream);
        self.delegated = true;
        if upstream.len() == 0 {
            proof {
                self.stranded = Ghost(true);
            }
            Err(event)
        } else {
            let ghost all = upstream_handlers(upstream@);
            let next = upstream.remove(0);
            let next_context = Context::new(upstream, &mut *self.state);
            assert(next_context.following() =~= all.drop_first());
            let (output, handover) = hand_over(next, event, next_context);
            self.handed_on = Some(handover);
            Ok(output)
        }
    }
}

impl<'a, 's, M: Event, S> Delegate<M, S> for Context<'a, 's, M, S> {
    closed spec fn can_delegate(&self) -> bool {
        self.is_fresh()
    }

    closed spec fn at_end(&self) -> bool {
        self.is_last()
    }

    closed spec fn passes_to(&self, event: M, output: M::Output) -> bool {
        self.next_handles(event, output)
    }

    closed spec fn shared(&self) -> S {
        self.state_now()
    }

    closed spec fn state_available(&self) -> bool {
        !self.is_stranded()
    }

    fn delegate(&mut self, event: M) -> (r: Option<M::Output>) {
        Context::delegate(self, event)
    }

    fn state(&mut self) -> (r: &mut S) {
        &mut *self.state
    }
}

/// List of handlers for a specific type of [Event].
#[verifier::reject_recursive_types(M)]
#[verifier::reject_recursive_types(S)]
pub struct EventHandlers<M: Event, S> {
    handlers: Vec<RegisteredHandler<M, S>>,
    dispatched: Option<HandOver<M, S>>,
}

impl<M: Event, S> View for EventHandlers<M, S> {
    /// The handlers, in the order they are called.
    type V = Seq<RegisteredHandler<M, S>>;

    closed spec fn view(&self) -> Self::V {
        self.handlers@
    }
}

impl<M: Event, S> EventHandlers<M, S> {
    pub fn new() -> (r: Self)
        ensures
            r@.len() == 0,
    {
        EventHandlers { handlers: Vec::new(), dispatched: None }
    }

    /// The handlers that the context handed to the first handler carried, in the latest
    /// dispatch that reached a handler.
    pub closed spec fn first_carried(&self) -> Seq<RegisteredHandler<M, S>> {
        match self.dispatched {
            Some(handover) => handover.carried(),
            None => Seq::empty(),
        }
    }

    /// Appends a handler to this handler list. This handler will be called after all
    /// previously registered handlers.
    pub fn append(&mut self, handler: Box<dyn EventHandler<M, S>>)
        ensures
            final(self)@ == old(self)@.push(RegisteredHandler { handler }),
    {
        self.handlers.push(RegisteredHandler { handler });
    }

    /// Prepends a handler to this handler list. This handler will be called before all
    /// previously registered handlers.
    pub fn prepend(&mut self, handler: Box<dyn EventHandler<M, S>>)
        ensures
            final(self)@ == old(self)@.insert(0, RegisteredHandler { handler }),
    {
        self.handlers.insert(0, RegisteredHandler { handler });
    }

    /// Passes `event` to the first handler, with a context that carries the handlers after it,
    /// and returns its output; gives the event back when there are no handlers. What the first
    /// handler's context carried is kept (see [EventHandlers::first_carried]).
    pub fn handle_event(&mut self, event: M, state: &mut S) -> (r: Result<M::Output, M>)
        ensures
            r is Err <==> old(self)@.len() == 0,
            r matches Err(unhandled) ==> unhandled == event,
            r matches Ok(output) ==> old(self)@[0].handler.handles(event, output),
            r is Ok ==> final(self).first_carried() == old(self)@.drop_first(),
            final(self)@.len() == old(self)@.len(),
    {
        let handlers = borrow_each(self.handlers.as_mut_slice());
        let mut context = Context::new(handlers, state);
        assert(context.following() =~= old(self)@);
        let r = context.pass_on(event);
        self.dispatched = context.handed_on.take();
        r
    }
}

} // verus!
