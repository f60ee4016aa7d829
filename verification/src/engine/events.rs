use std::marker::PhantomData;
use vstd::prelude::*;

use crate::engine::resources::picks_resources;
use crate::utils::borrow::borrow_each;
use crate::utils::hlist::{IntoShape, ToMut};
use handover::{hand_over, HandOver};

mod handover;

verus! {

/// What a listener receives besides the event: the resources, and the means to pass the event
/// on to the next listener in line.
pub trait Propagate<E, R> {
    /// The event has not been passed on yet.
    spec fn can_propagate(&self) -> bool;

    /// A listener comes after the one that holds this context.
    spec fn has_next(&self) -> bool;

    /// The listener that comes next promises what a call with `event` does (see
    /// [Listener::hears]).
    spec fn passes_to(&self, event: E) -> bool;

    /// Hands the event off to the next listener in line and returns its output (`()`), or
    /// `None` if there are no more listeners registered.
    fn next(&mut self, event: E) -> (r: Option<()>)
        requires
            old(self).can_propagate(),
        ensures
            r is Some <==> old(self).has_next(),
            r is Some ==> old(self).passes_to(event),
            !final(self).can_propagate(),
    ;

    /// The resources that the listeners share, as they are now.
    spec fn shared(&self) -> R;

    /// The resources that the listeners share.
    fn resources(&mut self) -> (r: &mut R)
        ensures
            *r == old(self).shared(),
            final(self).shared() == *final(r),
            final(self).can_propagate() == old(self).can_propagate(),
            final(self).has_next() == old(self).has_next(),
            forall|event: E| #[trigger] final(self).passes_to(event) == old(self).passes_to(event),
    ;
}

/// An event listener, taking as parameters the event and the context of the current dispatch.
/// The listener can propagate the event to the next listener in line, if one is present.
pub trait Listener<E, R> {
    /// What a call of the listener with `event` promises; nothing, unless the listener says
    /// more.
    open spec fn hears(&self, event: E) -> bool {
        true
    }

    fn call(&mut self, event: E, context: Box<dyn Propagate<E, R> + '_>)
        ensures
            old(self).hears(event),
    ;
}

/// A listener as it is registered.
#[verifier::reject_recursive_types(E)]
#[verifier::reject_recursive_types(R)]
pub struct Registered<E, R> {
    pub listener: Box<dyn Listener<E, R>>,
}

/// The listeners that `listeners` refer to, in order.
spec fn registered_of<'a, E, R>(listeners: Seq<&'a mut Registered<E, R>>) -> Seq<Registered<E, R>> {
    listeners.map_values(|listener: &'a mut Registered<E, R>| *listener)
}

/// Context for the current event being dispatched.
#[verifier::reject_recursive_types(E)]
#[verifier::reject_recursive_types(R)]
pub struct Context<'a, E, R> {
    resources: &'a mut R,
    listeners: Vec<&'a mut Registered<E, R>>,
    propagated: bool,
    handed_on: Option<HandOver<E, R>>,
    _phantom_event: PhantomData<E>,
}

impl<'a, E, R> Context<'a, E, R> {
    fn new(resources: &'a mut R, listeners: Vec<&'a mut Registered<E, R>>) -> (r: Self)
        ensures
            r.is_fresh(),
            r.upcoming() == registered_of(listeners@),
    {
        Context {
            resources,
            listeners,
            propagated: false,
            handed_on: None,
            _phantom_event: PhantomData,
        }
    }

    /// The event has not been passed on yet.
    pub closed spec fn is_fresh(&self) -> bool {
        !self.propagated
    }

    /// The resources, as they are now.
    pub closed spec fn resources_now(&self) -> R {
        *self.resources
    }

    /// The listeners after the one that holds this context, in order.
    pub closed spec fn upcoming(&self) -> Seq<Registered<E, R>> {
        registered_of(self.listeners@)
    }

    /// The listeners that the context handed to the next listener carried, once the event was
    /// passed on.
    pub closed spec fn handed_on(&self) -> Seq<Registered<E, R>> {
        match self.handed_on {
            Some(handover) => handover.carried(),
            None => Seq::empty(),
        }
    }

    /// Hands the event off to the next listener in line and returns its output (`()`), or
    /// `None` if there are no more listeners registered. The next listener is called with the
    /// event and a context that carries the listeners after it, so that it can pass the event
    /// on in turn.
    pub fn next(&mut self, event: E) -> (r: Option<()>)
        requires
            old(self).is_fresh(),
        ensures
            r is Some <==> old(self).upcoming().len() > 0,
            r is Some ==> old(self).upcoming()[0].listener.hears(event),
            r is Some ==> final(self).handed_on() == old(self).upcoming().drop_first(),
            !final(self).is_fresh(),
    {
        self.propagated = true;
        if self.listeners.len() > 0 {
            let mut rest = Vec::new();
            std::mem::swap(&mut rest, &mut self.listeners);
            let ghost all = registered_of(rest@);
            let registered = rest.remove(0);
            let context = Context::new(&mut *self.resources, rest);
            assert(context.upcoming() =~= all.drop_first());
            self.handed_on = Some(hand_over(registered, event, context));
            Some(())
        } else {
            None
        }
    }

    /// Gets mutable references to the resources of the types listed in `S`, in that order.
    pub fn res_mut<'b, S, I>(&'b mut self) -> (r: <S as ToMut<'b>>::Output) where
        R: ToMut<'b>,
        S: ToMut<'b>,
        <R as ToMut<'b>>::Output: IntoShape<<S as ToMut<'b>>::Output, I>,
        ensures
            picks_resources::<'b, R, S, I>(old(self).resources_now(), r),
     {
        self.resources.to_mut().into_shape().0
    }
}

/// Contexts from which the resources of the types listed in `S` can be borrowed.
pub trait ContextWith<'b, S, I> where S: ToMut<'b> {
    /// `picked` are mutable references to resources of this context, of the types listed in
    /// `S`, in that order.
    spec fn lends(&self, picked: S::Output) -> bool;

    /// Gets mutable references to the resources of the types listed in `S`, in that order.
    fn resources_mut(&'b mut self) -> (r: S::Output)
        ensures
            old(self).lends(r),
    ;
}

impl<'a, 'b, S, E, R, I> ContextWith<'b, S, I> for Context<'a, E, R> where
    S: ToMut<'b>,
    R: ToMut<'b>,
    <R as ToMut<'b>>::Output: IntoShape<<S as ToMut<'b>>::Output, I>,
 {
    open spec fn lends(&self, picked: <S as ToMut<'b>>::Output) -> bool {
        picks_resources::<'b, R, S, I>(self.resources_now(), picked)
    }

    fn resources_mut(&'b mut self) -> (r: <S as ToMut<'b>>::Output) {
        self.resources.to_mut().into_shape().0
    }
}

impl<'a, E, R> Propagate<E, R> for Context<'a, E, R> {
    closed spec fn can_propagate(&self) -> bool {
        self.is_fresh()
    }

    closed spec fn has_next(&self) -> bool {
        self.upcoming().len() > 0
    }

    closed spec fn passes_to(&self, event: E) -> bool {
        self.upcoming()[0].listener.hears(event)
    }

    fn next(&mut self, event: E) -> (r: Option<()>) {
        Context::next(self, event)
    }

    closed spec fn shared(&self) -> R {
        self.resources_now()
    }

    fn resources(&mut self) -> (r: &mut R) {
        &mut *self.resources
    }
}

/// The listeners of one event type, called front to back.
#[verifier::reject_recursive_types(E)]
#[verifier::reject_recursive_types(R)]
pub struct Listeners<E, R> {
    listeners: Vec<Registered<E, R>>,
    dispatched: Option<HandOver<E, R>>,
}

impl<E, R> View for Listeners<E, R> {
    /// The listeners, in the order they are called.
    type V = Seq<Registered<E, R>>;

    closed spec fn view(&self) -> Self::V {
        self.listeners@
    }
}

impl<E, R> Listeners<E, R> {
    pub fn new() -> (r: Self)
        ensures
            r@.len() == 0,
    {
        Listeners { listeners: Vec::new(), dispatched: None }
    }

    /// The listeners that the context handed to the first listener carried, in the latest
    /// dispatch that reached a listener.
    pub closed spec fn first_carried(&self) -> Seq<Registered<E, R>> {
        match self.dispatched {
            Some(handover) => handover.carried(),
            None => Seq::empty(),
        }
    }

    /// Appends `listener`; it is called after all listeners registered before it.
    pub fn listener(&mut self, listener: Box<dyn Listener<E, R>>)
        ensures
            final(self)@ == old(self)@.push(Registered { listener }),
    {
        self.listeners.push(Registered { listener });
    }

    /// These listeners with `listener` appended.
    pub fn with_listener(self, listener: Box<dyn Listener<E, R>>) -> (r: Self)
        ensures
            r@ == self@.push(Registered { listener }),
    {
        let mut listeners = self;
        listeners.listeners.push(Registered { listener });
        listeners
    }

    /// Passes `event` to the first listener, with the resources and a context that carries the
    /// listeners after it; the listeners are called front to back, each after the one before it
    /// passes the event on. What the first listener's context carried is kept (see
    /// [Listeners::first_carried]).
    pub fn dispatch(&mut self, event: E, resources: &mut R)
        ensures
            old(self)@.len() > 0 ==> old(self)@[0].listener.hears(event),
            old(self)@.len() > 0 ==> final(self).first_carried() == old(self)@.drop_first(),
            final(self)@.len() == old(self)@.len(),
    {
        let listeners = borrow_each(self.listeners.as_mut_slice());
        let mut context = Context::new(resources, listeners);
        assert(context.upcoming() =~= old(self)@);
        context.next(event);
        self.dispatched = context.handed_on.take();
    }
}

/// The event that an event bus was asked to dispatch has a type it cannot handle.
pub struct InvalidEvent;

impl InvalidEvent {
    pub fn message(&self) -> (r: String)
        ensures
            r@ == "this event cannot be handled by this EventBus"@,
    {
        String::from_str("this event cannot be handled by this EventBus")
    }
}

} // verus!
