use vstd::prelude::*;

verus! {

/// A first-in, first-out queue of events.
pub struct EventBus<E> {
    events: Vec<E>,
}

impl<E> View for EventBus<E> {
    /// The queued events, oldest first.
    type V = Seq<E>;

    closed spec fn view(&self) -> Seq<E> {
        self.events@
    }
}

impl<E> EventBus<E> {
    /// Takes out every queued event, oldest first, leaving the queue empty.
    pub fn drain(&mut self) -> (r: Vec<E>)
        ensures
            r@ == old(self)@,
            final(self)@ == Seq::<E>::empty(),
    {
        let mut drained = Vec::new();
        std::mem::swap(&mut drained, &mut self.events);
        drained
    }

    /// Queues `event` after those already queued.
    pub fn push(&mut self, event: E)
        ensures
            final(self)@ == old(self)@.push(event),
    {
        self.events.push(event);
    }
}

impl<E> Default for EventBus<E> {
    fn default() -> (r: Self)
        ensures
            r@ == Seq::<E>::empty(),
    {
        EventBus { events: Vec::new() }
    }
}

/// Everything that happens to the game.
pub enum Event {
    InputEvent(InputEvent),
}

/// Input from the player.
pub enum InputEvent {
    Keyboard { key: u32 },
}

/// The queue that results from pushing each of `events`, in order, onto a bus
/// whose queue is `queue` (each step is the effect that `EventBus::push` states).
pub open spec fn push_each<E>(queue: Seq<E>, events: Seq<E>) -> Seq<E>
    decreases events.len(),
{
    if events.len() == 0 {
        queue
    } else {
        push_each(queue.push(events[0]), events.drop_first())
    }
}

/// Pushing a run of events and then draining gives back what was queued before,
/// followed by exactly those events in the order they were pushed.
pub proof fn lemma_drain_after_pushes_is_fifo<E>(queue: Seq<E>, events: Seq<E>)
    ensures
        push_each(queue, events) == queue + events,
    decreases events.len(),
{
    if events.len() == 0 {
        assert(queue + events =~= queue);
    } else {
        lemma_drain_after_pushes_is_fifo(queue.push(events[0]), events.drop_first());
        assert(queue.push(events[0]) + events.drop_first() =~= queue + events);
    }
}

} // verus!
