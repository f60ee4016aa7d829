use krill::events::{Delegate, Event, EventHandler, EventHandlers};

#[derive(Debug, PartialEq)]
struct EventA(u32);

impl Event for EventA {
    type Output = f32;
}

struct ToFloat;

impl EventHandler<EventA, ()> for ToFloat {
    fn handle(&mut self, msg: EventA, _context: Box<dyn Delegate<EventA, ()> + '_>) -> f32 {
        msg.0 as f32
    }
}

struct Doubling;

impl EventHandler<EventA, ()> for Doubling {
    fn handle(&mut self, msg: EventA, mut context: Box<dyn Delegate<EventA, ()> + '_>) -> f32 {
        context.delegate(msg).unwrap() * 2f32
    }
}

struct AddTwo;

impl EventHandler<EventA, ()> for AddTwo {
    fn handle(&mut self, msg: EventA, mut context: Box<dyn Delegate<EventA, ()> + '_>) -> f32 {
        context.delegate(msg).unwrap() + 2f32
    }
}

struct LastFive;

impl EventHandler<EventA, ()> for LastFive {
    fn handle(&mut self, msg: EventA, mut context: Box<dyn Delegate<EventA, ()> + '_>) -> f32 {
        assert!(context.delegate(msg).is_none());
        5f32
    }
}

#[test]
fn single_handler() {
    let mut handlers: EventHandlers<EventA, ()> = EventHandlers::new();

    handlers.append(Box::new(ToFloat));

    assert_eq!(Ok(13f32), handlers.handle_event(EventA(13u32), &mut ()));
    assert_eq!(Ok(5f32), handlers.handle_event(EventA(5u32), &mut ()));
}

#[test]
fn basic_delegation() {
    let mut handlers: EventHandlers<EventA, ()> = EventHandlers::new();

    handlers.append(Box::new(Doubling));
    handlers.append(Box::new(ToFloat));

    assert_eq!(Ok(26f32), handlers.handle_event(EventA(13u32), &mut ()));
    assert_eq!(Ok(10f32), handlers.handle_event(EventA(5u32), &mut ()));
}

#[test]
fn delegate_returns_none_on_last() {
    let mut handlers: EventHandlers<EventA, ()> = EventHandlers::new();

    handlers.append(Box::new(AddTwo));
    handlers.append(Box::new(LastFive));

    assert_eq!(Ok(7f32), handlers.handle_event(EventA(0u32), &mut ()))
}

#[test]
fn err_on_empty() {
    let mut handlers: EventHandlers<EventA, ()> = EventHandlers::new();

    assert_eq!(Err(EventA(10)), handlers.handle_event(EventA(10), &mut ()));
}

#[test]
fn prepend_runs_first() {
    let mut handlers: EventHandlers<EventA, ()> = EventHandlers::new();
    handlers.append(Box::new(ToFloat));
    handlers.prepend(Box::new(Doubling));
    assert_eq!(Ok(8f32), handlers.handle_event(EventA(4u32), &mut ()));
}

struct Counting;

impl EventHandler<EventA, u32> for Counting {
    fn handle(&mut self, msg: EventA, mut context: Box<dyn Delegate<EventA, u32> + '_>) -> f32 {
        *context.state() += msg.0;
        *context.state() as f32
    }
}

#[test]
fn handlers_share_state() {
    let mut handlers: EventHandlers<EventA, u32> = EventHandlers::new();
    handlers.append(Box::new(Counting));
    let mut total = 1u32;
    assert_eq!(Ok(4f32), handlers.handle_event(EventA(3), &mut total));
    assert_eq!(Ok(6f32), handlers.handle_event(EventA(2), &mut total));
    assert_eq!(total, 6);
}
