//! Chains of event handlers: each handler may answer an event itself or pass it on to the next.
mod event;
mod handlers;

pub use event::Event;
pub use handlers::{Context, Delegate, EventHandler, EventHandlers};
