//! The first design of the engine: a world of entity slots, a queue of input events and a
//! vertex shader description.
pub mod ecs;
pub mod events;
pub mod render;
