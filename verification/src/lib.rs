//! The Krill game engine: an entity-component store, event dispatch, asset paths and the
//! data model of the renderer.
pub mod assets;
pub mod ecs;
pub mod render;
pub mod engine;
pub mod events;
pub mod meteors;
pub mod prototype;
pub mod utils;
