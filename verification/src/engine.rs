//! The engine's process model: listeners for events, resources and the process builder.
pub mod asset_resource;
pub mod events;
pub mod platform;
pub mod process;
pub mod resources;
pub mod surface;
