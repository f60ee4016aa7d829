//! The data model of the renderer: geometry, materials, shader and pipeline definitions.
use vstd::prelude::*;

pub mod bindgroup;
pub mod geometry;
pub mod material;
pub mod maybe;
pub mod pipeline;
pub mod render_api;
pub mod shader;
pub mod vecbuf;

pub use maybe::{MaybeOwned, MaybeRef};
pub use render_api::Model;




verus! {

/// A scene to render; it holds nothing yet.
pub struct Scene {}

} // verus!
