use vstd::prelude::*;

use crate::render::geometry::Geometry;
use crate::utils::Handle;

verus! {

/// Geometry to draw, with the input that the material's shader gets for it.
pub struct Model<I> {
    pub geometry: Handle<Geometry>,
    pub input: I,
}

impl<I> Model<I> {
    pub fn new(geometry: Handle<Geometry>, input: I) -> (r: Self)
        ensures
            r.geometry == geometry,
            r.input == input,
    {
        Model { geometry, input }
    }
}

} // verus!
