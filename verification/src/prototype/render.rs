use vstd::prelude::*;

verus! {

/// The source of a vertex shader.
pub struct VertexShader<'a> {
    pub source: &'a str,
}

} // verus!
