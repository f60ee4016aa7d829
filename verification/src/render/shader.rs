use std::collections::HashMap;
use vstd::prelude::*;

verus! {

/// The modules, stages, attribute locations and uniforms of a shader.
pub struct ShaderDefinition {
    pub shader_modules: Vec<String>,
    pub vertex_shader: ShaderStage,
    pub fragment_shader: ShaderStage,
    pub attribute_locations: HashMap<String, u32>,
    pub uniforms: Vec<String>,
}

/// A stage of a shader: an entry point in one of its modules.
pub struct ShaderStage {
    pub module: usize,
    pub entrypoint: String,
}

} // verus!
