//! Bind group layouts as assets describe them.
use vstd::prelude::*;

verus! {

/// The entries of a bind group layout.
#[derive(Debug)]
pub struct BindGroupLayoutAsset {
    pub entries: Vec<BindGroupEntryDefinition>,
}

/// One entry of a bind group layout.
#[derive(Debug)]
pub struct BindGroupEntryDefinition {
    pub visibility: Visibility,
    pub ty: EntryType,
}

#[derive(Debug)]
pub enum EntryType {
    Buffer { ty: BufferType },
}

#[derive(Debug)]
pub enum BufferType {
    Uniform,
}

/// The shader stages that see an entry.
#[derive(Debug)]
pub enum Visibility {
    Vertex,
    Fragment,
    VertexAndFragment,
    All,
}

/// The pipeline that loads [BindGroupLayoutAsset]s.
pub struct BindGroupAssetPipeline;

} // verus!
