//! The form in which pipeline definitions are written.
use vstd::prelude::*;

use crate::render::material::{parse_vertex_format, spec_parse_vertex_format, InvalidVertexFormatString as FormatError};

verus! {

#[derive(Debug)]
pub struct PipelineDefinition {
    pub shader_modules: Vec<ShaderModuleDefinition>,
    pub vertex_shader: VertexShaderDefinition,
    pub fragment_shader: Option<FragmentShaderDefinition>,
}

#[derive(Debug)]
pub struct ShaderModuleDefinition {
    pub name: String,
    pub path: String,
}

#[derive(Debug)]
pub enum VertexShaderStepMode {
    Vertex,
    Instance,
}

impl Default for VertexShaderStepMode {
    fn default() -> (r: Self)
        ensures
            r == VertexShaderStepMode::Vertex,
    {
        VertexShaderStepMode::Vertex
    }
}

#[derive(Debug)]
pub struct VertexShaderDefinition {
    pub shader_module: String,
    pub entrypoint: String,
    pub buffers: Vec<VertexBufferDefinition>,
}

#[derive(Debug)]
pub struct VertexBufferDefinition {
    pub step_mode: VertexShaderStepMode,
    pub attributes: Vec<VertexBufferAttributeDefinition>,
}

/// The sum of the sizes of the formats of `attributes`.
pub open spec fn formats_size(attributes: Seq<VertexBufferAttributeDefinition>) -> int
    decreases attributes.len(),
{
    if attributes.len() == 0 {
        0
    } else {
        formats_size(attributes.drop_last()) + attributes.last().format.spec_size()
    }
}

impl VertexBufferDefinition {
    /// The distance in bytes between consecutive vertices: the sum of the attribute sizes.
    pub fn stride(&self) -> (r: u64)
        requires
            forall|i: int|
                0 <= i < self.attributes@.len() ==> (#[trigger] self.attributes@[i]).format.spec_size()
                    <= u32::MAX,
            forall|n: int|
                0 <= n <= self.attributes@.len() ==> #[trigger] formats_size(
                    self.attributes@.subrange(0, n),
                ) <= u64::MAX,
        ensures
            r == formats_size(self.attributes@),
    {
        let mut total: u64 = 0;
        let mut index: usize = 0;
        while index < self.attributes.len()
            invariant
                0 <= index <= self.attributes@.len(),
                total == formats_size(self.attributes@.subrange(0, index as int)),
                forall|i: int|
                    0 <= i < self.attributes@.len() ==> (#[trigger] self.attributes@[i]).format.spec_size()
                        <= u32::MAX,
                forall|n: int|
                    0 <= n <= self.attributes@.len() ==> #[trigger] formats_size(
                        self.attributes@.subrange(0, n),
                    ) <= u64::MAX,
            decreases self.attributes@.len() - index,
        {
            assert(self.attributes@.subrange(0, index + 1).drop_last() =~= self.attributes@.subrange(
                0,
                index as int,
            ));
            assert(formats_size(self.attributes@.subrange(0, index + 1)) <= u64::MAX);
            total = total + self.attributes[index].format.size();
            index += 1;
        }
        assert(self.attributes@.subrange(0, self.attributes@.len() as int) =~= self.attributes@);
        total
    }
}

#[derive(Debug)]
pub struct VertexBufferAttributeDefinition {
    pub format: VertexFormatDefinition,
}

/// The format of a vertex attribute: a vector of 32- or 64-bit floats.
#[derive(Debug)]
pub enum VertexFormatDefinition {
    Float32(u32),
    Float64(u32),
}

impl VertexFormatDefinition {
    pub open spec fn spec_size(self) -> int {
        match self {
            VertexFormatDefinition::Float32(count) => 4 * count,
            VertexFormatDefinition::Float64(count) => 8 * count,
        }
    }

    /// The size in bytes of an attribute of this format.
    pub fn size(&self) -> (r: u64)
        requires
            self.spec_size() <= u32::MAX,
        ensures
            r == self.spec_size(),
    {
        (match self {
            VertexFormatDefinition::Float32(count) => 4 * count,
            VertexFormatDefinition::Float64(count) => 8 * count,
        }) as u64
    }

    /// The format that a format name such as `f32x3` names.
    pub open spec fn spec_from_format(text: Seq<char>) -> Result<
        VertexFormatDefinition,
        InvalidVertexFormatString,
    > {
        match spec_parse_vertex_format(text) {
            Ok((is_double, count)) => Ok(
                if is_double {
                    VertexFormatDefinition::Float64(count)
                } else {
                    VertexFormatDefinition::Float32(count)
                },
            ),
            Err(error) => Err(InvalidVertexFormatString::spec_from_error(error)),
        }
    }

    /// The format that a format name such as `f32x3` names.
    pub fn from_format(text: &str) -> (r: Result<
        VertexFormatDefinition,
        InvalidVertexFormatString,
    >)
        ensures
            r == Self::spec_from_format(text@),
    {
        match parse_vertex_format(text) {
            Ok((is_double, count)) => Ok(
                if is_double {
                    VertexFormatDefinition::Float64(count)
                } else {
                    VertexFormatDefinition::Float32(count)
                },
            ),
            Err(error) => Err(InvalidVertexFormatString::from_error(error)),
        }
    }
}

impl std::str::FromStr for VertexFormatDefinition {
    type Err = InvalidVertexFormatString;

    fn from_str(s: &str) -> (r: Result<Self, Self::Err>)
        ensures
            r == Self::spec_from_format(s@),
    {
        VertexFormatDefinition::from_format(s)
    }
}

/// Why a string does not name a vertex format.
#[derive(Debug)]
pub enum InvalidVertexFormatString {
    InvalidCount,
    UnknownFormat,
    OutOfRange,
}

impl InvalidVertexFormatString {
    pub open spec fn spec_from_error(error: FormatError) -> Self {
        match error {
            FormatError::InvalidCount => InvalidVertexFormatString::InvalidCount,
            FormatError::UnknownFormat => InvalidVertexFormatString::UnknownFormat,
            FormatError::OutOfRange => InvalidVertexFormatString::OutOfRange,
        }
    }

    /// How the error displays.
    pub fn message(&self) -> (r: &'static str)
        ensures
            r@ == match self {
                InvalidVertexFormatString::InvalidCount => "invalid element count"@,
                InvalidVertexFormatString::UnknownFormat => "unknown format"@,
                InvalidVertexFormatString::OutOfRange => "element count out of range"@,
            },
    {
        match self {
            InvalidVertexFormatString::InvalidCount => "invalid element count",
            InvalidVertexFormatString::UnknownFormat => "unknown format",
            InvalidVertexFormatString::OutOfRange => "element count out of range",
        }
    }

    fn from_error(error: FormatError) -> (r: Self)
        ensures
            r == Self::spec_from_error(error),
    {
        match error {
            FormatError::InvalidCount => InvalidVertexFormatString::InvalidCount,
            FormatError::UnknownFormat => InvalidVertexFormatString::UnknownFormat,
            FormatError::OutOfRange => InvalidVertexFormatString::OutOfRange,
        }
    }
}

#[derive(Debug)]
pub struct FragmentShaderDefinition {
    pub shader_module: String,
    pub entrypoint: String,
    pub targets: Vec<FragmentShaderTargetDefinition>,
}

#[derive(Debug)]
pub struct FragmentShaderTargetDefinition {
    pub format: TargetFormat,
}

#[derive(Debug)]
pub enum TargetFormat {
    BGRA8UnormSRGB,
    RGBA8UnormSRGB,
}

} // verus!
