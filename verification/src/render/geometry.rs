//! Vertex data and its format.
use vstd::prelude::*;

use crate::render::material::{attribute_size, AttributeDefinition, AttributeSemantics, AttributeType};

verus! {

/// Indices into a list of vertices, of either width.
pub enum Indices {
    Uint16(Vec<u16>),
    Uint32(Vec<u32>),
}

impl From<Vec<u32>> for Indices {
    fn from(value: Vec<u32>) -> (r: Self) {
        Indices::Uint32(value)
    }
}

impl vstd::std_specs::convert::FromSpecImpl<Vec<u32>> for Indices {
    open spec fn obeys_from_spec() -> bool {
        true
    }

    open spec fn from_spec(value: Vec<u32>) -> Indices {
        Indices::Uint32(value)
    }
}

impl From<Vec<u16>> for Indices {
    fn from(value: Vec<u16>) -> (r: Self) {
        Indices::Uint16(value)
    }
}

impl vstd::std_specs::convert::FromSpecImpl<Vec<u16>> for Indices {
    open spec fn obeys_from_spec() -> bool {
        true
    }

    open spec fn from_spec(value: Vec<u16>) -> Indices {
        Indices::Uint16(value)
    }
}

/// Vertex data with its format and the indices that draw it.
pub struct Geometry {
    /// Raw vertex data. The application is responsible for making sure the geometry is formatted
    /// as the material expects it.
    pub(crate) data: Vec<u8>,
    pub(crate) format: GeometryFormat,
    pub(crate) indices: Vec<u16>,
}

impl Geometry {
    /// The raw vertex data.
    pub closed spec fn vertex_bytes(self) -> Seq<u8> {
        self.data@
    }

    /// The attributes of each vertex.
    pub closed spec fn vertex_format(self) -> Seq<AttributeDefinition> {
        self.format@
    }

    /// The indices of the vertices to draw, in order.
    pub closed spec fn index_list(self) -> Seq<u16> {
        self.indices@
    }

    pub fn new(vertex_data: Vec<u8>, vertex_format: GeometryFormat, indices: Vec<u16>) -> (r: Self)
        ensures
            r.vertex_bytes() == vertex_data@,
            r.vertex_format() == vertex_format@,
            r.index_list() == indices@,
    {
        Geometry { data: vertex_data, format: vertex_format, indices }
    }

    pub fn data(&self) -> (r: &Vec<u8>)
        ensures
            r@ == self.vertex_bytes(),
    {
        &self.data
    }

    pub fn format(&self) -> (r: &GeometryFormat)
        ensures
            r@ == self.vertex_format(),
    {
        &self.format
    }

    pub fn indices(&self) -> (r: &Vec<u16>)
        ensures
            r@ == self.index_list(),
    {
        &self.indices
    }
}

/// The attributes of every vertex, in order.
#[derive(Clone)]
pub struct GeometryFormat(Vec<AttributeDefinition>);

impl View for GeometryFormat {
    type V = Seq<AttributeDefinition>;

    closed spec fn view(&self) -> Seq<AttributeDefinition> {
        self.0@
    }
}

impl From<Vec<AttributeDefinition>> for GeometryFormat {
    fn from(value: Vec<AttributeDefinition>) -> (r: Self)
        ensures
            r@ == value@,
    {
        GeometryFormat(value)
    }
}

impl vstd::std_specs::convert::FromSpecImpl<Vec<AttributeDefinition>> for GeometryFormat {
    open spec fn obeys_from_spec() -> bool {
        true
    }

    closed spec fn from_spec(value: Vec<AttributeDefinition>) -> GeometryFormat {
        GeometryFormat(value)
    }
}

/// The sum of the sizes of `attributes`.
pub open spec fn attributes_size(attributes: Seq<AttributeDefinition>) -> int
    decreases attributes.len(),
{
    if attributes.len() == 0 {
        0
    } else {
        attributes_size(attributes.drop_last()) + attribute_size(attributes.last().typ)
    }
}

/// Every prefix of `attributes` has a size of at most `bound`, and so does every attribute's
/// count in `u32` bytes.
pub open spec fn sizes_within(attributes: Seq<AttributeDefinition>, bound: int) -> bool {
    &&& forall|i: int| 0 <= i < attributes.len() ==> attribute_size(#[trigger] attributes[i].typ) <= u32::MAX
    &&& forall|n: int| 0 <= n <= attributes.len() ==> #[trigger] attributes_size(attributes.subrange(0, n)) <= bound
}

impl GeometryFormat {
    pub fn empty() -> (r: Self)
        ensures
            r@ == Seq::<AttributeDefinition>::empty(),
    {
        GeometryFormat(Vec::new())
    }

    pub fn attributes(&self) -> (r: &Vec<AttributeDefinition>)
        ensures
            r@ == self@,
    {
        &self.0
    }

    /// The size in bytes of one vertex: the sum of the sizes of its attributes.
    pub fn vertex_size(&self) -> (r: usize)
        requires
            sizes_within(self@, usize::MAX as int),
        ensures
            r == attributes_size(self@),
    {
        let attributes = self.attributes();
        let mut total: usize = 0;
        let mut index: usize = 0;
        while index < attributes.len()
            invariant
                attributes@ == self@,
                sizes_within(self@, usize::MAX as int),
                0 <= index <= attributes@.len(),
                total == attributes_size(attributes@.subrange(0, index as int)),
            decreases attributes@.len() - index,
        {
            assert(attributes@.subrange(0, index + 1).drop_last() =~= attributes@.subrange(0, index as int));
            assert(attributes_size(attributes@.subrange(0, index + 1)) <= usize::MAX);
            total = total + attributes[index].typ.size();
            index += 1;
        }
        assert(attributes@.subrange(0, attributes@.len() as int) =~= attributes@);
        total
    }
}


/// The name under which the shader lists the location of `attribute`: its own name, or else the
/// default name of its meaning.
pub open spec fn location_name(attribute: AttributeDefinition) -> Seq<char> {
    match attribute.name {
        Some(name) => name@,
        None => match attribute.semantics {
            AttributeSemantics::Position { .. } => "position"@,
            AttributeSemantics::Color => "color"@,
        },
    }
}

/// Where one attribute lies in a vertex, and the name of its shader location.
pub struct AttributeLayout<'a> {
    pub typ: AttributeType,
    pub offset: u64,
    pub location_name: &'a str,
}

/// The layout of a vertex made of `attributes`, in order: each attribute's type, its byte
/// offset (the sizes of the attributes before it), and the name under which the shader lists
/// its location.
pub fn vertex_attribute_layout<'a>(attributes: &'a Vec<AttributeDefinition>) -> (r: Vec<
    AttributeLayout<'a>,
>)
    requires
        sizes_within(attributes@, u64::MAX as int),
    ensures
        r@.len() == attributes@.len(),
        forall|k: int|
            0 <= k < r@.len() ==> {
                &&& (#[trigger] r@[k]).typ == attributes@[k].typ
                &&& r@[k].offset == attributes_size(attributes@.subrange(0, k))
                &&& r@[k].location_name@ == location_name(attributes@[k])
            },
{
    let mut layout: Vec<AttributeLayout<'a>> = Vec::new();
    let mut offset: u64 = 0;
    let mut index: usize = 0;
    while index < attributes.len()
        invariant
            sizes_within(attributes@, u64::MAX as int),
            0 <= index <= attributes@.len(),
            offset == attributes_size(attributes@.subrange(0, index as int)),
            layout@.len() == index,
            forall|k: int|
                0 <= k < index ==> {
                    &&& (#[trigger] layout@[k]).typ == attributes@[k].typ
                    &&& layout@[k].offset == attributes_size(attributes@.subrange(0, k))
                    &&& layout@[k].location_name@ == location_name(attributes@[k])
                },
        decreases attributes@.len() - index,
    {
        let attribute = &attributes[index];
        let name: &'a str = match &attribute.name {
            Some(name) => name.as_str(),
            None => attribute.semantics.default_name(),
        };
        assert(attributes@.subrange(0, index + 1).drop_last() =~= attributes@.subrange(0, index as int));
        assert(attributes_size(attributes@.subrange(0, index + 1)) <= u64::MAX);
        assert(attribute_size(attributes@[index as int].typ) <= u32::MAX);
        layout.push(AttributeLayout { typ: attribute.typ, offset, location_name: name });
        offset = offset + attribute.typ.size() as u64;
        index += 1;
    }
    layout
}

} // verus!
