//! Vertex attributes and uniforms of materials, the names of vertex formats, and the batching of
//! models into one vertex and one index list.
use vstd::prelude::*;

use crate::render::geometry::{attributes_size, sizes_within, Geometry};
use crate::render::render_api::Model;
use crate::utils::CompactList;

verus! {

/// What a material expects of the geometry it renders.
pub struct MaterialDefinition {
    pub attributes: Vec<AttributeDefinition>,
    pub uniforms: Vec<String>,
}

/// One attribute of a vertex.
#[derive(Clone, Hash, PartialOrd, PartialEq)]
pub struct AttributeDefinition {
    pub typ: AttributeType,
    pub semantics: AttributeSemantics,
    pub name: Option<String>,
}

/// The type of an attribute: a vector of 32- or 64-bit floats with the given number of elements.
#[derive(Debug, Copy, Clone, Hash, PartialOrd, PartialEq)]
pub enum AttributeType {
    Float32(u32),
    Float64(u32),
}

/// The size in bytes of an attribute of type `typ`.
pub open spec fn attribute_size(typ: AttributeType) -> int {
    match typ {
        AttributeType::Float32(count) => 4 * count,
        AttributeType::Float64(count) => 8 * count,
    }
}

/// Why a string does not name a vertex format.
#[derive(Debug)]
pub enum InvalidVertexFormatString {
    InvalidCount,
    UnknownFormat,
    OutOfRange,
}

impl InvalidVertexFormatString {
    /// How the error displays.
    pub fn message(&self) -> (r: &'static str)
        ensures
            r@ == match self {
                InvalidVertexFormatString::InvalidCount => "invalid element count"@,
                InvalidVertexFormatString::UnknownFormat => "unknown format"@,
                InvalidVertexFormatString::OutOfRange => "element count out of range"@,
            },
    {
        match self {
            InvalidVertexFormatString::InvalidCount => "invalid element count",
            InvalidVertexFormatString::UnknownFormat => "unknown format",
            InvalidVertexFormatString::OutOfRange => "element count out of range",
        }
    }
}


pub open spec fn is_ascii_digit(c: char) -> bool {
    '0' <= c <= '9'
}

/// The number that the decimal digits `digits` write.
pub open spec fn digits_value(digits: Seq<char>) -> int
    decreases digits.len(),
{
    if digits.len() == 0 {
        0
    } else {
        10 * digits_value(digits.drop_last()) + (digits.last() as int - '0' as int)
    }
}

/// `text` without a leading `+`.
pub open spec fn unsigned_digits(text: Seq<char>) -> Seq<char> {
    if text.len() > 0 && text[0] == '+' {
        text.drop_first()
    } else {
        text
    }
}

/// The `u32` that `text` writes in the form `u32::from_str` accepts: an optional `+` followed by
/// one or more decimal digits, whose value fits in a `u32`.
pub open spec fn u32_text_value(text: Seq<char>) -> Option<u32> {
    let digits = unsigned_digits(text);
    if digits.len() > 0 && (forall|i: int| 0 <= i < digits.len() ==> is_ascii_digit(#[trigger] digits[i]))
        && digits_value(digits) <= u32::MAX {
        Some(digits_value(digits) as u32)
    } else {
        None
    }
}

/// The value of decimal digits is never negative.
proof fn lemma_digits_value_nonnegative(digits: Seq<char>)
    requires
        forall|i: int| 0 <= i < digits.len() ==> is_ascii_digit(#[trigger] digits[i]),
    ensures
        digits_value(digits) >= 0,
    decreases digits.len(),
{
    if digits.len() > 0 {
        lemma_digits_value_nonnegative(digits.drop_last());
    }
}

/// Reads `text` as `u32::from_str` does: an optional `+` followed by one or more decimal digits,
/// whose value must fit in a `u32`; `None` for any other text.
fn parse_u32(text: &str) -> (r: Option<u32>)
    ensures
        r == u32_text_value(text@),
{
    let len = text.unicode_len();
    let start: usize = if len > 0 && text.get_char(0) == '+' {
        1
    } else {
        0
    };
    let ghost digits = unsigned_digits(text@);
    assert(digits =~= text@.subrange(start as int, len as int));
    if start == len {
        return None;
    }
    let limit: u64 = 0xffff_ffff;
    let mut value: u64 = 0;
    let mut index: usize = start;
    while index < len
        invariant
            len == text@.len(),
            start <= index <= len,
            digits == text@.subrange(start as int, len as int),
            digits == unsigned_digits(text@),
            limit == u32::MAX,
            forall|k: int| start <= k < index ==> is_ascii_digit(#[trigger] text@[k]),
            value == (if digits_value(text@.subrange(start as int, index as int)) > u32::MAX {
                u32::MAX + 1
            } else {
                digits_value(text@.subrange(start as int, index as int))
            }),
        decreases len - index,
    {
        let c = text.get_char(index);
        if !('0' <= c && c <= '9') {
            assert(digits[index - start] == c);
            assert(!is_ascii_digit(digits[index - start]));
            return None;
        }
        let ghost prefix = text@.subrange(start as int, index as int);
        let ghost next = text@.subrange(start as int, index + 1);
        assert(next.drop_last() =~= prefix);
        assert(next.last() == c);
        proof {
            assert forall|k: int| 0 <= k < prefix.len() implies is_ascii_digit(#[trigger] prefix[k]) by {
                assert(prefix[k] == text@[start + k]);
            }
            lemma_digits_value_nonnegative(prefix);
        }
        let digit = (c as u32 - '0' as u32) as u64;
        if value > limit {
            value = limit + 1;
        } else {
            value = value * 10 + digit;
            if value > limit {
                value = limit + 1;
            }
        }
        index += 1;
    }
    assert(text@.subrange(start as int, len as int) =~= digits);
    assert forall|k: int| 0 <= k < digits.len() implies is_ascii_digit(#[trigger] digits[k]) by {
        assert(digits[k] == text@[start + k]);
    }
    if value > limit {
        None
    } else {
        Some(value as u32)
    }
}

/// The position of the first `x` in `text`; the length of `text` when there is none.
pub open spec fn first_x(text: Seq<char>) -> int
    decreases text.len(),
{
    if text.len() == 0 {
        0
    } else if text[0] == 'x' {
        0
    } else {
        1 + first_x(text.drop_first())
    }
}

/// The vertex format that a string such as `f32x3` names, as whether its elements are 64-bit
/// and how many there are: the part before the first `x` names the element type (`f32` or
/// `f64`), the part after it the count (1 when there is no `x`), which must be 1 to 4. A count
/// that does not parse is reported first.
pub open spec fn spec_parse_vertex_format(text: Seq<char>) -> Result<(bool, u32), InvalidVertexFormatString> {
    let split = first_x(text);
    let head = text.subrange(0, split);
    let count = if split < text.len() {
        u32_text_value(text.subrange(split + 1, text.len() as int))
    } else {
        Some(1u32)
    };
    match count {
        None => Err(InvalidVertexFormatString::InvalidCount),
        Some(count) => if head != seq!['f', '3', '2'] && head != seq!['f', '6', '4'] {
            Err(InvalidVertexFormatString::UnknownFormat)
        } else if 1 <= count <= 4 {
            Ok((head == seq!['f', '6', '4'], count))
        } else {
            Err(InvalidVertexFormatString::OutOfRange)
        },
    }
}

/// The name of the element type: `f64` for 64-bit elements, `f32` otherwise.
pub open spec fn element_type_name(is_double: bool) -> Seq<char> {
    if is_double {
        seq!['f', '6', '4']
    } else {
        seq!['f', '3', '2']
    }
}

/// Every vertex format name is read as it is written: an element type name alone names one
/// element of that type; followed by `x` and a count, it names that many elements when the count
/// is 1 to 4, is out of range for any other number, and has an invalid count when the text after
/// the `x` is no number.
pub proof fn lemma_vertex_format_names(is_double: bool, count_text: Seq<char>)
    ensures
        spec_parse_vertex_format(element_type_name(is_double)) == Ok::<
            (bool, u32),
            InvalidVertexFormatString,
        >((is_double, 1u32)),
        ({
            let text = element_type_name(is_double) + seq!['x'] + count_text;
            match u32_text_value(count_text) {
                Some(count) => if 1 <= count <= 4 {
                    spec_parse_vertex_format(text) == Ok::<(bool, u32), InvalidVertexFormatString>(
                        (is_double, count),
                    )
                } else {
                    spec_parse_vertex_format(text) == Err::<(bool, u32), InvalidVertexFormatString>(
                        InvalidVertexFormatString::OutOfRange,
                    )
                },
                None => spec_parse_vertex_format(text) == Err::<(bool, u32), InvalidVertexFormatString>(
                    InvalidVertexFormatString::InvalidCount,
                ),
            }
        }),
{
    let name = element_type_name(is_double);
    let text = name + seq!['x'] + count_text;
    assert(name.len() == 3 && name[0] == 'f' && name[1] != 'x' && name[2] != 'x');
    assert(name.drop_first().drop_first() =~= seq![name[2]]);
    assert(name.drop_first().drop_first().drop_first() =~= Seq::<char>::empty());
    assert(first_x(name.drop_first().drop_first().drop_first()) == 0);
    assert(first_x(name.drop_first().drop_first()) == 1);
    assert(first_x(name.drop_first()) == 2);
    assert(first_x(name) == 3);
    assert(name.subrange(0, 3) =~= name);
    assert(text.drop_first().drop_first().drop_first() =~= seq!['x'] + count_text);
    assert(first_x(text.drop_first().drop_first().drop_first()) == 0);
    assert(first_x(text.drop_first().drop_first()) == 1);
    assert(first_x(text.drop_first()) == 2);
    assert(first_x(text) == 3);
    assert(text.subrange(0, 3) =~= name);
    assert(text.subrange(4, text.len() as int) =~= count_text);
}

/// `first_x` is the position of the first `x` of `text`, or its length when it holds none.
proof fn lemma_first_x_is_first(text: Seq<char>)
    ensures
        0 <= first_x(text) <= text.len(),
        first_x(text) < text.len() ==> text[first_x(text)] == 'x',
        forall|i: int| 0 <= i < first_x(text) ==> text[i] != 'x',
    decreases text.len(),
{
    if text.len() > 0 && text[0] != 'x' {
        let rest = text.drop_first();
        lemma_first_x_is_first(rest);
        assert forall|i: int| 0 <= i < first_x(text) implies text[i] != 'x' by {
            if i > 0 {
                assert(text[i] == rest[i - 1]);
            }
        }
    }
}

/// Only vertex format names parse: an element type name alone, with one element, or followed by
/// `x` and the count that was read.
pub proof fn lemma_parsed_text_is_format_name(text: Seq<char>)
    ensures
        spec_parse_vertex_format(text) matches Ok((is_double, count)) ==> (text
            == element_type_name(is_double) && count == 1) || exists|count_text: Seq<char>|
            text == element_type_name(is_double) + seq!['x'] + count_text && #[trigger] u32_text_value(
                count_text,
            ) == Some(count),
{
    if spec_parse_vertex_format(text) is Ok {
        lemma_first_x_is_first(text);
        let split = first_x(text);
        let head = text.subrange(0, split);
        let is_double = head == seq!['f', '6', '4'];
        assert(head =~= element_type_name(is_double));
        if split < text.len() {
            let count_text = text.subrange(split + 1, text.len() as int);
            assert(text =~= element_type_name(is_double) + seq!['x'] + count_text);
        } else {
            assert(text =~= head);
        }
    }
}

/// A vertex format that parses has 1 to 4 elements.
pub proof fn lemma_parsed_count_in_range(text: Seq<char>)
    ensures
        spec_parse_vertex_format(text) matches Ok((_, count)) ==> 1 <= count <= 4,
{
}

/// Parses a vertex format name such as `f32x3`; see [spec_parse_vertex_format].
pub(crate) fn parse_vertex_format(text: &str) -> (r: Result<(bool, u32), InvalidVertexFormatString>)
    ensures
        r == spec_parse_vertex_format(text@),
{
    let len = text.unicode_len();
    let mut split: usize = 0;
    assert(text@.subrange(0, len as int) =~= text@);
    while split < len && text.get_char(split) != 'x'
        invariant
            len == text@.len(),
            0 <= split <= len,
            first_x(text@) == split + first_x(text@.subrange(split as int, len as int)),
        decreases len - split,
    {
        assert(text@.subrange(split as int, len as int).drop_first() =~= text@.subrange(
            split + 1,
            len as int,
        ));
        split += 1;
    }
    proof {
        if split < len {
            assert(text@.subrange(split as int, len as int)[0] == 'x');
        }
        assert(first_x(text@) == split);
    }
    let count = if split < len {
        match parse_u32(text.substring_char(split + 1, len)) {
            Some(count) => count,
            None => return Err(InvalidVertexFormatString::InvalidCount),
        }
    } else {
        1
    };
    let head = String::from_str(text.substring_char(0, split));
    let f32_name = String::from_str("f32");
    let f64_name = String::from_str("f64");
    proof {
        reveal_strlit("f32");
        reveal_strlit("f64");
        assert("f32"@ =~= seq!['f', '3', '2']);
        assert("f64"@ =~= seq!['f', '6', '4']);
    }
    let is_double = if head == f32_name {
        false
    } else if head == f64_name {
        true
    } else {
        return Err(InvalidVertexFormatString::UnknownFormat);
    };
    if 1 <= count && count <= 4 {
        Ok((is_double, count))
    } else {
        Err(InvalidVertexFormatString::OutOfRange)
    }
}

impl AttributeType {
    /// The attribute type that a format name such as `f32x3` names.
    pub open spec fn spec_from_format(text: Seq<char>) -> Result<AttributeType, InvalidVertexFormatString> {
        match spec_parse_vertex_format(text) {
            Ok((is_double, count)) => Ok(
                if is_double {
                    AttributeType::Float64(count)
                } else {
                    AttributeType::Float32(count)
                },
            ),
            Err(error) => Err(error),
        }
    }

    /// Returns the size of this type in bytes.
    pub fn size(&self) -> (r: usize)
        requires
            attribute_size(*self) <= u32::MAX,
        ensures
            r == attribute_size(*self),
    {
        (match self {
            AttributeType::Float32(count) => 4 * count,
            AttributeType::Float64(count) => 8 * count,
        }) as usize
    }

    /// The attribute type that a format name such as `f32x3` names.
    pub fn from_format(text: &str) -> (r: Result<AttributeType, InvalidVertexFormatString>)
        ensures
            r == Self::spec_from_format(text@),
    {
        match parse_vertex_format(text) {
            Ok((is_double, count)) => Ok(
                if is_double {
                    AttributeType::Float64(count)
                } else {
                    AttributeType::Float32(count)
                },
            ),
            Err(error) => Err(error),
        }
    }
}

impl std::str::FromStr for AttributeType {
    type Err = InvalidVertexFormatString;

    fn from_str(s: &str) -> (r: Result<Self, Self::Err>)
        ensures
            r == Self::spec_from_format(s@),
    {
        AttributeType::from_format(s)
    }
}

/// What an attribute means.
#[derive(Clone, Hash, PartialOrd, PartialEq)]
pub enum AttributeSemantics {
    Position {
        /// Defines how each vertex position will be transformed when geometry is submitted as part
        /// of a batch operation.
        transform: PositionTransformation,
    },
    Color,
}

impl AttributeSemantics {
    /// The name that an attribute of this meaning has when none is given.
    pub fn default_name(&self) -> (r: &'static str)
        ensures
            r@ == match self {
                AttributeSemantics::Position { .. } => "position"@,
                AttributeSemantics::Color => "color"@,
            },
    {
        match self {
            AttributeSemantics::Position { .. } => "position",
            AttributeSemantics::Color => "color",
        }
    }
}

/// How vertex positions are transformed when geometry is submitted in a batch.
#[derive(Clone, Hash, PartialOrd, PartialEq)]
pub enum PositionTransformation {
    /// Vertex positions will not be transformed.
    Untransformed,
    /// Vertex positions will be transformed with the transformation matrix submitted alongside the
    /// geometry.
    Model,
}

impl Default for PositionTransformation {
    fn default() -> (r: Self)
        ensures
            r == PositionTransformation::Model,
    {
        PositionTransformation::Model
    }
}

pub struct UniformDefinition {
    pub entries: Vec<UniformEntryDefinition>,
}

pub struct UniformEntryDefinition {
    pub visibility: UniformVisibility,
    pub typ: UniformEntryTypeDefinition,
}

pub enum UniformEntryTypeDefinition {
    Buffer,
}

pub enum UniformVisibility {
    Vertex,
    Fragment,
}

pub enum UniformSemantics {
    Projection,
}

pub enum UniformObjectFieldFormat {
    F32x4x4,
}

/// The numbers of vertices and indices of a batch.
pub struct Counter {
    pub vertices: u16,
    pub indices: u16,
}


/// The number of whole vertices in `geometry`.
pub open spec fn vertex_count(geometry: Geometry) -> int {
    (geometry.vertex_bytes().len() as int) / attributes_size(geometry.vertex_format())
}

/// The number of vertices in the first `n` of `geometries`.
pub open spec fn vertices_before(geometries: Seq<Geometry>, n: int) -> int
    decreases n,
{
    if n <= 0 {
        0
    } else {
        vertices_before(geometries, n - 1) + vertex_count(geometries[n - 1])
    }
}

/// The vertex data of the first `n` of `geometries`, one after the other.
pub open spec fn staged_bytes(geometries: Seq<Geometry>, n: int) -> Seq<u8>
    decreases n,
{
    if n <= 0 {
        Seq::empty()
    } else {
        staged_bytes(geometries, n - 1) + geometries[n - 1].vertex_bytes()
    }
}

/// `indices`, each moved past `offset` vertices (the offset taken as a `u16`).
pub open spec fn offset_indices(indices: Seq<u16>, offset: int) -> Seq<u16> {
    indices.map_values(|index: u16| (index + (offset as u16)) as u16)
}

/// The indices of the first `n` of `geometries`, one after the other, each moved past the
/// vertices of the geometries before its own.
pub open spec fn staged_indices(geometries: Seq<Geometry>, n: int) -> Seq<u16>
    decreases n,
{
    if n <= 0 {
        Seq::empty()
    } else {
        staged_indices(geometries, n - 1) + offset_indices(
            geometries[n - 1].index_list(),
            vertices_before(geometries, n - 1),
        )
    }
}

/// The number of indices of the first `n` of `geometries`.
pub open spec fn indices_before(geometries: Seq<Geometry>, n: int) -> int
    decreases n,
{
    if n <= 0 {
        0
    } else {
        indices_before(geometries, n - 1) + geometries[n - 1].index_list().len()
    }
}

/// The staged indices hold, for each geometry `k` in turn, its own indices each moved past the
/// vertices of the geometries before it (not past the indices before it): index `j` of geometry
/// `k` stands at position `indices_before(geometries, k) + j`.
pub proof fn lemma_staged_index_moves_past_vertices(geometries: Seq<Geometry>, n: int)
    requires
        0 <= n <= geometries.len(),
    ensures
        staged_indices(geometries, n).len() == indices_before(geometries, n),
        forall|k: int, j: int|
            0 <= k < n && 0 <= j < geometries[k].index_list().len() ==> #[trigger] staged_indices(
                geometries,
                n,
            )[indices_before(geometries, k) + j] == (geometries[k].index_list()[j] + (
            vertices_before(geometries, k) as u16)) as u16,
    decreases n,
{
    if n > 0 {
        lemma_staged_index_moves_past_vertices(geometries, n - 1);
        let before = staged_indices(geometries, n - 1);
        let own = offset_indices(
            geometries[n - 1].index_list(),
            vertices_before(geometries, n - 1),
        );
        assert(staged_indices(geometries, n) == before + own);
        assert forall|k: int, j: int|
            0 <= k < n && 0 <= j < geometries[k].index_list().len() implies #[trigger] staged_indices(
                geometries,
                n,
            )[indices_before(geometries, k) + j] == (geometries[k].index_list()[j] + (
            vertices_before(geometries, k) as u16)) as u16 by {
            lemma_indices_before_grow(geometries, 0, k);
            if k < n - 1 {
                lemma_indices_before_grow(geometries, k + 1, n - 1);
                assert(indices_before(geometries, k + 1) == indices_before(geometries, k)
                    + geometries[k].index_list().len());
                assert(staged_indices(geometries, n)[indices_before(geometries, k) + j] == before[indices_before(geometries, k) + j]);
            } else {
                assert(staged_indices(geometries, n)[indices_before(geometries, k) + j] == own[j]);
            }
        }
    }
}

proof fn lemma_indices_before_grow(geometries: Seq<Geometry>, n: int, m: int)
    requires
        0 <= n <= m,
    ensures
        indices_before(geometries, n) <= indices_before(geometries, m),
    decreases m - n,
{
    if n < m {
        lemma_indices_before_grow(geometries, n, m - 1);
    }
}

/// The number of vertex data bytes of the first `n` of `geometries`.
pub open spec fn bytes_before(geometries: Seq<Geometry>, n: int) -> int
    decreases n,
{
    if n <= 0 {
        0
    } else {
        bytes_before(geometries, n - 1) + geometries[n - 1].vertex_bytes().len()
    }
}

/// The staged vertex data holds the vertex data of each geometry `k` in turn: byte `j` of
/// geometry `k` stands at position `bytes_before(geometries, k) + j`.
pub proof fn lemma_staged_bytes_in_order(geometries: Seq<Geometry>, n: int)
    requires
        0 <= n <= geometries.len(),
    ensures
        staged_bytes(geometries, n).len() == bytes_before(geometries, n),
        forall|k: int, j: int|
            0 <= k < n && 0 <= j < geometries[k].vertex_bytes().len() ==> #[trigger] staged_bytes(
                geometries,
                n,
            )[bytes_before(geometries, k) + j] == geometries[k].vertex_bytes()[j],
    decreases n,
{
    if n > 0 {
        lemma_staged_bytes_in_order(geometries, n - 1);
        let before = staged_bytes(geometries, n - 1);
        assert forall|k: int, j: int|
            0 <= k < n && 0 <= j < geometries[k].vertex_bytes().len() implies #[trigger] staged_bytes(
                geometries,
                n,
            )[bytes_before(geometries, k) + j] == geometries[k].vertex_bytes()[j] by {
            lemma_bytes_before_grow(geometries, 0, k);
            if k < n - 1 {
                lemma_bytes_before_grow(geometries, k + 1, n - 1);
                assert(bytes_before(geometries, k + 1) == bytes_before(geometries, k)
                    + geometries[k].vertex_bytes().len());
                assert(staged_bytes(geometries, n)[bytes_before(geometries, k) + j] == before[bytes_before(geometries, k) + j]);
            }
        }
    }
}

proof fn lemma_bytes_before_grow(geometries: Seq<Geometry>, n: int, m: int)
    requires
        0 <= n <= m,
    ensures
        bytes_before(geometries, n) <= bytes_before(geometries, m),
    decreases m - n,
{
    if n < m {
        lemma_bytes_before_grow(geometries, n, m - 1);
    }
}

/// The vertices of a geometry are its whole vertices: as many vertex sizes as fit in its vertex
/// data.
pub proof fn lemma_vertex_count_whole_vertices(geometry: Geometry)
    requires
        attributes_size(geometry.vertex_format()) > 0,
    ensures
        vertex_count(geometry) * attributes_size(geometry.vertex_format())
            <= geometry.vertex_bytes().len() < (vertex_count(geometry) + 1) * attributes_size(
            geometry.vertex_format(),
        ),
{
    let size = attributes_size(geometry.vertex_format());
    let length = geometry.vertex_bytes().len() as int;
    assert(vertex_count(geometry) == length / size);
    assert((length / size) * size <= length < (length / size + 1) * size) by (nonlinear_arith)
        requires
            size > 0,
            length >= 0,
    ;
}

/// The geometries that `models` draw, looked up in `geometries`.
pub open spec fn model_geometries<I>(geometries: CompactList<Geometry>, models: Seq<Model<I>>) -> Seq<
    Geometry,
> {
    models.map_values(|model: Model<I>| geometries.spec_get(model.geometry)->0)
}

/// Every index, moved past the vertices before its geometry, is still a `u16`.
pub open spec fn offsets_fit(geometries: Seq<Geometry>) -> bool {
    forall|i: int, j: int|
        0 <= i < geometries.len() && 0 <= j < geometries[i].index_list().len() ==> #[trigger] geometries[i].index_list()[j]
            + (vertices_before(geometries, i) as u16) < 0x10000
}

/// The vertex data and indices of a batch of models, as one list each.
pub struct StagedModels {
    pub vertex_data: Vec<u8>,
    pub indices: Vec<u16>,
    pub counter: Counter,
}

proof fn lemma_staged_bytes_grow(geometries: Seq<Geometry>, n: int, m: int)
    requires
        n <= m,
    ensures
        staged_bytes(geometries, n).len() <= staged_bytes(geometries, m).len(),
        staged_indices(geometries, n).len() <= staged_indices(geometries, m).len(),
    decreases m - n,
{
    if n < m {
        lemma_staged_bytes_grow(geometries, n, m - 1);
    }
}

/// Batches the geometries that `models` draw: their vertex data one after the other, and their
/// indices one after the other, each index moved past the vertices of the models before its own.
/// The counter holds the numbers of vertices and indices, as `u16`s.
pub fn stage_models<I>(geometries: &CompactList<Geometry>, models: &[Model<I>]) -> (r: StagedModels)
    requires
        forall|i: int| 0 <= i < models@.len() ==> #[trigger] geometries.spec_get(models@[i].geometry) is Some,
        forall|i: int| 0 <= i < models@.len() ==> {
            let format = #[trigger] model_geometries(*geometries, models@)[i].vertex_format();
            sizes_within(format, usize::MAX as int) && attributes_size(format) > 0
        },
        offsets_fit(model_geometries(*geometries, models@)),
        staged_bytes(model_geometries(*geometries, models@), models@.len() as int).len() <= usize::MAX,
        staged_indices(model_geometries(*geometries, models@), models@.len() as int).len() <= usize::MAX,
    ensures
        r.vertex_data@ == staged_bytes(model_geometries(*geometries, models@), models@.len() as int),
        r.indices@ == staged_indices(model_geometries(*geometries, models@), models@.len() as int),
        r.counter.vertices == vertices_before(model_geometries(*geometries, models@), models@.len() as int) as u16,
        r.counter.indices == r.indices@.len() as u16,
{
    let ghost staged = model_geometries(*geometries, models@);
    let mut vertex_data: Vec<u8> = Vec::new();
    let mut indices: Vec<u16> = Vec::new();
    let mut vertex_counter: usize = 0;
    let mut model: usize = 0;
    while model < models.len()
        invariant
            staged == model_geometries(*geometries, models@),
            forall|i: int| 0 <= i < models@.len() ==> #[trigger] geometries.spec_get(models@[i].geometry) is Some,
            forall|i: int| 0 <= i < models@.len() ==> {
                let format = #[trigger] staged[i].vertex_format();
                sizes_within(format, usize::MAX as int) && attributes_size(format) > 0
            },
            offsets_fit(staged),
            staged_bytes(staged, models@.len() as int).len() <= usize::MAX,
            staged_indices(staged, models@.len() as int).len() <= usize::MAX,
            0 <= model <= models@.len(),
            vertex_data@ == staged_bytes(staged, model as int),
            indices@ == staged_indices(staged, model as int),
            vertex_counter == vertices_before(staged, model as int),
            vertex_counter <= vertex_data@.len(),
        decreases models@.len() - model,
    {
        let geometry = geometries.get(models[model].geometry).unwrap();
        assert(*geometry == staged[model as int]);
        proof {
            lemma_staged_bytes_grow(staged, model + 1, models@.len() as int);
        }
        let data = geometry.data();
        let vertex_size = geometry.format().vertex_size();
        let vertex_count = data.len() / vertex_size;
        assert(vertex_count <= data@.len()) by (nonlinear_arith)
            requires
                vertex_size >= 1,
                vertex_count == (data@.len() as int) / (vertex_size as int),
        ;
        vertex_data.extend_from_slice(data.as_slice());
        assert(vertex_data@ =~= staged_bytes(staged, model + 1));
        let offset = vertex_counter as u16;
        let own = geometry.indices();
        let ghost before = indices@;
        let mut index: usize = 0;
        while index < own.len()
            invariant
                own@ == staged[model as int].index_list(),
                offsets_fit(staged),
                staged.len() == models@.len(),
                0 <= model < models@.len(),
                vertex_counter == vertices_before(staged, model as int),
                offset == vertex_counter as u16,
                0 <= index <= own@.len(),
                indices@ == before + offset_indices(own@.subrange(0, index as int), vertex_counter as int),
            decreases own@.len() - index,
        {
            assert(staged[model as int].index_list()[index as int] + (vertices_before(staged, model as int) as u16) < 0x10000);
            indices.push(own[index] + offset);
            assert(own@.subrange(0, index + 1).drop_last() =~= own@.subrange(0, index as int));
            assert(indices@ =~= before + offset_indices(own@.subrange(0, index + 1), vertex_counter as int));
            index += 1;
        }
        assert(own@.subrange(0, own@.len() as int) =~= own@);
        assert(indices@ =~= staged_indices(staged, model + 1));
        vertex_counter = vertex_counter + vertex_count;
        model += 1;
    }
    let counter = Counter { vertices: vertex_counter as u16, indices: indices.len() as u16 };
    StagedModels { vertex_data, indices, counter }
}

} // verus!
