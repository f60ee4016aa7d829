use krill::assets::path::AssetPath;
use krill::assets::LoadAssetError;
use krill::render::pipeline::plan_module_reads;
use krill::render::pipeline::serial::ShaderModuleDefinition;
use krill::meteors::graphics::generate_triangle_strip_indices;
use krill::meteors::text::{character_slot, topology_indices, Topology};
use krill::render::geometry::{vertex_attribute_layout, Geometry, GeometryFormat, Indices};
use krill::render::Model;
use krill::render::vecbuf::VecBuf;
use krill::utils::CompactList;
use krill::render::material::{AttributeDefinition, AttributeSemantics, AttributeType, InvalidVertexFormatString, PositionTransformation, stage_models};

#[test]
fn attribute_type_parses_format_names() {
    assert_eq!("f32x3".parse::<AttributeType>().unwrap(), AttributeType::Float32(3));
    assert_eq!("f64".parse::<AttributeType>().unwrap(), AttributeType::Float64(1));
    assert_eq!(AttributeType::from_format("f64x4").unwrap(), AttributeType::Float64(4));
    assert!(matches!(AttributeType::from_format("f32x5"), Err(InvalidVertexFormatString::OutOfRange)));
    assert!(matches!(AttributeType::from_format("f32x0"), Err(InvalidVertexFormatString::OutOfRange)));
    assert!(matches!(AttributeType::from_format("i32x2"), Err(InvalidVertexFormatString::UnknownFormat)));
    assert!(matches!(AttributeType::from_format("f32xq"), Err(InvalidVertexFormatString::InvalidCount)));
    assert!(matches!(AttributeType::from_format("u8xq"), Err(InvalidVertexFormatString::InvalidCount)));
    assert_eq!(AttributeType::from_format("f32x+2").unwrap(), AttributeType::Float32(2));
}

#[test]
fn attribute_sizes() {
    assert_eq!(AttributeType::Float32(3).size(), 12);
    assert_eq!(AttributeType::Float64(2).size(), 16);
    let format = GeometryFormat::from(vec![
        AttributeDefinition {
            typ: AttributeType::Float32(3),
            semantics: AttributeSemantics::Position { transform: PositionTransformation::default() },
            name: None,
        },
        AttributeDefinition { typ: AttributeType::Float32(4), semantics: AttributeSemantics::Color, name: None },
    ]);
    assert_eq!(format.vertex_size(), 28);
    assert_eq!(GeometryFormat::empty().vertex_size(), 0);
    assert_eq!(format.attributes().len(), 2);
}

#[test]
fn default_names() {
    assert_eq!(AttributeSemantics::Color.default_name(), "color");
    assert_eq!(
        AttributeSemantics::Position { transform: PositionTransformation::Untransformed }.default_name(),
        "position"
    );
}

#[test]
fn triangle_strip_indices() {
    assert_eq!(generate_triangle_strip_indices(2), Vec::<u16>::new());
    assert_eq!(generate_triangle_strip_indices(3), vec![0, 1, 2]);
    assert_eq!(generate_triangle_strip_indices(5), vec![0, 1, 2, 1, 2, 3, 2, 3, 4]);
}

#[test]
fn indices_from_vectors() {
    assert!(matches!(Indices::from(vec![1u16, 2]), Indices::Uint16(v) if v == vec![1, 2]));
    assert!(matches!(Indices::from(vec![7u32]), Indices::Uint32(v) if v == vec![7]));
}

fn color_format() -> GeometryFormat {
    GeometryFormat::from(vec![AttributeDefinition {
        typ: AttributeType::Float32(1),
        semantics: AttributeSemantics::Color,
        name: None,
    }])
}

#[test]
fn staging_concatenates_models_and_offsets_indices() {
    let mut geometries = CompactList::new();
    let triangle = geometries.add(Geometry::new(vec![1; 12], color_format(), vec![0, 1, 2]));
    let pair = geometries.add(Geometry::new(vec![2; 8], color_format(), vec![1, 0]));
    let models = vec![Model::new(triangle, ()), Model::new(pair, ()), Model::new(triangle, ())];
    let staged = stage_models(&geometries, &models);
    let mut expected_data = vec![1u8; 12];
    expected_data.extend(vec![2u8; 8]);
    expected_data.extend(vec![1u8; 12]);
    assert_eq!(staged.vertex_data, expected_data);
    assert_eq!(staged.indices, vec![0, 1, 2, 4, 3, 5, 6, 7]);
    assert_eq!(staged.counter.vertices, 8);
    assert_eq!(staged.counter.indices, 8);
}

#[test]
fn staging_nothing_gives_empty_lists() {
    let geometries: CompactList<Geometry> = CompactList::new();
    let models: Vec<Model<()>> = vec![];
    let staged = stage_models(&geometries, &models);
    assert!(staged.vertex_data.is_empty());
    assert!(staged.indices.is_empty());
    assert_eq!(staged.counter.vertices, 0);
    assert_eq!(staged.counter.indices, 0);
}

#[test]
fn buffer_grows_only_when_too_small() {
    let mut buffer = VecBuf::new(8, 40);
    assert!(!buffer.set_capacity_at_least(8));
    assert_eq!(buffer.capacity(), 8);
    assert_eq!(buffer.version(), 0);
    assert!(buffer.set_capacity_at_least(9));
    assert_eq!(buffer.capacity(), 10);
    assert_eq!(buffer.version(), 1);
    assert_eq!(buffer.usage(), 40);
    assert!(buffer.is_empty());
}

#[test]
fn upload_pads_data_and_tracks_size() {
    let mut buffer = VecBuf::new(0, 40);
    let (bytes, recreated) = buffer.upload(0, &[7, 7, 7, 7, 7]);
    assert_eq!(bytes, vec![7, 7, 7, 7, 7, 0]);
    assert!(recreated);
    assert_eq!(buffer.capacity(), 8);
    assert_eq!(buffer.len(), 6);
    assert_eq!(buffer.version(), 1);
    let (bytes, recreated) = buffer.upload(0, &[1, 2, 3, 4]);
    assert_eq!(bytes, vec![1, 2, 3, 4]);
    assert!(!recreated);
    assert_eq!(buffer.len(), 4);
    assert_eq!(buffer.version(), 1);
    buffer.clear();
    assert_eq!(buffer.len(), 0);
}

#[test]
fn glyph_slots_start_at_space() {
    assert_eq!(character_slot(' '), Some(0));
    assert_eq!(character_slot('!'), Some(1));
    assert_eq!(character_slot('0'), Some(16));
    assert_eq!(character_slot('A'), Some(33));
    assert_eq!(character_slot('Z'), Some(58));
    assert_eq!(character_slot('['), None);
    assert_eq!(character_slot('a'), None);
}

#[test]
fn topology_decides_glyph_indices() {
    assert_eq!(topology_indices(&Topology::Triangles, 4), vec![0, 1, 2, 3]);
    assert_eq!(topology_indices(&Topology::Triangles, 0), Vec::<u16>::new());
    assert_eq!(topology_indices(&Topology::TriangleStrip, 4), vec![0, 1, 2, 1, 2, 3]);
    assert_eq!(topology_indices(&Topology::TriangleStrip, 2), Vec::<u16>::new());
}

#[test]
fn attribute_layout_offsets_and_location_names() {
    let attributes = vec![
        AttributeDefinition {
            typ: AttributeType::Float32(3),
            semantics: AttributeSemantics::Position { transform: PositionTransformation::Model },
            name: None,
        },
        AttributeDefinition {
            typ: AttributeType::Float32(4),
            semantics: AttributeSemantics::Color,
            name: Some("tint".to_string()),
        },
        AttributeDefinition { typ: AttributeType::Float64(2), semantics: AttributeSemantics::Color, name: None },
    ];
    let layout = vertex_attribute_layout(&attributes);
    assert_eq!(layout.len(), 3);
    assert_eq!(layout[0].offset, 0);
    assert_eq!(layout[0].location_name, "position");
    assert_eq!(layout[1].offset, 12);
    assert_eq!(layout[1].location_name, "tint");
    assert_eq!(layout[2].offset, 28);
    assert_eq!(layout[2].location_name, "color");
    assert_eq!(layout[2].typ, AttributeType::Float64(2));
}

fn module(name: &str, path: &str) -> ShaderModuleDefinition {
    ShaderModuleDefinition { name: name.to_string(), path: path.to_string() }
}

#[test]
fn module_reads_resolve_and_skip_repeated_names() {
    let pipeline = AssetPath::new("/pipelines/basic.toml").unwrap();
    let modules = vec![module("vs", "shader.wgsl"), module("vs", "other.wgsl"), module("fs", "/abs/frag.wgsl")];
    let (reads, failure) = plan_module_reads(&pipeline, &modules);
    assert!(failure.is_none());
    assert_eq!(reads.len(), 2);
    assert_eq!(reads[0].name, "vs");
    assert_eq!(reads[0].path.path_string(), "/pipelines/shader.wgsl");
    assert_eq!(reads[1].name, "fs");
    assert_eq!(reads[1].path.path_string(), "/abs/frag.wgsl");
}

#[test]
fn module_reads_stop_at_bad_paths() {
    let pipeline = AssetPath::new("/pipelines/basic.toml").unwrap();
    let modules = vec![module("vs", "shader.wgsl"), module("fs", "bad$"), module("gs", "geo.wgsl")];
    let (reads, failure) = plan_module_reads(&pipeline, &modules);
    assert_eq!(reads.len(), 1);
    assert!(matches!(failure, Some(LoadAssetError::InvalidPath(ref e)) if e.path() == "bad$"));

    let relative = AssetPath::new("pipelines/basic.toml").unwrap();
    let (reads, failure) = plan_module_reads(&relative, &vec![module("vs", "shader.wgsl")]);
    assert!(reads.is_empty());
    assert!(matches!(failure, Some(LoadAssetError::NotFound(ref p)) if p.path_string() == "shader.wgsl"));
}

#[test]
fn format_counts_read_as_u32() {
    assert_eq!(AttributeType::from_format("f32x0004").unwrap(), AttributeType::Float32(4));
    assert!(matches!(AttributeType::from_format("f32x4294967296"), Err(InvalidVertexFormatString::InvalidCount)));
    assert!(matches!(AttributeType::from_format("f32x4294967295"), Err(InvalidVertexFormatString::OutOfRange)));
    assert!(matches!(AttributeType::from_format("f32x"), Err(InvalidVertexFormatString::InvalidCount)));
    assert!(matches!(AttributeType::from_format("f32x+"), Err(InvalidVertexFormatString::InvalidCount)));
    assert!(matches!(AttributeType::from_format("f32x-1"), Err(InvalidVertexFormatString::InvalidCount)));
}

#[test]
fn vertex_format_errors_display() {
    let error = krill::render::pipeline::serial::VertexFormatDefinition::from_format("f16x2").err().unwrap();
    assert_eq!(error.message(), "unknown format");
    let error = krill::render::pipeline::serial::VertexFormatDefinition::from_format("f32x9").err().unwrap();
    assert_eq!(error.message(), "element count out of range");
}
