use snagg::asset::Semantic;
use snagg::bindgroup::{create_bindgroup, BindGroupEntryInfo, BindingKind, Visibility};
use snagg::camera::Camera;
use snagg::error::LoadError;
use snagg::math::{Mat4, Vec4};
use snagg::pipeline::{
    create, BlendMode, CullMode, FrontFace, PolygonMode, Topology, VertexFormat,
};
use snagg::primitive::vertex_layout_for;
use snagg::view::ViewInfo;

fn mat_of(rows: [[f32; 4]; 4]) -> Mat4 {
    Mat4::new(
        Vec4::new(
            rows[0][0].to_bits(),
            rows[0][1].to_bits(),
            rows[0][2].to_bits(),
            rows[0][3].to_bits(),
        ),
        Vec4::new(
            rows[1][0].to_bits(),
            rows[1][1].to_bits(),
            rows[1][2].to_bits(),
            rows[1][3].to_bits(),
        ),
        Vec4::new(
            rows[2][0].to_bits(),
            rows[2][1].to_bits(),
            rows[2][2].to_bits(),
            rows[2][3].to_bits(),
        ),
        Vec4::new(
            rows[3][0].to_bits(),
            rows[3][1].to_bits(),
            rows[3][2].to_bits(),
            rows[3][3].to_bits(),
        ),
    )
}

fn float_bytes(rows: [[f32; 4]; 4]) -> Vec<u8> {
    let mut out = Vec::new();
    for row in rows.iter() {
        for v in row.iter() {
            out.extend_from_slice(&v.to_le_bytes());
        }
    }
    out
}

#[test]
fn view_info_keeps_its_fields() {
    let v = ViewInfo::new(12, 4);
    assert_eq!(v.length, 12);
    assert_eq!(v.offset, 4);
}

#[test]
fn matrix_serializes_to_64_row_major_bytes() {
    let rows = [
        [1.0f32, 2.5, -3.0, 0.0],
        [0.25, -0.5, 8.0, 0.0],
        [1e-3, 7.75, 0.0, 0.0],
        [4.0, 5.0, 6.0, 1.0],
    ];
    let m = mat_of(rows);
    let data = m.data();
    assert_eq!(data.len(), 64);
    assert_eq!(data, float_bytes(rows));
}

#[test]
fn identity_matrix_bytes() {
    let rows = [
        [1.0f32, 0.0, 0.0, 0.0],
        [0.0, 1.0, 0.0, 0.0],
        [0.0, 0.0, 1.0, 0.0],
        [0.0, 0.0, 0.0, 1.0],
    ];
    let m = mat_of(rows);
    assert_eq!(m.data(), float_bytes(rows));
}

#[test]
fn bindgroup_numbers_entries_in_order() {
    let entries = vec![
        BindGroupEntryInfo::new(Visibility::Vertex, BindingKind::UniformBuffer),
        BindGroupEntryInfo::new(Visibility::Fragment, BindingKind::UniformBuffer),
        BindGroupEntryInfo::new(Visibility::VertexFragment, BindingKind::UniformBuffer),
    ];
    let bg = create_bindgroup(&entries);
    assert_eq!(bg.layout.entries.len(), 3);
    assert_eq!(bg.group.len(), 3);
    for i in 0..3u32 {
        assert_eq!(bg.layout.entries[i as usize].binding, i);
        assert_eq!(bg.group[i as usize].binding, i);
    }
    assert_eq!(bg.layout.entries[0].visibility, Visibility::Vertex);
    assert_eq!(bg.layout.entries[1].visibility, Visibility::Fragment);
    assert_eq!(bg.layout.entries[2].visibility, Visibility::VertexFragment);
}

#[test]
fn pipeline_carries_the_fixed_state() {
    let p = create(Vec::new(), Vec::new());
    assert_eq!(p.state.topology, Topology::TriangleList);
    assert_eq!(p.state.front_face, FrontFace::Ccw);
    assert_eq!(p.state.cull_mode, CullMode::Back);
    assert_eq!(p.state.polygon_mode, PolygonMode::Fill);
    assert!(!p.state.depth_test);
    assert_eq!(p.state.sample_count, 1);
    assert_eq!(p.state.blend, BlendMode::Replace);
}

#[test]
fn vertex_layouts_match_their_semantics() {
    let pos = vertex_layout_for(Semantic::Positions).unwrap();
    assert_eq!(pos.shader_location, 0);
    assert_eq!(pos.array_stride, 12);
    assert_eq!(pos.format, VertexFormat::Float32x3);
    assert_eq!(pos.offset, 0);

    let nrm = vertex_layout_for(Semantic::Normals).unwrap();
    assert_eq!(nrm.shader_location, 1);
    assert_eq!(nrm.array_stride, 12);
    assert_eq!(nrm.format, VertexFormat::Float32x3);

    let uv = vertex_layout_for(Semantic::TexCoords0).unwrap();
    assert_eq!(uv.shader_location, 2);
    assert_eq!(uv.array_stride, 8);
    assert_eq!(uv.format, VertexFormat::Float32x2);

    let bad = vertex_layout_for(Semantic::Unsupported);
    assert_eq!(bad.unwrap_err(), LoadError::UnsupportedAttribute);
}

#[test]
fn camera_stages_its_projection_uniform() {
    let rows = [
        [2.0f32, 0.0, 0.0, 0.0],
        [0.0, 2.414, 0.0, 0.0],
        [0.0, 0.0, 1.001, 1.0],
        [0.0, 0.0, -0.1001, 0.0],
    ];
    let cam = Camera::new(&mat_of(rows));
    assert_eq!(cam.uniform, float_bytes(rows));
    assert_eq!(cam.bind_group.layout.entries.len(), 1);
    assert_eq!(cam.bind_group.layout.entries[0].binding, 0);
    assert_eq!(cam.bind_group.layout.entries[0].visibility, Visibility::Vertex);
    assert_eq!(cam.bind_group.group.len(), 1);
    assert_eq!(cam.bind_group.group[0].resource, BindingKind::UniformBuffer);
}
