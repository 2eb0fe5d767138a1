use snagg::asset::{
    Asset, AttributeDecl, BufferViewDecl, CameraDecl, MeshDecl, NodeDecl, PrimitiveDecl,
    SceneDecl, Semantic, Target,
};
use snagg::error::LoadError;
use snagg::graph::Graph;
use snagg::math::{Mat4, Vec4};
use snagg::mesh::Mesh;
use snagg::model_buffer_info::ModelBufferInfo;
use snagg::primitive::{IndexFormat, Primitive, RenderCommand};
use snagg::view::ViewType;

fn identity_words() -> Mat4 {
    let one = 1.0f32.to_bits();
    Mat4::new(
        Vec4::new(one, 0, 0, 0),
        Vec4::new(0, one, 0, 0),
        Vec4::new(0, 0, one, 0),
        Vec4::new(0, 0, 0, one),
    )
}

fn view_decl(length: usize, target: Target) -> BufferViewDecl {
    BufferViewDecl { length, target: Some(target) }
}

/// Two vertex views (positions, normals) and one index view of 6 indices.
fn scene_buffers() -> (Vec<BufferViewDecl>, Vec<u8>) {
    let decls = vec![
        view_decl(36, Target::Vertex),
        view_decl(36, Target::Vertex),
        view_decl(12, Target::Index),
    ];
    let raw: Vec<u8> = (0..84u8).collect();
    (decls, raw)
}

fn two_attribute_primitive() -> PrimitiveDecl {
    PrimitiveDecl {
        attributes: vec![
            AttributeDecl { semantic: Semantic::Positions, accessor: 0 },
            AttributeDecl { semantic: Semantic::Normals, accessor: 1 },
        ],
        indices: Some(2),
    }
}

fn one_mesh_asset() -> Asset {
    let (views, _) = scene_buffers();
    Asset {
        views,
        cameras: vec![CameraDecl::Perspective(identity_words())],
        default_scene: Some(SceneDecl { nodes: vec![0] }),
        nodes: vec![NodeDecl { mesh: Some(0), matrix: identity_words() }],
        meshes: vec![MeshDecl { primitives: vec![two_attribute_primitive()] }],
    }
}

fn is_index(v: &ViewType) -> bool {
    matches!(v, ViewType::Index(_))
}

#[test]
fn primitive_records_index_view_last() {
    let (decls, raw) = scene_buffers();
    let info = ModelBufferInfo::new(&decls, &raw).unwrap();
    let p = Primitive::new(&two_attribute_primitive(), Vec::new(), &info).unwrap();
    assert_eq!(p.views.len(), 3);
    assert!(!is_index(&p.views[0]));
    assert!(!is_index(&p.views[1]));
    assert!(is_index(&p.views[2]));
    assert_eq!(p.views[2], info.views[2]);
}

#[test]
fn primitive_with_no_attributes_still_ends_with_index_view() {
    let (decls, raw) = scene_buffers();
    let info = ModelBufferInfo::new(&decls, &raw).unwrap();
    let decl = PrimitiveDecl { attributes: Vec::new(), indices: Some(2) };
    let p = Primitive::new(&decl, Vec::new(), &info).unwrap();
    assert_eq!(p.views.len(), 1);
    assert!(is_index(&p.views[0]));
}

#[test]
fn primitive_requires_an_index_accessor() {
    let (decls, raw) = scene_buffers();
    let info = ModelBufferInfo::new(&decls, &raw).unwrap();
    let decl = PrimitiveDecl {
        attributes: vec![AttributeDecl { semantic: Semantic::Positions, accessor: 0 }],
        indices: None,
    };
    let r = Primitive::new(&decl, Vec::new(), &info);
    assert_eq!(r.unwrap_err(), LoadError::MissingIndices);
}

#[test]
fn primitive_rejects_unsupported_attributes() {
    let (decls, raw) = scene_buffers();
    let info = ModelBufferInfo::new(&decls, &raw).unwrap();
    let decl = PrimitiveDecl {
        attributes: vec![AttributeDecl { semantic: Semantic::Unsupported, accessor: 0 }],
        indices: Some(2),
    };
    let r = Primitive::new(&decl, Vec::new(), &info);
    assert_eq!(r.unwrap_err(), LoadError::UnsupportedAttribute);
}

#[test]
fn primitive_replay_binds_slots_in_order_and_draws_once() {
    let (decls, raw) = scene_buffers();
    let info = ModelBufferInfo::new(&decls, &raw).unwrap();
    let p = Primitive::new(&two_attribute_primitive(), Vec::new(), &info).unwrap();
    let cmds = p.render();
    assert_eq!(
        cmds,
        vec![
            RenderCommand::SetPipeline,
            RenderCommand::SetVertexBuffer { slot: 0, offset: 0, length: 36 },
            RenderCommand::SetVertexBuffer { slot: 1, offset: 36, length: 36 },
            RenderCommand::SetIndexBuffer { offset: 0, length: 12, format: IndexFormat::Uint16 },
            RenderCommand::DrawIndexed { index_count: 6, instance_count: 1 },
        ]
    );
}

#[test]
fn mesh_replay_binds_transform_group_first() {
    let asset = one_mesh_asset();
    let (_, raw) = scene_buffers();
    let g = Graph::create(&asset, &raw).unwrap();
    let cmds = g.meshes[0].render();
    assert_eq!(cmds[0], RenderCommand::SetBindGroup { slot: 0 });
    assert_eq!(cmds[1], RenderCommand::SetPipeline);
    assert_eq!(cmds.len(), 6);
}

#[test]
fn mesh_stages_the_node_matrix_as_uniform() {
    let (decls, raw) = scene_buffers();
    let info = ModelBufferInfo::new(&decls, &raw).unwrap();
    let asset = one_mesh_asset();
    let g = Graph::create(&asset, &raw).unwrap();
    let node = NodeDecl { mesh: Some(0), matrix: identity_words() };
    let mesh_decl = MeshDecl { primitives: vec![two_attribute_primitive()] };
    let m = Mesh::new(&g.camera, &mesh_decl, &node, &info).unwrap();
    assert_eq!(m.uniform, identity_words().data());
    assert_eq!(m.uniform.len(), 64);
    assert_eq!(m.transform_bind_group.layout.entries.len(), 1);
    assert_eq!(m.primitives.len(), 1);
    // Each primitive's pipeline is bound to the transform layout and the
    // camera layout, in that order.
    assert_eq!(m.primitives[0].pipeline.bind_group_layouts.len(), 2);
    assert_eq!(
        m.primitives[0].pipeline.bind_group_layouts[0].entries,
        m.transform_bind_group.layout.entries
    );
    assert_eq!(
        m.primitives[0].pipeline.bind_group_layouts[1].entries,
        g.camera.bind_group.layout.entries
    );
}

#[test]
fn graph_loads_the_whole_scene() {
    let asset = one_mesh_asset();
    let (_, raw) = scene_buffers();
    assert!(asset.well_formed());
    let g = Graph::create(&asset, &raw).unwrap();
    assert_eq!(g.meshes.len(), 1);
    assert_eq!(g.meshes[0].primitives.len(), 1);
    let p = &g.meshes[0].primitives[0];
    assert_eq!(p.views.len(), 3);
    assert!(is_index(&p.views[2]));
    assert!(!is_index(&p.views[0]));
    assert!(!is_index(&p.views[1]));
    assert_eq!(p.pipeline.vertex_layouts.len(), 2);
    assert_eq!(g.camera.uniform, identity_words().data());
    assert_eq!(g.buffer_info.vertex_data.len(), 72);
    assert_eq!(g.buffer_info.index_data.len(), 12);
}

#[test]
fn graph_skips_root_nodes_without_meshes() {
    let mut asset = one_mesh_asset();
    asset.nodes = vec![
        NodeDecl { mesh: None, matrix: identity_words() },
        NodeDecl { mesh: Some(0), matrix: identity_words() },
    ];
    asset.default_scene = Some(SceneDecl { nodes: vec![0, 1] });
    let (_, raw) = scene_buffers();
    let g = Graph::create(&asset, &raw).unwrap();
    assert_eq!(g.meshes.len(), 1);
}

#[test]
fn graph_without_cameras_fails_before_any_mesh() {
    let mut asset = one_mesh_asset();
    asset.cameras = Vec::new();
    let (_, raw) = scene_buffers();
    let r = Graph::create(&asset, &raw);
    assert_eq!(r.unwrap_err(), LoadError::NoCamera);
}

#[test]
fn graph_without_default_scene_fails() {
    let mut asset = one_mesh_asset();
    asset.default_scene = None;
    let (_, raw) = scene_buffers();
    let r = Graph::create(&asset, &raw);
    assert_eq!(r.unwrap_err(), LoadError::NoDefaultScene);
}

#[test]
fn graph_rejects_an_orthographic_first_camera() {
    let mut asset = one_mesh_asset();
    asset.cameras = vec![CameraDecl::Orthographic, CameraDecl::Perspective(identity_words())];
    let (_, raw) = scene_buffers();
    let r = Graph::create(&asset, &raw);
    assert_eq!(r.unwrap_err(), LoadError::UnsupportedProjection);
}

#[test]
fn graph_reports_partition_errors_before_camera_errors() {
    let mut asset = one_mesh_asset();
    asset.cameras = Vec::new();
    asset.views[1].target = None;
    let (_, raw) = scene_buffers();
    let r = Graph::create(&asset, &raw);
    assert_eq!(r.unwrap_err(), LoadError::ViewWithoutTarget);
}

#[test]
fn graph_propagates_a_cursor_overrun() {
    let asset = one_mesh_asset();
    let raw: Vec<u8> = vec![0; 50];
    let r = Graph::create(&asset, &raw);
    assert_eq!(r.unwrap_err(), LoadError::CursorOverrun);
}

#[test]
fn graph_surfaces_the_first_failing_primitive() {
    let mut asset = one_mesh_asset();
    asset.meshes[0].primitives.push(PrimitiveDecl {
        attributes: vec![AttributeDecl { semantic: Semantic::Unsupported, accessor: 0 }],
        indices: Some(2),
    });
    let (_, raw) = scene_buffers();
    let r = Graph::create(&asset, &raw);
    assert_eq!(r.unwrap_err(), LoadError::UnsupportedAttribute);
}

#[test]
fn mesh_replays_primitives_in_declaration_order() {
    let mut asset = one_mesh_asset();
    let second = PrimitiveDecl {
        attributes: vec![AttributeDecl { semantic: Semantic::Positions, accessor: 0 }],
        indices: Some(2),
    };
    asset.meshes[0].primitives.push(second);
    let (_, raw) = scene_buffers();
    let g = Graph::create(&asset, &raw).unwrap();
    let cmds = g.meshes[0].render();
    // One bind-group bind, then 5 commands for the first primitive and 4
    // for the second, with each primitive's pipeline bind first.
    assert_eq!(cmds.len(), 1 + 5 + 4);
    assert_eq!(cmds[0], RenderCommand::SetBindGroup { slot: 0 });
    assert_eq!(cmds[1], RenderCommand::SetPipeline);
    assert_eq!(cmds[6], RenderCommand::SetPipeline);
    assert_eq!(
        cmds[7],
        RenderCommand::SetVertexBuffer { slot: 0, offset: 0, length: 36 }
    );
    assert_eq!(
        cmds[9],
        RenderCommand::DrawIndexed { index_count: 6, instance_count: 1 }
    );
}

#[test]
fn well_formed_rejects_out_of_range_accessors() {
    let mut asset = one_mesh_asset();
    assert!(asset.well_formed());
    asset.meshes[0].primitives[0].indices = Some(9);
    assert!(!asset.well_formed());
}
