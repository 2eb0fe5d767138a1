//! Draw-pipeline descriptions.
//!
//! A pipeline binds a list of vertex layouts and a list of bind-group
//! layouts to the fixed shader pair, under a fixed state: triangle-list
//! topology, counter-clockwise front face, back-face culling, filled
//! polygons, no depth/stencil test, a single sample, and opaque replace
//! blending.  The GPU layer realizes the description against the fixed
//! shader module.

use vstd::prelude::*;

use crate::bindgroup::BindGroupLayoutInfo;

verus! {

/// The scalar layout of one vertex attribute.
#[derive(Clone, Copy, Debug, PartialEq, Eq, Structural)]
pub enum VertexFormat {
    Float32x2,
    Float32x3,
}

/// How a vertex buffer is stepped through.
#[derive(Clone, Copy, Debug, PartialEq, Eq, Structural)]
pub enum StepMode {
    Vertex,
    Instance,
}

/// The layout of one vertex buffer feeding one attribute: its per-vertex
/// stride and the attribute's format, byte offset and shader input slot.
#[derive(Clone, Copy, Debug, PartialEq, Eq, Structural)]
pub struct VertexLayout {
    pub array_stride: u64,
    pub step_mode: StepMode,
    pub format: VertexFormat,
    pub offset: u64,
    pub shader_location: u32,
}

#[derive(Clone, Copy, Debug, PartialEq, Eq, Structural)]
pub enum Topology {
    PointList,
    LineList,
    TriangleList,
    TriangleStrip,
}

#[derive(Clone, Copy, Debug, PartialEq, Eq, Structural)]
pub enum FrontFace {
    Ccw,
    Cw,
}

#[derive(Clone, Copy, Debug, PartialEq, Eq, Structural)]
pub enum CullMode {
    NoCulling,
    Front,
    Back,
}

#[derive(Clone, Copy, Debug, PartialEq, Eq, Structural)]
pub enum PolygonMode {
    Fill,
    Line,
}

#[derive(Clone, Copy, Debug, PartialEq, Eq, Structural)]
pub enum BlendMode {
    Replace,
    AlphaBlending,
}

/// The fixed-function state a pipeline is built with.
#[derive(Clone, Copy, Debug, PartialEq, Eq, Structural)]
pub struct PipelineState {
    pub topology: Topology,
    pub front_face: FrontFace,
    pub cull_mode: CullMode,
    pub polygon_mode: PolygonMode,
    pub depth_test: bool,
    pub sample_count: u32,
    pub blend: BlendMode,
}

/// The one fixed-function state this core ever uses.
pub open spec fn fixed_pipeline_state() -> PipelineState {
    PipelineState {
        topology: Topology::TriangleList,
        front_face: FrontFace::Ccw,
        cull_mode: CullMode::Back,
        polygon_mode: PolygonMode::Fill,
        depth_test: false,
        sample_count: 1,
        blend: BlendMode::Replace,
    }
}

/// A described render pipeline.
#[derive(Clone, Debug, PartialEq, Eq)]
pub struct PipelineInfo {
    pub vertex_layouts: Vec<VertexLayout>,
    pub bind_group_layouts: Vec<BindGroupLayoutInfo>,
    pub state: PipelineState,
}

/// Builds the description of one pipeline: the given vertex layouts and
/// bind-group layouts, in order, under the fixed state.
pub fn create(
    vertex_buffer_layouts: Vec<VertexLayout>,
    bind_group_layouts: Vec<BindGroupLayoutInfo>,
) -> (r: PipelineInfo)
    ensures
        r.vertex_layouts == vertex_buffer_layouts,
        r.bind_group_layouts == bind_group_layouts,
        r.state == fixed_pipeline_state(),
{
    PipelineInfo {
        vertex_layouts: vertex_buffer_layouts,
        bind_group_layouts,
        state: PipelineState {
            topology: Topology::TriangleList,
            front_face: FrontFace::Ccw,
            cull_mode: CullMode::Back,
            polygon_mode: PolygonMode::Fill,
            depth_test: false,
            sample_count: 1,
            blend: BlendMode::Replace,
        },
    }
}

} // verus!
