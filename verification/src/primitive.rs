//! One drawable unit of a mesh.
//!
//! A primitive owns a pipeline description (one vertex layout per declared
//! attribute, bound to the supplied bind-group layouts under the fixed
//! state) and the ordered list of views it binds at draw time: one view per
//! vertex attribute, in declaration order, followed by exactly one index
//! view.  Indexed geometry is mandatory; the index view being last is
//! established at construction and drives the draw-time command order.

use vstd::prelude::*;

use crate::asset::{AttributeDecl, PrimitiveDecl, Semantic};
use crate::bindgroup::BindGroupLayoutInfo;
use crate::error::LoadError;
use crate::model_buffer_info::ModelBufferInfo;
use crate::pipeline;
use crate::pipeline::{PipelineInfo, StepMode, VertexFormat, VertexLayout, fixed_pipeline_state};
use crate::view::ViewType;

verus! {

/// The width of the indices a draw consumes.  This core always draws
/// 16-bit indices.
#[derive(Clone, Copy, Debug, PartialEq, Eq, Structural)]
pub enum IndexFormat {
    Uint16,
    Uint32,
}

/// One step of a draw replay, in the order the render pass must perform
/// them.  Byte ranges select slices of the destination buffers; the bind
/// group and pipeline are the ones owned by the mesh and primitive being
/// replayed.
#[derive(Clone, Copy, Debug, PartialEq, Eq, Structural)]
pub enum RenderCommand {
    /// Bind the mesh's transform bind group at group slot `slot`.
    SetBindGroup { slot: u32 },
    /// Bind the primitive's pipeline.
    SetPipeline,
    /// Bind `length` bytes at `offset` of the vertex buffer to vertex-buffer
    /// slot `slot`.
    SetVertexBuffer { slot: u32, offset: u64, length: u64 },
    /// Bind `length` bytes at `offset` of the index buffer.
    SetIndexBuffer { offset: u64, length: u64, format: IndexFormat },
    /// Draw `index_count` indices once.
    DrawIndexed { index_count: u64, instance_count: u32 },
}

/// Whether the core supports a declared attribute semantic.
pub open spec fn supported(s: Semantic) -> bool {
    !(s is Unsupported)
}

pub open spec fn all_supported(attrs: Seq<AttributeDecl>) -> bool {
    forall|i: int| 0 <= i < attrs.len() ==> supported((#[trigger] attrs[i]).semantic)
}

/// The vertex layout a supported semantic maps to: a fixed shader input
/// slot and a stride matching the attribute's component count.
pub open spec fn vertex_layout_spec(s: Semantic) -> VertexLayout
    recommends
        supported(s),
{
    match s {
        Semantic::Positions => VertexLayout {
            array_stride: 12,
            step_mode: StepMode::Vertex,
            format: VertexFormat::Float32x3,
            offset: 0,
            shader_location: 0,
        },
        Semantic::Normals => VertexLayout {
            array_stride: 12,
            step_mode: StepMode::Vertex,
            format: VertexFormat::Float32x3,
            offset: 0,
            shader_location: 1,
        },
        Semantic::TexCoords0 => VertexLayout {
            array_stride: 8,
            step_mode: StepMode::Vertex,
            format: VertexFormat::Float32x2,
            offset: 0,
            shader_location: 2,
        },
        Semantic::Unsupported => arbitrary(),
    }
}

/// Maps one declared semantic to its vertex layout, or fails on a semantic
/// outside position, normal and the first texture-coordinate set.
pub fn vertex_layout_for(s: Semantic) -> (r: Result<VertexLayout, LoadError>)
    ensures
        supported(s) ==> r == Ok::<VertexLayout, LoadError>(vertex_layout_spec(s)),
        !supported(s) ==> r == Err::<VertexLayout, LoadError>(LoadError::UnsupportedAttribute),
{
    match s {
        Semantic::Positions => Ok(
            VertexLayout {
                array_stride: 12,
                step_mode: StepMode::Vertex,
                format: VertexFormat::Float32x3,
                offset: 0,
                shader_location: 0,
            },
        ),
        Semantic::Normals => Ok(
            VertexLayout {
                array_stride: 12,
                step_mode: StepMode::Vertex,
                format: VertexFormat::Float32x3,
                offset: 0,
                shader_location: 1,
            },
        ),
        Semantic::TexCoords0 => Ok(
            VertexLayout {
                array_stride: 8,
                step_mode: StepMode::Vertex,
                format: VertexFormat::Float32x2,
                offset: 0,
                shader_location: 2,
            },
        ),
        Semantic::Unsupported => Err(LoadError::UnsupportedAttribute),
    }
}

/// Construction succeeds exactly when every attribute is supported and an
/// index accessor is declared.
pub open spec fn primitive_ok(decl: PrimitiveDecl) -> bool {
    all_supported(decl.attributes@) && decl.indices is Some
}

/// The error a rejected declaration raises; an unsupported attribute is
/// found before the missing index accessor.
pub open spec fn primitive_error(decl: PrimitiveDecl) -> LoadError
    recommends
        !primitive_ok(decl),
{
    if !all_supported(decl.attributes@) {
        LoadError::UnsupportedAttribute
    } else {
        LoadError::MissingIndices
    }
}

/// The view list a primitive records over a partitioned view table: the
/// attributes' views in declaration order, then the index accessor's view.
pub open spec fn primitive_views(decl: PrimitiveDecl, table: Seq<ViewType>) -> Seq<ViewType>
    recommends
        primitive_ok(decl),
        decl.accessors_in_bounds(table.len() as int),
{
    Seq::new(
        decl.attributes@.len() + 1,
        |i: int|
            if i < decl.attributes@.len() {
                table[decl.attributes@[i].accessor as int]
            } else {
                table[decl.indices->0 as int]
            },
    )
}

/// The vertex layouts a primitive's pipeline binds, one per attribute.
pub open spec fn primitive_layouts(decl: PrimitiveDecl) -> Seq<VertexLayout>
    recommends
        all_supported(decl.attributes@),
{
    Seq::new(decl.attributes@.len(), |i: int| vertex_layout_spec(decl.attributes@[i].semantic))
}

/// The entry lists of a bind-group-layout list, in order.
pub open spec fn layouts_entries(bgls: Seq<BindGroupLayoutInfo>) -> Seq<
    Seq<crate::bindgroup::LayoutEntry>,
> {
    bgls.map_values(|b: BindGroupLayoutInfo| b.entries@)
}

/// Everything `Primitive::new` promises of a constructed primitive, over
/// the declaration, the partitioned view table and the entry lists of the
/// bind-group layouts its pipeline was built against.
pub open spec fn primitive_model_ok(
    p: Primitive,
    decl: PrimitiveDecl,
    table: Seq<ViewType>,
    bgl_entries: Seq<Seq<crate::bindgroup::LayoutEntry>>,
) -> bool {
    &&& p.views@ == primitive_views(decl, table)
    &&& p.pipeline.vertex_layouts@ == primitive_layouts(decl)
    &&& layouts_entries(p.pipeline.bind_group_layouts@) == bgl_entries
    &&& p.pipeline.state == fixed_pipeline_state()
}

/// A drawable unit: its pipeline description and the ordered view list it
/// binds at draw time.
#[derive(Clone, Debug, PartialEq, Eq)]
pub struct Primitive {
    pub pipeline: PipelineInfo,
    pub views: Vec<ViewType>,
}

impl Primitive {
    /// Builds one primitive from its declaration: one vertex layout per
    /// declared attribute, a pipeline bound to the supplied bind-group
    /// layouts, the attributes' views copied out of the partitioned table in
    /// order, and the index accessor's view appended last.
    pub fn new(
        decl: &PrimitiveDecl,
        bind_group_layouts: Vec<BindGroupLayoutInfo>,
        buffer_info: &ModelBufferInfo,
    ) -> (r: Result<Primitive, LoadError>)
        requires
            decl.accessors_in_bounds(buffer_info.views@.len() as int),
        ensures
            r is Ok <==> primitive_ok(*decl),
            r matches Ok(p) ==> {
                &&& p.views@ == primitive_views(*decl, buffer_info.views@)
                &&& p.views@.len() == decl.attributes@.len() + 1
                &&& forall|i: int|
                    0 <= i < decl.attributes@.len() ==> #[trigger] p.views@[i] == buffer_info.views@[
                        decl.attributes@[i].accessor as int
                    ]
                &&& p.views@.last() == buffer_info.views@[decl.indices->0 as int]
                &&& p.pipeline.vertex_layouts@ == primitive_layouts(*decl)
                &&& p.pipeline.bind_group_layouts == bind_group_layouts
                &&& p.pipeline.state == fixed_pipeline_state()
                &&& primitive_model_ok(
                    p,
                    *decl,
                    buffer_info.views@,
                    layouts_entries(bind_group_layouts@),
                )
            },
            r matches Err(e) ==> e == primitive_error(*decl),
    {
        let n = decl.attributes.len();
        let mut layouts: Vec<VertexLayout> = Vec::new();
        let mut i: usize = 0;
        while i < n
            invariant
                i <= n,
                n == decl.attributes@.len(),
                all_supported(decl.attributes@.take(i as int)),
                layouts@.len() == i,
                forall|k: int|
                    0 <= k < i ==> #[trigger] layouts@[k] == vertex_layout_spec(
                        decl.attributes@[k].semantic,
                    ),
            decreases n - i,
        {
            let a = decl.attributes[i];
            match vertex_layout_for(a.semantic) {
                Ok(l) => {
                    layouts.push(l);
                },
                Err(e) => {
                    proof {
                        assert(!supported(decl.attributes@[i as int].semantic));
                        assert(!all_supported(decl.attributes@));
                    }
                    return Err(e);
                },
            }
            proof {
                assert(forall|k: int|
                    0 <= k < i + 1 ==> supported(
                        (#[trigger] decl.attributes@.take(i as int + 1)[k]).semantic,
                    ));
            }
            i += 1;
        }
        proof {
            assert(decl.attributes@.take(n as int) =~= decl.attributes@);
            assert(layouts@ =~= primitive_layouts(*decl));
        }
        let pipeline = pipeline::create(layouts, bind_group_layouts);

        let mut views: Vec<ViewType> = Vec::new();
        let mut j: usize = 0;
        while j < n
            invariant
                j <= n,
                n == decl.attributes@.len(),
                decl.accessors_in_bounds(buffer_info.views@.len() as int),
                views@.len() == j,
                forall|k: int|
                    0 <= k < j ==> #[trigger] views@[k] == buffer_info.views@[
                        decl.attributes@[k].accessor as int
                    ],
            decreases n - j,
        {
            let a = decl.attributes[j];
            let v = buffer_info.views[a.accessor];
            views.push(v);
            j += 1;
        }
        match decl.indices {
            None => Err(LoadError::MissingIndices),
            Some(idx) => {
                let v = buffer_info.views[idx];
                views.push(v);
                proof {
                    assert(views@ =~= primitive_views(*decl, buffer_info.views@));
                }
                Ok(Primitive { pipeline, views })
            },
        }
    }

    /// The draw replay of this primitive: bind the pipeline, then walk the
    /// recorded views in order, binding each vertex view to the next
    /// vertex-buffer slot and the index view as the 16-bit index buffer,
    /// which immediately triggers a draw of `length / 2` indices.
    pub fn render(&self) -> (r: Vec<RenderCommand>)
        requires
            self.views@.len() <= u32::MAX,
        ensures
            r@ == primitive_commands(self.views@),
    {
        let mut out: Vec<RenderCommand> = Vec::new();
        out.push(RenderCommand::SetPipeline);
        let n = self.views.len();
        let mut i: usize = 0;
        while i < n
            invariant
                i <= n,
                n == self.views@.len() <= u32::MAX,
                out@ == seq![RenderCommand::SetPipeline] + views_commands(
                    self.views@.take(i as int),
                ),
            decreases n - i,
        {
            let ghost pre = self.views@.take(i as int);
            let ghost cur = self.views@.take(i as int + 1);
            proof {
                assert(cur.drop_last() =~= pre);
                assert(cur.last() == self.views@[i as int]);
            }
            match self.views[i] {
                ViewType::Vertex(info) => {
                    out.push(
                        RenderCommand::SetVertexBuffer {
                            slot: i as u32,
                            offset: info.offset,
                            length: info.length,
                        },
                    );
                },
                ViewType::Index(info) => {
                    out.push(
                        RenderCommand::SetIndexBuffer {
                            offset: info.offset,
                            length: info.length,
                            format: IndexFormat::Uint16,
                        },
                    );
                    out.push(
                        RenderCommand::DrawIndexed {
                            index_count: info.length / 2,
                            instance_count: 1,
                        },
                    );
                },
            }
            proof {
                assert(out@ =~= seq![RenderCommand::SetPipeline] + views_commands(cur));
            }
            i += 1;
        }
        proof {
            assert(self.views@.take(n as int) =~= self.views@);
        }
        out
    }
}

/// The commands one view contributes when it sits at position `slot` of the
/// recorded list.
pub open spec fn view_commands(v: ViewType, slot: int) -> Seq<RenderCommand> {
    match v {
        ViewType::Vertex(info) => seq![
            RenderCommand::SetVertexBuffer {
                slot: slot as u32,
                offset: info.offset,
                length: info.length,
            },
        ],
        ViewType::Index(info) => seq![
            RenderCommand::SetIndexBuffer {
                offset: info.offset,
                length: info.length,
                format: IndexFormat::Uint16,
            },
            RenderCommand::DrawIndexed { index_count: (info.length / 2) as u64, instance_count: 1 },
        ],
    }
}

/// The commands a recorded view list contributes, in order.
pub open spec fn views_commands(views: Seq<ViewType>) -> Seq<RenderCommand>
    decreases views.len(),
{
    if views.len() == 0 {
        Seq::empty()
    } else {
        views_commands(views.drop_last()) + view_commands(views.last(), views.len() - 1)
    }
}

/// The full draw replay of a primitive with the given recorded views.
pub open spec fn primitive_commands(views: Seq<ViewType>) -> Seq<RenderCommand> {
    seq![RenderCommand::SetPipeline] + views_commands(views)
}

/// For a primitive built from a declaration whose attribute accessors name
/// vertex-routed views and whose index accessor names an index-routed view,
/// the recorded list ends with the index view and holds nothing but vertex
/// views before it, however many attributes precede it.
pub proof fn lemma_index_view_last(decl: PrimitiveDecl, table: Seq<ViewType>)
    requires
        primitive_ok(decl),
        decl.accessors_in_bounds(table.len() as int),
        table[decl.indices->0 as int] is Index,
        forall|k: int|
            0 <= k < decl.attributes@.len() ==> table[(#[trigger] decl.attributes@[k]).accessor
                as int] is Vertex,
    ensures
        primitive_views(decl, table).len() == decl.attributes@.len() + 1,
        primitive_views(decl, table).last() is Index,
        forall|i: int|
            0 <= i < primitive_views(decl, table).len() - 1 ==> #[trigger] primitive_views(
                decl,
                table,
            )[i] is Vertex,
{
}

/// The draw replay of a well-formed recorded list: the pipeline bind first,
/// the vertex views bound to successively numbered slots in order, then the
/// index view bound 16-bit wide, then exactly one draw of `length / 2`
/// indices.  Nothing else is replayed.
pub proof fn lemma_render_order(views: Seq<ViewType>)
    requires
        views.len() >= 1,
        views.last() is Index,
        forall|i: int| 0 <= i < views.len() - 1 ==> (#[trigger] views[i]) is Vertex,
    ensures
        primitive_commands(views).len() == views.len() + 2,
        primitive_commands(views)[0] == RenderCommand::SetPipeline,
        forall|i: int|
            0 <= i < views.len() - 1 ==> #[trigger] primitive_commands(views)[i + 1]
                == (RenderCommand::SetVertexBuffer {
                slot: i as u32,
                offset: views[i].info().offset,
                length: views[i].info().length,
            }),
        primitive_commands(views)[views.len() as int] == (RenderCommand::SetIndexBuffer {
            offset: views.last().info().offset,
            length: views.last().info().length,
            format: IndexFormat::Uint16,
        }),
        primitive_commands(views)[views.len() as int + 1] == (RenderCommand::DrawIndexed {
            index_count: (views.last().info().length / 2) as u64,
            instance_count: 1,
        }),
{
    let front = views.drop_last();
    lemma_vertex_commands(front);
    assert(views_commands(views) == views_commands(front) + view_commands(
        views.last(),
        views.len() - 1,
    ));
}

/// An all-vertex list contributes exactly one slot-numbered vertex bind per
/// view.
proof fn lemma_vertex_commands(views: Seq<ViewType>)
    requires
        forall|i: int| 0 <= i < views.len() ==> (#[trigger] views[i]) is Vertex,
    ensures
        views_commands(views).len() == views.len(),
        forall|i: int|
            0 <= i < views.len() ==> #[trigger] views_commands(views)[i]
                == (RenderCommand::SetVertexBuffer {
                slot: i as u32,
                offset: views[i].info().offset,
                length: views[i].info().length,
            }),
    decreases views.len(),
{
    if views.len() > 0 {
        let front = views.drop_last();
        assert(forall|i: int| 0 <= i < front.len() ==> (#[trigger] front[i]) is Vertex);
        lemma_vertex_commands(front);
    }
}

} // verus!
