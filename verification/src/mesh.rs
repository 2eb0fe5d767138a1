//! One scene mesh.
//!
//! A mesh owns the serialized model matrix of its node, staged as a
//! per-object uniform, the bind group exposing it to the vertex stage, and
//! one primitive per geometric primitive the declaration carries.  Its draw
//! replay binds the transform bind group at group slot 0 and then replays
//! every primitive in declaration order.

use vstd::prelude::*;

use crate::asset::{MeshDecl, NodeDecl, PrimitiveDecl};
use crate::bindgroup::{create_bindgroup, BindGroupEntryInfo, BindGroupInfo, BindingKind,
    GroupEntry, LayoutEntry, Visibility};
use crate::camera::{uniform_bind_group, Camera};
use crate::error::LoadError;
use crate::math::mat_bytes;
use crate::model_buffer_info::ModelBufferInfo;
use crate::primitive::{primitive_commands, primitive_error, primitive_model_ok, primitive_ok,
    Primitive, RenderCommand};
use crate::view::ViewType;

verus! {

/// A mesh declaration loads exactly when each of its primitives does.
pub open spec fn mesh_ok(decl: MeshDecl) -> bool {
    forall|i: int|
        0 <= i < decl.primitives@.len() ==> primitive_ok(#[trigger] decl.primitives@[i])
}

/// The error a failing mesh reports: that of its first failing primitive,
/// scanning from position `i`.
pub open spec fn mesh_error_from(prims: Seq<PrimitiveDecl>, i: int) -> LoadError
    recommends
        0 <= i <= prims.len(),
    decreases prims.len() - i,
{
    if i < 0 || i >= prims.len() {
        arbitrary()
    } else if !primitive_ok(prims[i]) {
        primitive_error(prims[i])
    } else {
        mesh_error_from(prims, i + 1)
    }
}

/// A clean prefix does not change which primitive fails first.
pub proof fn lemma_mesh_error_skip(prims: Seq<PrimitiveDecl>, i: int)
    requires
        0 <= i <= prims.len(),
        forall|k: int| 0 <= k < i ==> primitive_ok(#[trigger] prims[k]),
    ensures
        mesh_error_from(prims, 0) == mesh_error_from(prims, i),
    decreases i,
{
    if i > 0 {
        lemma_mesh_error_skip(prims, i - 1);
    }
}

/// Everything `Mesh::new` promises of a constructed mesh, over the mesh and
/// node declarations, the camera and the partitioned view table.
pub open spec fn mesh_model_ok(
    m: Mesh,
    decl: MeshDecl,
    node: NodeDecl,
    camera: Camera,
    table: Seq<ViewType>,
) -> bool {
    &&& m.matrix == node.matrix
    &&& m.uniform@ == mat_bytes(node.matrix)
    &&& uniform_bind_group(m.transform_bind_group)
    &&& m.primitives@.len() == decl.primitives@.len()
    &&& forall|i: int|
        0 <= i < decl.primitives@.len() ==> primitive_model_ok(
            #[trigger] m.primitives@[i],
            decl.primitives@[i],
            table,
            seq![m.transform_bind_group.layout.entries@, camera.bind_group.layout.entries@],
        )
}

/// One scene mesh: its primitives, the transform bind group, and the node's
/// model matrix with its staged uniform serialization.
#[derive(Clone, Debug, PartialEq, Eq)]
pub struct Mesh {
    pub primitives: Vec<Primitive>,
    pub transform_bind_group: BindGroupInfo,
    pub matrix: crate::math::Mat4,
    pub uniform: Vec<u8>,
}

impl Mesh {
    /// Builds one mesh: stages the node's model matrix as the per-object
    /// uniform, builds the vertex-stage transform bind group, and constructs
    /// one primitive per declared primitive, each pipeline bound to this
    /// mesh's transform layout and the camera's layout, in that order.
    pub fn new(
        camera: &Camera,
        mesh_decl: &MeshDecl,
        node: &NodeDecl,
        buffer_info: &ModelBufferInfo,
    ) -> (r: Result<Mesh, LoadError>)
        requires
            forall|j: int|
                0 <= j < mesh_decl.primitives@.len()
                    ==> (#[trigger] mesh_decl.primitives@[j]).accessors_in_bounds(
                    buffer_info.views@.len() as int,
                ),
        ensures
            r is Ok <==> mesh_ok(*mesh_decl),
            r matches Ok(m) ==> mesh_model_ok(m, *mesh_decl, *node, *camera, buffer_info.views@),
            r matches Err(e) ==> e == mesh_error_from(mesh_decl.primitives@, 0),
    {
        let uniform = node.matrix.data();
        let entries = vec![
            BindGroupEntryInfo::new(Visibility::Vertex, BindingKind::UniformBuffer),
        ];
        let transform_bind_group = create_bindgroup(&entries);
        proof {
            assert(transform_bind_group.layout.entries@ =~= seq![
                LayoutEntry { binding: 0, visibility: Visibility::Vertex },
            ]);
            assert(transform_bind_group.group@ =~= seq![
                GroupEntry { binding: 0, resource: BindingKind::UniformBuffer },
            ]);
        }
        let ghost bgl_entries = seq![
            transform_bind_group.layout.entries@,
            camera.bind_group.layout.entries@,
        ];

        let n = mesh_decl.primitives.len();
        let mut primitives: Vec<Primitive> = Vec::new();
        let mut i: usize = 0;
        while i < n
            invariant
                i <= n,
                n == mesh_decl.primitives@.len(),
                forall|j: int|
                    0 <= j < n ==> (#[trigger] mesh_decl.primitives@[j]).accessors_in_bounds(
                        buffer_info.views@.len() as int,
                    ),
                forall|k: int| 0 <= k < i ==> primitive_ok(#[trigger] mesh_decl.primitives@[k]),
                bgl_entries == seq![
                    transform_bind_group.layout.entries@,
                    camera.bind_group.layout.entries@,
                ],
                primitives@.len() == i,
                forall|k: int|
                    0 <= k < i ==> primitive_model_ok(
                        #[trigger] primitives@[k],
                        mesh_decl.primitives@[k],
                        buffer_info.views@,
                        bgl_entries,
                    ),
        decreases n - i,
        {
            let decl = &mesh_decl.primitives[i];
            let bgls = vec![
                transform_bind_group.layout.duplicate(),
                camera.bind_group.layout.duplicate(),
            ];
            proof {
                assert(crate::primitive::layouts_entries(bgls@) =~~= bgl_entries);
            }
            match Primitive::new(decl, bgls, buffer_info) {
                Ok(p) => {
                    primitives.push(p);
                },
                Err(e) => {
                    proof {
                        lemma_mesh_error_skip(mesh_decl.primitives@, i as int);
                    }
                    return Err(e);
                },
            }
            i += 1;
        }
        Ok(Mesh { primitives, transform_bind_group, matrix: node.matrix, uniform })
    }

    /// The draw replay of this mesh: bind the transform bind group at group
    /// slot 0, then replay every primitive in declaration order.
    pub fn render(&self) -> (r: Vec<RenderCommand>)
        requires
            forall|i: int|
                0 <= i < self.primitives@.len() ==> (#[trigger] self.primitives@[i]).views@.len()
                    <= u32::MAX,
        ensures
            r@ == mesh_commands(self.primitives@),
    {
        let mut out: Vec<RenderCommand> = Vec::new();
        out.push(RenderCommand::SetBindGroup { slot: 0 });
        let n = self.primitives.len();
        let mut i: usize = 0;
        while i < n
            invariant
                i <= n,
                n == self.primitives@.len(),
                forall|k: int|
                    0 <= k < n ==> (#[trigger] self.primitives@[k]).views@.len() <= u32::MAX,
                out@ == seq![RenderCommand::SetBindGroup { slot: 0 }] + prims_commands(
                    self.primitives@.take(i as int),
                ),
            decreases n - i,
        {
            let p = &self.primitives[i];
            let mut cmds = p.render();
            out.append(&mut cmds);
            proof {
                let cur = self.primitives@.take(i as int + 1);
                assert(cur.drop_last() =~= self.primitives@.take(i as int));
                assert(cur.last() == self.primitives@[i as int]);
                assert(out@ =~= seq![RenderCommand::SetBindGroup { slot: 0 }] + prims_commands(
                    cur,
                ));
            }
            i += 1;
        }
        proof {
            assert(self.primitives@.take(n as int) =~= self.primitives@);
        }
        out
    }
}

/// The concatenated draw replays of a primitive list, in order.
pub open spec fn prims_commands(prims: Seq<Primitive>) -> Seq<RenderCommand>
    decreases prims.len(),
{
    if prims.len() == 0 {
        Seq::empty()
    } else {
        prims_commands(prims.drop_last()) + primitive_commands(prims.last().views@)
    }
}

/// The full draw replay of a mesh: its transform bind first, then its
/// primitives' replays in order.
pub open spec fn mesh_commands(prims: Seq<Primitive>) -> Seq<RenderCommand> {
    seq![RenderCommand::SetBindGroup { slot: 0 }] + prims_commands(prims)
}

} // verus!
