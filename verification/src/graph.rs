//! The scene graph: the aggregate root and single entry point of loading.
//!
//! Loading is all-or-nothing: partition the raw blob over the view table,
//! require a default scene, require at least one camera and that the first
//! one is perspective, then walk the default scene's root nodes and build
//! one mesh per root node that carries one.  Child nodes are not traversed:
//! only root-level mesh nodes are loaded.  Any failure aborts the whole
//! load; no partial graph is ever observable.

use vstd::prelude::*;

use crate::asset::{Asset, CameraDecl, MeshDecl};
use crate::camera::{uniform_bind_group, Camera};
use crate::error::LoadError;
use crate::math::{mat_bytes, Mat4};
use crate::mesh::{mesh_error_from, mesh_model_ok, mesh_ok, Mesh};
use crate::model_buffer_info::{
    partition_error, partition_ok, routed_bytes, view_model, ModelBufferInfo,
};
use crate::asset::Target;

verus! {

/// The root node indices of the default scene.
pub open spec fn scene_nodes(asset: Asset) -> Seq<usize>
    recommends
        asset.default_scene is Some,
{
    asset.default_scene->0.nodes@
}

/// Whether root node `ni` carries a mesh.
pub open spec fn node_has_mesh(asset: Asset, ni: usize) -> bool {
    asset.nodes@[ni as int].mesh is Some
}

/// The mesh declaration root node `ni` carries.
pub open spec fn node_mesh_decl(asset: Asset, ni: usize) -> MeshDecl
    recommends
        node_has_mesh(asset, ni),
{
    asset.meshes@[asset.nodes@[ni as int].mesh->0 as int]
}

/// The root nodes among the first `i` that carry meshes, in scene order.
pub open spec fn mesh_nodes_upto(asset: Asset, i: int) -> Seq<usize>
    decreases i,
{
    if i <= 0 {
        Seq::empty()
    } else {
        let pre = mesh_nodes_upto(asset, i - 1);
        let ni = scene_nodes(asset)[i - 1];
        if node_has_mesh(asset, ni) {
            pre.push(ni)
        } else {
            pre
        }
    }
}

/// All mesh-carrying root nodes, in scene order: one mesh is built for each.
pub open spec fn mesh_node_list(asset: Asset) -> Seq<usize> {
    mesh_nodes_upto(asset, scene_nodes(asset).len() as int)
}

/// The projection matrix a perspective camera declares.
pub open spec fn projection_of(c: CameraDecl) -> Mat4
    recommends
        c is Perspective,
{
    match c {
        CameraDecl::Perspective(m) => m,
        CameraDecl::Orthographic => arbitrary(),
    }
}

/// A usable camera exists: at least one is declared and the first declared
/// one is perspective.
pub open spec fn camera_ok(asset: Asset) -> bool {
    asset.cameras@.len() > 0 && asset.cameras@[0] is Perspective
}

/// Every mesh-carrying root node's mesh loads.
pub open spec fn walk_ok(asset: Asset) -> bool {
    forall|k: int|
        0 <= k < scene_nodes(asset).len() ==> (node_has_mesh(
            asset,
            #[trigger] scene_nodes(asset)[k],
        ) ==> mesh_ok(node_mesh_decl(asset, scene_nodes(asset)[k])))
}

/// The error of the first failing mesh in the scene walk, from position `i`.
pub open spec fn walk_error_from(asset: Asset, i: int) -> LoadError
    recommends
        0 <= i <= scene_nodes(asset).len(),
    decreases scene_nodes(asset).len() - i,
{
    if i < 0 || i >= scene_nodes(asset).len() {
        arbitrary()
    } else {
        let ni = scene_nodes(asset)[i];
        if node_has_mesh(asset, ni) && !mesh_ok(node_mesh_decl(asset, ni)) {
            mesh_error_from(node_mesh_decl(asset, ni).primitives@, 0)
        } else {
            walk_error_from(asset, i + 1)
        }
    }
}

/// A clean walk prefix does not change which mesh fails first.
proof fn lemma_walk_error_skip(asset: Asset, i: int)
    requires
        0 <= i <= scene_nodes(asset).len(),
        forall|k: int|
            0 <= k < i ==> (node_has_mesh(asset, #[trigger] scene_nodes(asset)[k]) ==> mesh_ok(
                node_mesh_decl(asset, scene_nodes(asset)[k]),
            )),
    ensures
        walk_error_from(asset, 0) == walk_error_from(asset, i),
    decreases i,
{
    if i > 0 {
        lemma_walk_error_skip(asset, i - 1);
    }
}

/// Loading succeeds exactly when the partition succeeds, a default scene
/// and a usable camera exist, and every walked mesh loads.
pub open spec fn create_ok(asset: Asset, raw: Seq<u8>) -> bool {
    &&& partition_ok(asset.views@, raw)
    &&& asset.default_scene is Some
    &&& camera_ok(asset)
    &&& walk_ok(asset)
}

/// The error a failing load reports, in load order: partition errors first,
/// then the missing scene, then the camera checks, then the walk's first
/// failing mesh.
pub open spec fn create_error(asset: Asset, raw: Seq<u8>) -> LoadError {
    if !partition_ok(asset.views@, raw) {
        partition_error(asset.views@, raw.len() as int)
    } else if asset.default_scene is None {
        LoadError::NoDefaultScene
    } else if asset.cameras@.len() == 0 {
        LoadError::NoCamera
    } else if !(asset.cameras@[0] is Perspective) {
        LoadError::UnsupportedProjection
    } else {
        walk_error_from(asset, 0)
    }
}

/// The loaded scene: the partitioned buffers, the camera, and one mesh per
/// mesh-carrying root node, in scene order.
#[derive(Clone, Debug, PartialEq, Eq)]
pub struct Graph {
    pub buffer_info: ModelBufferInfo,
    pub meshes: Vec<Mesh>,
    pub camera: Camera,
}

impl Graph {
    /// Loads the whole scene from the asset description and its raw blob.
    ///
    /// In order: partitions the blob (failures propagate), requires the
    /// default scene, selects the first declared camera and requires it to
    /// be perspective, then builds one mesh per mesh-carrying root node.
    /// Returns the first error load order encounters; on success the graph
    /// holds exactly the partition, the camera resources, and the walked
    /// meshes.
    pub fn create(asset: &Asset, raw: &Vec<u8>) -> (r: Result<Graph, LoadError>)
        requires
            asset.wf(),
        ensures
            r is Ok <==> create_ok(*asset, raw@),
            r matches Err(e) ==> e == create_error(*asset, raw@),
            r matches Ok(g) ==> {
                &&& g.buffer_info.views@ == view_model(asset.views@)
                &&& g.buffer_info.views@.len() == asset.views@.len()
                &&& g.buffer_info.vertex_data@ == routed_bytes(asset.views@, raw@, Target::Vertex)
                &&& g.buffer_info.index_data@ == routed_bytes(asset.views@, raw@, Target::Index)
                &&& g.camera.uniform@ == mat_bytes(projection_of(asset.cameras@[0]))
                &&& uniform_bind_group(g.camera.bind_group)
                &&& g.meshes@.len() == mesh_node_list(*asset).len()
                &&& forall|k: int|
                    0 <= k < g.meshes@.len() ==> mesh_model_ok(
                        #[trigger] g.meshes@[k],
                        node_mesh_decl(*asset, mesh_node_list(*asset)[k]),
                        asset.nodes@[mesh_node_list(*asset)[k] as int],
                        g.camera,
                        g.buffer_info.views@,
                    )
            },
    {
        let buffer_info = match ModelBufferInfo::new(&asset.views, raw) {
            Ok(b) => b,
            Err(e) => {
                return Err(e);
            },
        };
        let scene = match &asset.default_scene {
            None => {
                return Err(LoadError::NoDefaultScene);
            },
            Some(s) => s,
        };
        if asset.cameras.len() == 0 {
            return Err(LoadError::NoCamera);
        }
        let camera0 = asset.cameras[0];
        let camera = match camera0 {
            CameraDecl::Orthographic => {
                return Err(LoadError::UnsupportedProjection);
            },
            CameraDecl::Perspective(m) => Camera::new(&m),
        };

        let n = scene.nodes.len();
        let mut meshes: Vec<Mesh> = Vec::new();
        let mut i: usize = 0;
        while i < n
            invariant
                i <= n,
                asset.wf(),
                asset.default_scene is Some,
                n == scene_nodes(*asset).len(),
                scene.nodes@ == scene_nodes(*asset),
                partition_ok(asset.views@, raw@),
                buffer_info.views@ == view_model(asset.views@),
                buffer_info.views@.len() == asset.views@.len(),
                camera_ok(*asset),
                camera.uniform@ == mat_bytes(projection_of(asset.cameras@[0])),
                uniform_bind_group(camera.bind_group),
                forall|k: int|
                    0 <= k < i ==> (node_has_mesh(*asset, #[trigger] scene_nodes(*asset)[k])
                        ==> mesh_ok(node_mesh_decl(*asset, scene_nodes(*asset)[k]))),
                meshes@.len() == mesh_nodes_upto(*asset, i as int).len(),
                forall|k: int|
                    0 <= k < meshes@.len() ==> mesh_model_ok(
                        #[trigger] meshes@[k],
                        node_mesh_decl(*asset, mesh_nodes_upto(*asset, i as int)[k]),
                        asset.nodes@[mesh_nodes_upto(*asset, i as int)[k] as int],
                        camera,
                        buffer_info.views@,
                    ),
            decreases n - i,
        {
            let ni = scene.nodes[i];
            let node = asset.nodes[ni];
            match node.mesh {
                Some(mi) => {
                    let mesh_decl = &asset.meshes[mi];
                    match Mesh::new(&camera, mesh_decl, &node, &buffer_info) {
                        Ok(mesh) => {
                            meshes.push(mesh);
                            proof {
                                assert(mesh_nodes_upto(*asset, i as int + 1)
                                    == mesh_nodes_upto(*asset, i as int).push(ni));
                            }
                        },
                        Err(e) => {
                            proof {
                                lemma_walk_error_skip(*asset, i as int);
                                assert(scene_nodes(*asset)[i as int] == ni);
                                assert(node_has_mesh(*asset, ni));
                                assert(!mesh_ok(node_mesh_decl(*asset, ni)));
                                assert(!walk_ok(*asset));
                                assert(walk_error_from(*asset, i as int) == mesh_error_from(
                                    node_mesh_decl(*asset, ni).primitives@,
                                    0,
                                ));
                            }
                            return Err(e);
                        },
                    }
                },
                None => {
                    proof {
                        assert(mesh_nodes_upto(*asset, i as int + 1) == mesh_nodes_upto(
                            *asset,
                            i as int,
                        ));
                    }
                },
            }
            i += 1;
        }
        Ok(Graph { buffer_info, meshes, camera })
    }
}

} // verus!
