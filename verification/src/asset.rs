//! The scene description as plain values.
//!
//! The loader's decisions depend only on what it reads out of the asset
//! container: the buffer-view table, the default scene's root node list, the
//! cameras' projection kinds, and each mesh's primitives with their attribute
//! semantics and accessor indices.  This module holds exactly that data, so
//! that every decision over it can be verified; the unverified import layer
//! fills it in from the parsed container, turning each node's local transform
//! into the model-matrix words the renderer uploads.

use vstd::prelude::*;

use crate::math::Mat4;

verus! {

/// The declared usage target of a buffer view: a source of vertex attributes
/// or a source of indices.
#[derive(Clone, Copy, Debug, PartialEq, Eq, Structural)]
pub enum Target {
    Vertex,
    Index,
}

/// One entry of the asset's buffer-view table: `length` bytes of the raw
/// blob, routed by the optional usage target.  Views are laid out
/// contiguously in declaration order over the raw blob.
#[derive(Clone, Copy, Debug, PartialEq, Eq, Structural)]
pub struct BufferViewDecl {
    pub length: usize,
    pub target: Option<Target>,
}

/// A vertex-attribute semantic.  The core supports positions, normals and
/// the first texture-coordinate set; anything else is a fatal load error.
#[derive(Clone, Copy, Debug, PartialEq, Eq, Structural)]
pub enum Semantic {
    Positions,
    Normals,
    TexCoords0,
    Unsupported,
}

/// One declared vertex attribute: its semantic and the accessor index that
/// selects the attribute's entry in the partitioned view table.
#[derive(Clone, Copy, Debug, PartialEq, Eq, Structural)]
pub struct AttributeDecl {
    pub semantic: Semantic,
    pub accessor: usize,
}

/// One drawable unit of a mesh: its vertex attributes in declaration order
/// and the optional index accessor.
#[derive(Clone, Debug, PartialEq, Eq)]
pub struct PrimitiveDecl {
    pub attributes: Vec<AttributeDecl>,
    pub indices: Option<usize>,
}

/// A declared mesh: its primitives in declaration order.
#[derive(Clone, Debug, PartialEq, Eq)]
pub struct MeshDecl {
    pub primitives: Vec<PrimitiveDecl>,
}

/// A scene node: the optional mesh it carries and its local transform,
/// already composed into model-matrix words by the numeric layer.
#[derive(Clone, Copy, Debug, PartialEq, Eq, Structural)]
pub struct NodeDecl {
    pub mesh: Option<usize>,
    pub matrix: Mat4,
}

/// The default scene: the indices of its root nodes, in order.
#[derive(Clone, Debug, PartialEq, Eq)]
pub struct SceneDecl {
    pub nodes: Vec<usize>,
}

/// A declared camera.  A perspective camera carries its projection matrix,
/// already derived from field of view, near/far planes and viewport aspect
/// by the numeric layer; orthographic cameras are unsupported.
#[derive(Clone, Copy, Debug, PartialEq, Eq, Structural)]
pub enum CameraDecl {
    Perspective(Mat4),
    Orthographic,
}

/// Everything the loader reads from the asset container.
#[derive(Clone, Debug, PartialEq, Eq)]
pub struct Asset {
    pub views: Vec<BufferViewDecl>,
    pub cameras: Vec<CameraDecl>,
    pub default_scene: Option<SceneDecl>,
    pub nodes: Vec<NodeDecl>,
    pub meshes: Vec<MeshDecl>,
}

impl PrimitiveDecl {
    /// Every accessor index of this primitive stays inside a view table of
    /// `n_views` entries.  Violating indices would make the loader index out
    /// of range, so they are ruled out up front.
    pub open spec fn accessors_in_bounds(self, n_views: int) -> bool {
        &&& forall|i: int|
            0 <= i < self.attributes@.len() ==> (#[trigger] self.attributes@[i]).accessor
                < n_views
        &&& self.indices is Some ==> self.indices->0 < n_views
    }
}

impl PrimitiveDecl {
    /// Decides `accessors_in_bounds` for a view table of `n_views` entries.
    pub fn check_accessors(&self, n_views: usize) -> (b: bool)
        ensures
            b == self.accessors_in_bounds(n_views as int),
    {
        let n = self.attributes.len();
        let mut i: usize = 0;
        while i < n
            invariant
                i <= n,
                n == self.attributes@.len(),
                forall|k: int|
                    0 <= k < i ==> (#[trigger] self.attributes@[k]).accessor < n_views,
            decreases n - i,
        {
            if self.attributes[i].accessor >= n_views {
                proof {
                    assert((#[trigger] self.attributes@[i as int]).accessor >= n_views);
                }
                return false;
            }
            i += 1;
        }
        match self.indices {
            Some(ix) => ix < n_views,
            None => true,
        }
    }
}

impl Asset {
    /// Structural validity of the cross-references inside the asset: scene
    /// roots name existing nodes, node mesh references name existing meshes,
    /// and every accessor index stays inside the view table.  A parsed
    /// container guarantees this; the loader requires it.
    pub open spec fn wf(self) -> bool {
        &&& self.default_scene matches Some(s) ==> forall|i: int|
            0 <= i < s.nodes@.len() ==> #[trigger] s.nodes@[i] < self.nodes@.len()
        &&& forall|i: int|
            0 <= i < self.nodes@.len() ==> ((#[trigger] self.nodes@[i]).mesh matches Some(m)
                ==> m < self.meshes@.len())
        &&& forall|i: int, j: int|
            0 <= i < self.meshes@.len() && 0 <= j < self.meshes@[i].primitives@.len()
                ==> (#[trigger] self.meshes@[i].primitives@[j]).accessors_in_bounds(
                self.views@.len() as int,
            )
    }

    /// Decides `wf`, so that an unverified caller can refuse a malformed
    /// asset before loading it.
    pub fn well_formed(&self) -> (b: bool)
        ensures
            b == self.wf(),
    {
        match &self.default_scene {
            Some(s) => {
                let n = s.nodes.len();
                let mut i: usize = 0;
                while i < n
                    invariant
                        i <= n,
                        n == s.nodes@.len(),
                        self.default_scene == Some(*s),
                        forall|k: int| 0 <= k < i ==> #[trigger] s.nodes@[k] < self.nodes@.len(),
                    decreases n - i,
                {
                    if s.nodes[i] >= self.nodes.len() {
                        proof {
                            let sd = self.default_scene->0;
                            assert(sd == *s);
                            assert(!(#[trigger] sd.nodes@[i as int] < self.nodes@.len()));
                            assert(!self.wf());
                        }
                        return false;
                    }
                    i += 1;
                }
            },
            None => {},
        }
        let n = self.nodes.len();
        let mut i: usize = 0;
        while i < n
            invariant
                i <= n,
                n == self.nodes@.len(),
                self.default_scene matches Some(s) ==> forall|k: int|
                    0 <= k < s.nodes@.len() ==> #[trigger] s.nodes@[k] < self.nodes@.len(),
                forall|k: int|
                    0 <= k < i ==> ((#[trigger] self.nodes@[k]).mesh matches Some(m) ==> m
                        < self.meshes@.len()),
            decreases n - i,
        {
            match self.nodes[i].mesh {
                Some(m) => {
                    if m >= self.meshes.len() {
                        proof {
                            assert((#[trigger] self.nodes@[i as int]).mesh->0
                                >= self.meshes@.len());
                        }
                        return false;
                    }
                },
                None => {},
            }
            i += 1;
        }
        let n_views = self.views.len();
        let nm = self.meshes.len();
        let mut i: usize = 0;
        while i < nm
            invariant
                i <= nm,
                nm == self.meshes@.len(),
                n_views == self.views@.len(),
                self.default_scene matches Some(s) ==> forall|k: int|
                    0 <= k < s.nodes@.len() ==> #[trigger] s.nodes@[k] < self.nodes@.len(),
                forall|k: int|
                    0 <= k < self.nodes@.len() ==> ((#[trigger] self.nodes@[k]).mesh matches Some(
                        m,
                    ) ==> m < self.meshes@.len()),
                forall|k: int, j: int|
                    0 <= k < i && 0 <= j < self.meshes@[k].primitives@.len()
                        ==> (#[trigger] self.meshes@[k].primitives@[j]).accessors_in_bounds(
                        self.views@.len() as int,
                    ),
            decreases nm - i,
        {
            let mesh = &self.meshes[i];
            let np = mesh.primitives.len();
            let mut j: usize = 0;
            while j < np
                invariant
                    j <= np,
                    0 <= i < nm,
                    nm == self.meshes@.len(),
                    n_views == self.views@.len(),
                    np == self.meshes@[i as int].primitives@.len(),
                    mesh == &self.meshes@[i as int],
                    forall|l: int|
                        0 <= l < j ==> (#[trigger] self.meshes@[i as int].primitives@[l]).accessors_in_bounds(
                            self.views@.len() as int,
                        ),
                decreases np - j,
            {
                if !mesh.primitives[j].check_accessors(n_views) {
                    proof {
                        assert(!(#[trigger] self.meshes@[i as int].primitives@[
                            j as int
                        ]).accessors_in_bounds(self.views@.len() as int));
                    }
                    return false;
                }
                j += 1;
            }
            i += 1;
        }
        true
    }
}

} // verus!
