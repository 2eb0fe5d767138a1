//! The scene's camera resources.
//!
//! The camera owns the serialized perspective projection matrix, staged as
//! its uniform resource, and the bind group exposing it to the vertex stage.
//! The projection itself is derived from field of view, near/far planes and
//! viewport aspect by the numeric layer, which hands the finished matrix
//! words in.

use vstd::prelude::*;

use crate::bindgroup::{
    create_bindgroup, BindGroupEntryInfo, BindGroupInfo, BindingKind, GroupEntry, LayoutEntry,
    Visibility,
};
use crate::math::{mat_bytes, Mat4};

verus! {

/// A bind group of exactly one uniform-buffer entry visible to the vertex
/// stage at binding slot 0: the shape both the camera and each mesh's
/// transform use.
pub open spec fn uniform_bind_group(bg: BindGroupInfo) -> bool {
    &&& bg.layout.entries@ == seq![
        LayoutEntry { binding: 0, visibility: Visibility::Vertex },
    ]
    &&& bg.group@ == seq![GroupEntry { binding: 0, resource: BindingKind::UniformBuffer }]
}

/// The camera: its serialized projection matrix, staged for upload as a
/// uniform resource, and the bind group exposing it to the vertex stage.
#[derive(Clone, Debug, PartialEq, Eq)]
pub struct Camera {
    pub uniform: Vec<u8>,
    pub bind_group: BindGroupInfo,
}

impl Camera {
    /// Stages the projection matrix as the camera's uniform resource and
    /// builds its vertex-stage bind group.
    pub fn new(projection: &Mat4) -> (r: Camera)
        ensures
            r.uniform@ == mat_bytes(*projection),
            r.uniform@.len() == 64,
            uniform_bind_group(r.bind_group),
    {
        let uniform = projection.data();
        let entries = vec![
            BindGroupEntryInfo::new(Visibility::Vertex, BindingKind::UniformBuffer),
        ];
        let bind_group = create_bindgroup(&entries);
        proof {
            assert(bind_group.layout.entries@ =~= seq![
                LayoutEntry { binding: 0, visibility: Visibility::Vertex },
            ]);
            assert(bind_group.group@ =~= seq![
                GroupEntry { binding: 0, resource: BindingKind::UniformBuffer },
            ]);
        }
        Camera { uniform, bind_group }
    }
}

} // verus!
