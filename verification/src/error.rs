//! Load-time failures.
//!
//! All of these abort scene construction entirely: a scene is either fully
//! drawable or not loaded at all, so there is no partial-success mode.

use vstd::prelude::*;

verus! {

/// The classified fatal load errors.  Each names the exact malformed-asset
/// condition that produced it.
#[derive(Clone, Copy, Debug, PartialEq, Eq, Structural)]
pub enum LoadError {
    /// A declared buffer view carries no usage target.
    ViewWithoutTarget,
    /// Reading a view's bytes would run past the end of the raw blob.
    CursorOverrun,
    /// The asset declares no default scene.
    NoDefaultScene,
    /// The asset declares no camera at all.
    NoCamera,
    /// The first declared camera is not a perspective camera.
    UnsupportedProjection,
    /// A primitive declares a vertex attribute outside position, normal and
    /// the first texture-coordinate set.
    UnsupportedAttribute,
    /// A primitive declares no index accessor; indexed geometry is mandatory.
    MissingIndices,
}

} // verus!
