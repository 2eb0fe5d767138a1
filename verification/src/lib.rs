//! Core of a small glTF scene renderer: the bookkeeping that turns a scene
//! description (buffer-view table, node hierarchy, cameras, mesh geometry)
//! into GPU-ready draw resources.
//!
//! The library computes and verifies everything that can be stated over plain
//! values: how the raw binary blob is partitioned into the two destination
//! buffers, which byte range every view occupies, how each primitive's vertex
//! layouts, pipeline description and view list are assembled, and the exact
//! order of the commands a draw replays.  Floating-point numerics (the matrix
//! and quaternion kernel) and the GPU/window layer itself live outside the
//! library; they hand values in and carry descriptions out.

pub mod asset;
pub mod bindgroup;
pub mod camera;
pub mod error;
pub mod graph;
pub mod math;
pub mod mesh;
pub mod model_buffer_info;
pub mod pipeline;
pub mod primitive;
pub mod view;
