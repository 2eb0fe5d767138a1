//! Byte-range descriptors into the two destination buffers.
//!
//! A `ViewInfo` is produced once at partition time and consumed read-only
//! thereafter: it names `length` bytes starting at `offset` inside one of the
//! two destination buffers (never inside the raw blob).  The destination is
//! carried by the `ViewType` tag.

use vstd::prelude::*;

verus! {

/// A byte range inside one destination buffer: `length` bytes at `offset`.
#[derive(Clone, Copy, Debug, PartialEq, Eq, Structural)]
pub struct ViewInfo {
    pub length: u64,
    pub offset: u64,
}

impl ViewInfo {
    pub fn new(length: u64, offset: u64) -> (r: ViewInfo)
        ensures
            r.length == length,
            r.offset == offset,
    {
        ViewInfo { length, offset }
    }
}

/// A view routed to the vertex-usage or to the index-usage destination buffer.
#[derive(Clone, Copy, Debug, PartialEq, Eq, Structural)]
pub enum ViewType {
    Vertex(ViewInfo),
    Index(ViewInfo),
}

impl ViewType {
    /// The byte range, independent of which destination buffer holds it.
    pub open spec fn info(self) -> ViewInfo {
        match self {
            ViewType::Vertex(i) => i,
            ViewType::Index(i) => i,
        }
    }

    pub open spec fn is_vertex(self) -> bool {
        self is Vertex
    }

    pub open spec fn is_index(self) -> bool {
        self is Index
    }
}

} // verus!
