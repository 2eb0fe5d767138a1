//! The bind-group builder.
//!
//! A generic helper that turns an ordered list of (shader-visibility,
//! resource) pairs into a bind-group-layout and bind-group description:
//! entry `i` of the list is bound at binding slot `i`, as a uniform buffer
//! with no dynamic offset.  The GPU layer realizes the description verbatim.

use vstd::prelude::*;

verus! {

/// The shader stages a binding is visible to.
#[derive(Clone, Copy, Debug, PartialEq, Eq, Structural)]
pub enum Visibility {
    Vertex,
    Fragment,
    VertexFragment,
}

/// What a binding exposes.  The core only ever binds uniform buffers.
#[derive(Clone, Copy, Debug, PartialEq, Eq, Structural)]
pub enum BindingKind {
    UniformBuffer,
}

/// One requested binding: where it will be used and what it exposes.
#[derive(Clone, Copy, Debug, PartialEq, Eq, Structural)]
pub struct BindGroupEntryInfo {
    pub visibility: Visibility,
    pub resource: BindingKind,
}

impl BindGroupEntryInfo {
    pub fn new(visibility: Visibility, resource: BindingKind) -> (r: BindGroupEntryInfo)
        ensures
            r == (BindGroupEntryInfo { visibility, resource }),
    {
        BindGroupEntryInfo { visibility, resource }
    }
}

/// One layout entry: a uniform-buffer binding without dynamic offset at slot
/// `binding`, visible to `visibility`.
#[derive(Clone, Copy, Debug, PartialEq, Eq, Structural)]
pub struct LayoutEntry {
    pub binding: u32,
    pub visibility: Visibility,
}

/// One group entry: the resource bound at slot `binding`.
#[derive(Clone, Copy, Debug, PartialEq, Eq, Structural)]
pub struct GroupEntry {
    pub binding: u32,
    pub resource: BindingKind,
}

/// A described bind-group layout.
#[derive(Clone, Debug, PartialEq, Eq)]
pub struct BindGroupLayoutInfo {
    pub entries: Vec<LayoutEntry>,
}

impl BindGroupLayoutInfo {
    /// A fresh copy of this layout description, entry for entry.
    pub fn duplicate(&self) -> (r: BindGroupLayoutInfo)
        ensures
            r.entries@ == self.entries@,
    {
        let n = self.entries.len();
        let mut entries: Vec<LayoutEntry> = Vec::new();
        let mut i: usize = 0;
        while i < n
            invariant
                i <= n,
                n == self.entries@.len(),
                entries@ == self.entries@.take(i as int),
            decreases n - i,
        {
            entries.push(self.entries[i]);
            proof {
                assert(entries@ =~= self.entries@.take(i as int + 1));
            }
            i += 1;
        }
        proof {
            assert(self.entries@.take(n as int) =~= self.entries@);
        }
        BindGroupLayoutInfo { entries }
    }
}

/// A described layout together with the group that instantiates it.
#[derive(Clone, Debug, PartialEq, Eq)]
pub struct BindGroupInfo {
    pub layout: BindGroupLayoutInfo,
    pub group: Vec<GroupEntry>,
}

/// Builds the layout and group descriptions for an ordered entry list:
/// entry `i` lands at binding slot `i` with its visibility and resource
/// carried over unchanged.
pub fn create_bindgroup(entries: &Vec<BindGroupEntryInfo>) -> (r: BindGroupInfo)
    requires
        entries@.len() <= u32::MAX,
    ensures
        r.layout.entries@.len() == entries@.len(),
        r.group@.len() == entries@.len(),
        forall|i: int|
            0 <= i < entries@.len() ==> #[trigger] r.layout.entries@[i] == (LayoutEntry {
                binding: i as u32,
                visibility: entries@[i].visibility,
            }),
        forall|i: int|
            0 <= i < entries@.len() ==> #[trigger] r.group@[i] == (GroupEntry {
                binding: i as u32,
                resource: entries@[i].resource,
            }),
{
    let n = entries.len();
    let mut layout_entries: Vec<LayoutEntry> = Vec::new();
    let mut group_entries: Vec<GroupEntry> = Vec::new();
    let mut i: usize = 0;
    while i < n
        invariant
            i <= n,
            n == entries@.len() <= u32::MAX,
            layout_entries@.len() == i,
            group_entries@.len() == i,
            forall|k: int|
                0 <= k < i ==> #[trigger] layout_entries@[k] == (LayoutEntry {
                    binding: k as u32,
                    visibility: entries@[k].visibility,
                }),
            forall|k: int|
                0 <= k < i ==> #[trigger] group_entries@[k] == (GroupEntry {
                    binding: k as u32,
                    resource: entries@[k].resource,
                }),
        decreases n - i,
    {
        let e = entries[i];
        layout_entries.push(LayoutEntry { binding: i as u32, visibility: e.visibility });
        group_entries.push(GroupEntry { binding: i as u32, resource: e.resource });
        i += 1;
    }
    BindGroupInfo { layout: BindGroupLayoutInfo { entries: layout_entries }, group: group_entries }
}

} // verus!
