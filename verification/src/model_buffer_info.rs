//! The buffer partitioner.
//!
//! The asset supplies one contiguous raw byte blob and a table of buffer
//! views laid out over it in declaration order.  Partitioning walks that
//! table with a single cursor that only ever advances, routes each view's
//! bytes to the vertex-usage or index-usage destination buffer selected by
//! its declared target, and records for every view a byte range into the
//! destination it was routed to.  The recorded table is indexed identically
//! to the asset's view table, regardless of routing.

use vstd::prelude::*;

use crate::asset::{BufferViewDecl, Target};
use crate::error::LoadError;
use crate::view::{ViewInfo, ViewType};

verus! {

/// The sum of all declared view lengths: how many bytes of the raw blob the
/// partitioner consumes.
pub open spec fn total_len(decls: Seq<BufferViewDecl>) -> int
    decreases decls.len(),
{
    if decls.len() == 0 {
        0
    } else {
        total_len(decls.drop_last()) + decls.last().length
    }
}

/// The sum of the lengths of the views routed to destination `t`: the size
/// of that destination buffer.
pub open spec fn routed_len(decls: Seq<BufferViewDecl>, t: Target) -> int
    decreases decls.len(),
{
    if decls.len() == 0 {
        0
    } else {
        routed_len(decls.drop_last(), t) + if decls.last().target == Some(t) {
            decls.last().length as int
        } else {
            0
        }
    }
}

/// Every declared view carries a usage target.
pub open spec fn all_targeted(decls: Seq<BufferViewDecl>) -> bool {
    forall|i: int| 0 <= i < decls.len() ==> (#[trigger] decls[i]).target is Some
}

/// Partitioning succeeds exactly when every view has a target and the views'
/// lengths fit inside the raw blob.
pub open spec fn partition_ok(decls: Seq<BufferViewDecl>, raw: Seq<u8>) -> bool {
    all_targeted(decls) && total_len(decls) <= raw.len()
}

/// The error partitioning reports: the one raised by the first offending
/// view in table order, with a missing target reported before an overrun of
/// the same view.
pub open spec fn partition_error(decls: Seq<BufferViewDecl>, raw_len: int) -> LoadError
    decreases decls.len(),
{
    if decls.len() == 0 {
        arbitrary()
    } else {
        let front = decls.drop_last();
        if !all_targeted(front) || total_len(front) > raw_len {
            partition_error(front, raw_len)
        } else if decls.last().target is None {
            LoadError::ViewWithoutTarget
        } else {
            LoadError::CursorOverrun
        }
    }
}

/// The bytes routed to destination `t`: the concatenation, in table order,
/// of the raw ranges of the views targeted at `t`.
pub open spec fn routed_bytes(decls: Seq<BufferViewDecl>, raw: Seq<u8>, t: Target) -> Seq<u8>
    decreases decls.len(),
{
    if decls.len() == 0 {
        Seq::empty()
    } else {
        let front = decls.drop_last();
        let pre = routed_bytes(front, raw, t);
        if decls.last().target == Some(t) {
            pre + raw.subrange(total_len(front), total_len(front) + decls.last().length)
        } else {
            pre
        }
    }
}

/// The recorded entry for view `i`: the view's declared length, at an offset
/// equal to the length of everything routed to the same destination before
/// it.
pub open spec fn view_entry(decls: Seq<BufferViewDecl>, i: int) -> ViewType
    recommends
        0 <= i < decls.len(),
        decls[i].target is Some,
{
    match decls[i].target {
        Some(Target::Vertex) => ViewType::Vertex(
            ViewInfo {
                length: decls[i].length as u64,
                offset: routed_len(decls.take(i), Target::Vertex) as u64,
            },
        ),
        Some(Target::Index) => ViewType::Index(
            ViewInfo {
                length: decls[i].length as u64,
                offset: routed_len(decls.take(i), Target::Index) as u64,
            },
        ),
        None => arbitrary(),
    }
}

/// The whole recorded view table.
pub open spec fn view_model(decls: Seq<BufferViewDecl>) -> Seq<ViewType>
    decreases decls.len(),
{
    if decls.len() == 0 {
        Seq::empty()
    } else {
        view_model(decls.drop_last()).push(view_entry(decls, decls.len() - 1))
    }
}

/// The destination a recorded view was routed to.
pub open spec fn dest_of(v: ViewType) -> Target {
    match v {
        ViewType::Vertex(_) => Target::Vertex,
        ViewType::Index(_) => Target::Index,
    }
}

pub broadcast proof fn lemma_view_model_len(decls: Seq<BufferViewDecl>)
    ensures
        #[trigger] view_model(decls).len() == decls.len(),
    decreases decls.len(),
{
    if decls.len() > 0 {
        lemma_view_model_len(decls.drop_last());
    }
}

/// Entry `i` of the recorded table depends only on the declarations up to
/// and including `i`.
pub proof fn lemma_view_model_index(decls: Seq<BufferViewDecl>, i: int)
    requires
        0 <= i < decls.len(),
    ensures
        view_model(decls)[i] == view_entry(decls, i),
    decreases decls.len(),
{
    broadcast use lemma_view_model_len;

    let front = decls.drop_last();
    if i == decls.len() - 1 {
    } else {
        lemma_view_model_index(front, i);
        assert(front.take(i) =~= decls.take(i));
        assert(view_entry(front, i) == view_entry(decls, i));
    }
}

/// Prefixes consume no more than extensions.
pub proof fn lemma_total_len_take_mono(decls: Seq<BufferViewDecl>, i: int, j: int)
    requires
        0 <= i <= j <= decls.len(),
    ensures
        total_len(decls.take(i)) <= total_len(decls.take(j)),
    decreases j - i,
{
    if i < j {
        lemma_total_len_take_mono(decls, i, j - 1);
        assert(decls.take(j).drop_last() =~= decls.take(j - 1));
    }
}

/// A destination grows monotonically along the table.
pub proof fn lemma_routed_len_take_mono(decls: Seq<BufferViewDecl>, i: int, j: int, t: Target)
    requires
        0 <= i <= j <= decls.len(),
    ensures
        routed_len(decls.take(i), t) <= routed_len(decls.take(j), t),
    decreases j - i,
{
    if i < j {
        lemma_routed_len_take_mono(decls, i, j - 1, t);
        assert(decls.take(j).drop_last() =~= decls.take(j - 1));
    }
}

/// A destination holds no more than everything consumed.
pub proof fn lemma_routed_le_total(decls: Seq<BufferViewDecl>, t: Target)
    ensures
        0 <= routed_len(decls, t) <= total_len(decls),
    decreases decls.len(),
{
    if decls.len() > 0 {
        lemma_routed_le_total(decls.drop_last(), t);
    }
}

/// When every view has a target, the two destinations together hold exactly
/// what was consumed.
pub proof fn lemma_routed_split(decls: Seq<BufferViewDecl>)
    requires
        all_targeted(decls),
    ensures
        routed_len(decls, Target::Vertex) + routed_len(decls, Target::Index) == total_len(decls),
    decreases decls.len(),
{
    if decls.len() > 0 {
        assert(all_targeted(decls.drop_last())) by {
            assert(forall|i: int|
                0 <= i < decls.len() - 1 ==> decls.drop_last()[i] == decls[i]);
        }
        lemma_routed_split(decls.drop_last());
        assert((#[trigger] decls[decls.len() - 1]).target is Some);
        let last = decls.last();
        assert(last == decls[decls.len() - 1]);
        match last.target {
            Some(Target::Vertex) => {
                assert(routed_len(decls, Target::Vertex) == routed_len(
                    decls.drop_last(),
                    Target::Vertex,
                ) + last.length);
                assert(routed_len(decls, Target::Index) == routed_len(
                    decls.drop_last(),
                    Target::Index,
                ));
            },
            Some(Target::Index) => {
                assert(routed_len(decls, Target::Index) == routed_len(
                    decls.drop_last(),
                    Target::Index,
                ) + last.length);
                assert(routed_len(decls, Target::Vertex) == routed_len(
                    decls.drop_last(),
                    Target::Vertex,
                ));
            },
            None => {
                assert(false);
            },
        }
    }
}

/// A failing prefix keeps any extension failing, with the same error.
proof fn lemma_partition_error_extend(decls: Seq<BufferViewDecl>, raw: Seq<u8>, i: int, j: int)
    requires
        0 < i <= j <= decls.len(),
        !partition_ok(decls.take(i), raw),
    ensures
        !partition_ok(decls.take(j), raw),
        partition_error(decls.take(j), raw.len() as int) == partition_error(
            decls.take(i),
            raw.len() as int,
        ),
    decreases j - i,
{
    if i == j {
    } else {
        lemma_partition_error_extend(decls, raw, i, j - 1);
        assert(decls.take(j).drop_last() =~= decls.take(j - 1));
        if all_targeted(decls.take(j)) {
            assert(forall|k: int|
                0 <= k < i ==> (#[trigger] decls.take(i)[k]).target == decls.take(j)[k].target);
            assert(all_targeted(decls.take(i)));
        }
        lemma_total_len_take_mono(decls, i, j);
    }
}

/// Copies `len` bytes of `src` starting at `start` onto the end of `dest`.
fn copy_range(dest: &mut Vec<u8>, src: &Vec<u8>, start: usize, len: usize)
    requires
        start + len <= src@.len(),
    ensures
        final(dest)@ == old(dest)@ + src@.subrange(start as int, start as int + len as int),
{
    let src_len = src.len();
    let mut j: usize = 0;
    while j < len
        invariant
            j <= len,
            start + len <= src@.len(),
            src_len == src@.len(),
            dest@ == old(dest)@ + src@.subrange(start as int, start as int + j as int),
        decreases len - j,
    {
        let b = src[start + j];
        dest.push(b);
        assert(dest@ =~= old(dest)@ + src@.subrange(start as int, start as int + j as int + 1));
        j += 1;
    }
}

/// The partitioned form of one loaded asset: the two destination buffers'
/// contents, staged for upload, and the recorded view table, indexed
/// identically to the asset's buffer-view table.  Produced once per loaded
/// asset and immutable afterwards.
#[derive(Clone, Debug, PartialEq, Eq)]
pub struct ModelBufferInfo {
    pub vertex_data: Vec<u8>,
    pub index_data: Vec<u8>,
    pub views: Vec<ViewType>,
}

impl ModelBufferInfo {
    /// Partitions the raw blob over the declared view table.
    ///
    /// On success, every declared view is recorded under its table index
    /// with its declared length and an offset equal to the bytes already
    /// routed to the same destination, and each destination buffer is the
    /// byte-for-byte concatenation, in table order, of the raw ranges of the
    /// views routed to it.  Exactly the sum of the declared lengths is
    /// consumed, and never a byte past the end of the raw blob.  It fails
    /// exactly when a view lacks a usage target or the cursor would run past
    /// the blob's end, reporting the first such view's error.
    pub fn new(decls: &Vec<BufferViewDecl>, raw: &Vec<u8>) -> (r: Result<
        ModelBufferInfo,
        LoadError,
    >)
        ensures
            r is Ok <==> partition_ok(decls@, raw@),
            r matches Ok(m) ==> {
                &&& m.views@ == view_model(decls@)
                &&& m.views@.len() == decls@.len()
                &&& forall|i: int|
                    0 <= i < decls@.len() ==> m.views@[i] == view_entry(decls@, i)
                &&& m.vertex_data@ == routed_bytes(decls@, raw@, Target::Vertex)
                &&& m.index_data@ == routed_bytes(decls@, raw@, Target::Index)
                &&& m.vertex_data@.len() == routed_len(decls@, Target::Vertex)
                &&& m.index_data@.len() == routed_len(decls@, Target::Index)
                &&& m.vertex_data@.len() + m.index_data@.len() == total_len(decls@)
                &&& total_len(decls@) <= raw@.len()
            },
            r matches Err(e) ==> e == partition_error(decls@, raw@.len() as int),
    {
        let ghost gd = decls@;
        let mut vertex_data: Vec<u8> = Vec::new();
        let mut index_data: Vec<u8> = Vec::new();
        let mut views: Vec<ViewType> = Vec::new();
        let mut cursor: usize = 0;
        let n = decls.len();
        let mut i: usize = 0;
        while i < n
            invariant
                i <= n,
                n == gd.len(),
                gd == decls@,
                all_targeted(gd.take(i as int)),
                cursor == total_len(gd.take(i as int)),
                cursor <= raw@.len(),
                vertex_data@ == routed_bytes(gd.take(i as int), raw@, Target::Vertex),
                index_data@ == routed_bytes(gd.take(i as int), raw@, Target::Index),
                vertex_data@.len() == routed_len(gd.take(i as int), Target::Vertex),
                index_data@.len() == routed_len(gd.take(i as int), Target::Index),
                views@ == view_model(gd.take(i as int)),
            decreases n - i,
        {
            let ghost pre = gd.take(i as int);
            let ghost cur = gd.take(i as int + 1);
            proof {
                assert(cur.drop_last() =~= pre);
                assert(cur.last() == gd[i as int]);
            }
            let d = decls[i];
            match d.target {
                None => {
                    proof {
                        assert(!partition_ok(cur, raw@));
                        assert(partition_error(cur, raw@.len() as int)
                            == LoadError::ViewWithoutTarget);
                        lemma_partition_error_extend(gd, raw@, i as int + 1, gd.len() as int);
                        assert(gd.take(gd.len() as int) =~= gd);
                    }
                    return Err(LoadError::ViewWithoutTarget);
                },
                Some(t) => {
                    let len = d.length;
                    if len > raw.len() - cursor {
                        proof {
                            assert(total_len(cur) == cursor + len > raw@.len());
                            assert(!partition_ok(cur, raw@));
                            assert(partition_error(cur, raw@.len() as int)
                                == LoadError::CursorOverrun);
                            lemma_partition_error_extend(gd, raw@, i as int + 1, gd.len() as int);
                            assert(gd.take(gd.len() as int) =~= gd);
                        }
                        return Err(LoadError::CursorOverrun);
                    }
                    match t {
                        Target::Vertex => {
                            let offset = vertex_data.len();
                            views.push(ViewType::Vertex(ViewInfo::new(len as u64, offset as u64)));
                            copy_range(&mut vertex_data, raw, cursor, len);
                            proof {
                                assert(view_entry(gd, i as int) == ViewType::Vertex(
                                    ViewInfo { length: len as u64, offset: offset as u64 },
                                ));
                                assert(views@ =~= view_model(cur));
                            }
                        },
                        Target::Index => {
                            let offset = index_data.len();
                            views.push(ViewType::Index(ViewInfo::new(len as u64, offset as u64)));
                            copy_range(&mut index_data, raw, cursor, len);
                            proof {
                                assert(view_entry(gd, i as int) == ViewType::Index(
                                    ViewInfo { length: len as u64, offset: offset as u64 },
                                ));
                                assert(views@ =~= view_model(cur));
                            }
                        },
                    }
                    cursor = cursor + len;
                },
            }
            i += 1;
        }
        proof {
            assert(gd.take(n as int) =~= gd);
            lemma_routed_split(gd);
            broadcast use lemma_view_model_len;

            assert(forall|k: int|
                0 <= k < gd.len() ==> view_model(gd)[k] == view_entry(gd, k)) by {
                assert forall|k: int| 0 <= k < gd.len() implies view_model(gd)[k] == view_entry(
                    gd,
                    k,
                ) by {
                    lemma_view_model_index(gd, k);
                }
            }
        }
        Ok(ModelBufferInfo { vertex_data, index_data, views })
    }
}

/// Views routed to the same destination occupy pairwise disjoint ranges:
/// the earlier view's range ends no later than the later view's begins.
pub proof fn lemma_views_disjoint(decls: Seq<BufferViewDecl>, raw: Seq<u8>, i: int, j: int)
    requires
        partition_ok(decls, raw),
        raw.len() <= u64::MAX,
        0 <= i < j < decls.len(),
        dest_of(view_entry(decls, i)) == dest_of(view_entry(decls, j)),
    ensures
        view_entry(decls, i).info().offset + view_entry(decls, i).info().length <= view_entry(
            decls,
            j,
        ).info().offset,
{
    let t = dest_of(view_entry(decls, i));
    lemma_entry_bounds(decls, raw, i);
    lemma_entry_bounds(decls, raw, j);
    assert(decls.take(i + 1).drop_last() =~= decls.take(i));
    assert(decls.take(i + 1).last() == decls[i]);
    assert(routed_len(decls.take(i + 1), t) == routed_len(decls.take(i), t)
        + decls[i].length);
    lemma_routed_len_take_mono(decls, i + 1, j, t);
}

/// Bounds for one recorded entry: its offset is the same-destination prefix
/// length, and offset plus length stays inside the destination buffer.
pub proof fn lemma_entry_bounds(decls: Seq<BufferViewDecl>, raw: Seq<u8>, i: int)
    requires
        partition_ok(decls, raw),
        raw.len() <= u64::MAX,
        0 <= i < decls.len(),
    ensures
        view_entry(decls, i).info().length == decls[i].length,
        view_entry(decls, i).info().offset == routed_len(decls.take(i), dest_of(view_entry(decls, i))),
        view_entry(decls, i).info().offset + view_entry(decls, i).info().length <= routed_len(
            decls,
            dest_of(view_entry(decls, i)),
        ),
        routed_len(decls, dest_of(view_entry(decls, i))) <= total_len(decls) <= raw.len(),
{
    let t = dest_of(view_entry(decls, i));
    lemma_routed_le_total(decls, t);
    lemma_routed_le_total(decls.take(i), t);
    lemma_total_len_take_mono(decls, i, decls.len() as int);
    assert(decls.take(decls.len() as int) =~= decls);
    assert(decls.take(i + 1).drop_last() =~= decls.take(i));
    assert(decls.take(i + 1).last() == decls[i]);
    assert(routed_len(decls.take(i + 1), t) == routed_len(decls.take(i), t) + decls[i].length);
    lemma_routed_len_take_mono(decls, i + 1, decls.len() as int, t);
    lemma_routed_le_total(decls.take(i + 1), t);
    lemma_total_len_take_mono(decls, 0, i);
}

/// Between two consecutive views of one destination there is no gap: sorted
/// by offset, the ranges pack that destination contiguously from offset 0 up
/// to its total size.
pub proof fn lemma_views_contiguous(decls: Seq<BufferViewDecl>, raw: Seq<u8>, i: int, j: int)
    requires
        partition_ok(decls, raw),
        raw.len() <= u64::MAX,
        0 <= i < j < decls.len(),
        dest_of(view_entry(decls, i)) == dest_of(view_entry(decls, j)),
        forall|k: int|
            i < k < j ==> dest_of(#[trigger] view_entry(decls, k)) != dest_of(
                view_entry(decls, i),
            ),
    ensures
        view_entry(decls, j).info().offset == view_entry(decls, i).info().offset + view_entry(
            decls,
            i,
        ).info().length,
{
    let t = dest_of(view_entry(decls, i));
    lemma_entry_bounds(decls, raw, i);
    lemma_entry_bounds(decls, raw, j);
    assert(decls.take(i + 1).drop_last() =~= decls.take(i));
    assert(decls.take(i + 1).last() == decls[i]);
    lemma_routed_constant_span(decls, i + 1, j, t);
}

/// The first view routed to a destination sits at offset 0.
pub proof fn lemma_first_view_offset(decls: Seq<BufferViewDecl>, raw: Seq<u8>, j: int)
    requires
        partition_ok(decls, raw),
        raw.len() <= u64::MAX,
        0 <= j < decls.len(),
        forall|k: int|
            0 <= k < j ==> dest_of(#[trigger] view_entry(decls, k)) != dest_of(
                view_entry(decls, j),
            ),
    ensures
        view_entry(decls, j).info().offset == 0,
{
    let t = dest_of(view_entry(decls, j));
    lemma_entry_bounds(decls, raw, j);
    lemma_routed_constant_span(decls, 0, j, t);
    assert(decls.take(0) =~= Seq::<BufferViewDecl>::empty());
}

/// Where a span of the table routes nothing to `t`, the `t`-destination does
/// not grow.
proof fn lemma_routed_constant_span(decls: Seq<BufferViewDecl>, a: int, b: int, t: Target)
    requires
        all_targeted(decls),
        0 <= a <= b <= decls.len(),
        forall|k: int|
            a <= k < b ==> dest_of(#[trigger] view_entry(decls, k)) != t,
    ensures
        routed_len(decls.take(b), t) == routed_len(decls.take(a), t),
    decreases b - a,
{
    if a < b {
        lemma_routed_constant_span(decls, a, b - 1, t);
        assert(decls.take(b).drop_last() =~= decls.take(b - 1));
        assert(decls.take(b).last() == decls[b - 1]);
        assert(dest_of(view_entry(decls, b - 1)) != t);
        assert(decls[b - 1].target != Some(t));
    }
}

} // verus!
