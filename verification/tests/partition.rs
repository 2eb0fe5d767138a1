use snagg::asset::{BufferViewDecl, Target};
use snagg::error::LoadError;
use snagg::model_buffer_info::ModelBufferInfo;
use snagg::view::ViewType;

fn vertex_view(length: usize) -> BufferViewDecl {
    BufferViewDecl { length, target: Some(Target::Vertex) }
}

fn index_view(length: usize) -> BufferViewDecl {
    BufferViewDecl { length, target: Some(Target::Index) }
}

fn info_of(v: &ViewType) -> (bool, u64, u64) {
    match v {
        ViewType::Vertex(i) => (true, i.length, i.offset),
        ViewType::Index(i) => (false, i.length, i.offset),
    }
}

#[test]
fn partition_routes_bytes_in_view_order() {
    let decls = vec![vertex_view(4), index_view(2), vertex_view(3)];
    let raw: Vec<u8> = vec![10, 11, 12, 13, 20, 21, 30, 31, 32, 99];
    let m = ModelBufferInfo::new(&decls, &raw).unwrap();
    assert_eq!(m.vertex_data, vec![10, 11, 12, 13, 30, 31, 32]);
    assert_eq!(m.index_data, vec![20, 21]);
    assert_eq!(m.views.len(), 3);
    assert_eq!(info_of(&m.views[0]), (true, 4, 0));
    assert_eq!(info_of(&m.views[1]), (false, 2, 0));
    assert_eq!(info_of(&m.views[2]), (true, 3, 4));
}

#[test]
fn partition_consumes_exactly_the_declared_lengths() {
    let decls = vec![vertex_view(2), vertex_view(5), index_view(4)];
    let raw: Vec<u8> = (0u8..20).collect();
    let m = ModelBufferInfo::new(&decls, &raw).unwrap();
    assert_eq!(m.vertex_data.len() + m.index_data.len(), 11);
    assert_eq!(m.vertex_data, vec![0, 1, 2, 3, 4, 5, 6]);
    assert_eq!(m.index_data, vec![7, 8, 9, 10]);
}

#[test]
fn partition_same_destination_ranges_are_contiguous() {
    let decls = vec![
        vertex_view(4),
        index_view(2),
        vertex_view(6),
        index_view(8),
        vertex_view(1),
    ];
    let raw: Vec<u8> = (0u8..21).collect();
    let m = ModelBufferInfo::new(&decls, &raw).unwrap();
    // Vertex-routed views pack [0,4), [4,10), [10,11): disjoint, no gaps.
    assert_eq!(info_of(&m.views[0]), (true, 4, 0));
    assert_eq!(info_of(&m.views[2]), (true, 6, 4));
    assert_eq!(info_of(&m.views[4]), (true, 1, 10));
    assert_eq!(m.vertex_data.len(), 11);
    // Index-routed views pack [0,2), [2,10).
    assert_eq!(info_of(&m.views[1]), (false, 2, 0));
    assert_eq!(info_of(&m.views[3]), (false, 8, 2));
    assert_eq!(m.index_data.len(), 10);
}

#[test]
fn partition_of_no_views_is_empty() {
    let decls: Vec<BufferViewDecl> = Vec::new();
    let raw: Vec<u8> = vec![1, 2, 3];
    let m = ModelBufferInfo::new(&decls, &raw).unwrap();
    assert!(m.vertex_data.is_empty());
    assert!(m.index_data.is_empty());
    assert!(m.views.is_empty());
}

#[test]
fn partition_accepts_exact_fit() {
    let decls = vec![vertex_view(3), index_view(2)];
    let raw: Vec<u8> = vec![1, 2, 3, 4, 5];
    let m = ModelBufferInfo::new(&decls, &raw).unwrap();
    assert_eq!(m.vertex_data, vec![1, 2, 3]);
    assert_eq!(m.index_data, vec![4, 5]);
}

#[test]
fn partition_rejects_view_without_target() {
    let decls = vec![vertex_view(2), BufferViewDecl { length: 1, target: None }];
    let raw: Vec<u8> = vec![0, 1, 2, 3];
    let r = ModelBufferInfo::new(&decls, &raw);
    assert_eq!(r.unwrap_err(), LoadError::ViewWithoutTarget);
}

#[test]
fn partition_rejects_cursor_overrun() {
    let decls = vec![vertex_view(3), index_view(2)];
    let raw: Vec<u8> = vec![0, 1, 2, 3];
    let r = ModelBufferInfo::new(&decls, &raw);
    assert_eq!(r.unwrap_err(), LoadError::CursorOverrun);
}

#[test]
fn partition_reports_first_failing_view() {
    // The overrun at the second view is found before the missing target at
    // the third.
    let decls = vec![
        vertex_view(2),
        index_view(10),
        BufferViewDecl { length: 1, target: None },
    ];
    let raw: Vec<u8> = vec![0, 1, 2, 3];
    let r = ModelBufferInfo::new(&decls, &raw);
    assert_eq!(r.unwrap_err(), LoadError::CursorOverrun);
}
