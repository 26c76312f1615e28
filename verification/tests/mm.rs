use os::mm::{
    permission_from_port, user_segments, MapPermission, MemorySet, PhysPageNum, VirtAddr,
    VirtPageNum,
};

#[test]
fn address_arithmetic() {
    assert_eq!(VirtAddr(0x1234).page_offset(), 0x234);
    assert_eq!(VirtAddr(0x1234).floor(), VirtPageNum(1));
    assert_eq!(VirtAddr(0).ceil(), VirtPageNum(0));
    assert_eq!(VirtAddr(1).ceil(), VirtPageNum(1));
    assert_eq!(VirtAddr(4096).ceil(), VirtPageNum(1));
    assert_eq!(VirtAddr(4097).ceil(), VirtPageNum(2));
    assert_eq!(VirtAddr::from(VirtPageNum(3)), VirtAddr(12288));
    assert_eq!(PhysPageNum(5).addr_at(7).0, 5 * 4096 + 7);
}

#[test]
fn permission_bits_follow_the_port() {
    assert_eq!(permission_from_port(1).bits(), 2 | 16);
    assert_eq!(permission_from_port(2).bits(), 4 | 16);
    assert_eq!(permission_from_port(4).bits(), 8 | 16);
    assert_eq!(permission_from_port(5).bits(), 2 | 8 | 16);
    assert_eq!(permission_from_port(7).bits(), 30);
}

#[test]
fn from_bits_refuses_unknown_bits() {
    assert_eq!(MapPermission::from_bits(1), None);
    assert_eq!(MapPermission::from_bits(32), None);
    assert_eq!(MapPermission::from_bits(30), Some(MapPermission { bits: 30 }));
    assert_eq!(MapPermission::from_bits(0), Some(MapPermission { bits: 0 }));
}

#[test]
fn map_then_unmap() {
    let mut ms = MemorySet::new_bare();
    let rw = permission_from_port(3);
    assert_eq!(ms.insert_framed_area(VirtAddr(0), VirtAddr(8192), rw), 0);
    assert!(ms.is_mapped(VirtPageNum(0)));
    assert!(ms.is_mapped(VirtPageNum(1)));
    assert!(!ms.is_mapped(VirtPageNum(2)));
    assert_eq!(ms.permission(VirtPageNum(1)), Some(rw));
    assert_eq!(ms.remove_by_given(VirtAddr(0), VirtAddr(8192)), 0);
    assert!(!ms.is_mapped(VirtPageNum(0)));
    assert!(!ms.is_mapped(VirtPageNum(1)));
}

#[test]
fn overlapping_map_fails_and_changes_nothing() {
    let mut ms = MemorySet::new_bare();
    let r = permission_from_port(1);
    assert_eq!(ms.insert_framed_area(VirtAddr(4096), VirtAddr(8192), r), 0);
    assert_eq!(ms.insert_framed_area(VirtAddr(0), VirtAddr(12288), r), -1);
    assert!(!ms.is_mapped(VirtPageNum(0)));
    assert!(ms.is_mapped(VirtPageNum(1)));
    assert!(!ms.is_mapped(VirtPageNum(2)));
}

#[test]
fn unmapping_unmapped_pages_fails_and_changes_nothing() {
    let mut ms = MemorySet::new_bare();
    let r = permission_from_port(1);
    assert_eq!(ms.insert_framed_area(VirtAddr(0), VirtAddr(4096), r), 0);
    assert_eq!(ms.remove_by_given(VirtAddr(0), VirtAddr(8192)), -1);
    assert!(ms.is_mapped(VirtPageNum(0)));
    assert_eq!(ms.remove_pages(VirtPageNum(0), VirtPageNum(1)), 0);
    assert_eq!(ms.remove_pages(VirtPageNum(0), VirtPageNum(1)), -1);
}

#[test]
fn unaligned_area_covers_whole_pages() {
    let mut ms = MemorySet::new_bare();
    let r = permission_from_port(2);
    assert_eq!(ms.insert_framed_area(VirtAddr(100), VirtAddr(4097), r), 0);
    assert!(ms.is_mapped(VirtPageNum(0)));
    assert!(ms.is_mapped(VirtPageNum(1)));
    assert!(!ms.is_mapped(VirtPageNum(2)));
}

#[test]
fn empty_page_range_maps_nothing() {
    let mut ms = MemorySet::new_bare();
    let r = permission_from_port(2);
    assert_eq!(ms.insert_pages(VirtPageNum(5), VirtPageNum(5), r), 0);
    assert_eq!(ms.insert_pages(VirtPageNum(5), VirtPageNum(3), r), 0);
    assert!(!ms.is_mapped(VirtPageNum(3)));
    assert!(!ms.is_mapped(VirtPageNum(5)));
    assert_eq!(ms.remove_pages(VirtPageNum(5), VirtPageNum(5)), 0);
}

#[test]
fn buffer_inside_one_page_is_one_segment() {
    let frames = vec![PhysPageNum(0x80)];
    assert_eq!(user_segments(0x1010, 16, &frames), vec![(0x80 * 4096 + 0x10, 16)]);
}

#[test]
fn buffer_across_a_page_boundary_is_split() {
    let frames = vec![PhysPageNum(0x80), PhysPageNum(0x33)];
    assert_eq!(
        user_segments(0x1ff8, 16, &frames),
        vec![(0x80 * 4096 + 0xff8, 8), (0x33 * 4096, 8)]
    );
}

#[test]
fn buffer_across_three_pages() {
    let frames = vec![PhysPageNum(1), PhysPageNum(7), PhysPageNum(3)];
    assert_eq!(
        user_segments(4096 - 1, 4096 + 2, &frames),
        vec![(4096 + 4095, 1), (7 * 4096, 4096), (3 * 4096, 1)]
    );
}

#[test]
fn empty_buffer_has_no_segment() {
    let frames: Vec<PhysPageNum> = Vec::new();
    assert!(user_segments(0x1234, 0, &frames).is_empty());
}
