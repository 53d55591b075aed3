use hmalloc::mapping::{
    cut_extent, extent_map_len, map_next, BindRequest, ExtentCut, MapAction, MapEvent, NumaPolicy,
};

#[test]
fn mapping_without_nodes_is_returned() {
    let p = NumaPolicy { nodemask: 0, mpol_mode: 2, maxnode: 8 };
    assert_eq!(map_next(&p, MapEvent::Mapped { failed: false }), MapAction::ReturnMapping);
    assert_eq!(map_next(&p, MapEvent::Mapped { failed: true }), MapAction::ReturnFailure);
}

#[test]
fn mapping_with_nodes_is_bound() {
    let p = NumaPolicy { nodemask: 3, mpol_mode: 3, maxnode: 64 };
    assert_eq!(
        map_next(&p, MapEvent::Mapped { failed: false }),
        MapAction::Bind { request: BindRequest { mode: 3, nodemask: 3, maxnode: 64 } }
    );
    assert_eq!(map_next(&p, MapEvent::Mapped { failed: true }), MapAction::ReturnFailure);
    assert_eq!(map_next(&p, MapEvent::Bound { status: 0 }), MapAction::ReturnMapping);
    assert_eq!(map_next(&p, MapEvent::Bound { status: -1 }), MapAction::UnmapAndReturnNull);
}

#[test]
fn negative_maxnode_wraps_like_c_ulong() {
    let p = NumaPolicy { nodemask: 1, mpol_mode: 2, maxnode: -1 };
    assert_eq!(
        map_next(&p, MapEvent::Mapped { failed: false }),
        MapAction::Bind { request: BindRequest { mode: 2, nodemask: 1, maxnode: u64::MAX } }
    );
}

#[test]
fn extent_map_lengths() {
    // page alignment: the mapping is the extent itself
    assert_eq!(extent_map_len(false, 8192, 4096, 4096), Some(8192));
    assert_eq!(extent_map_len(false, 8192, 64, 4096), Some(8192));
    // larger alignment: room to cut an aligned extent out
    assert_eq!(extent_map_len(false, 8192, 1 << 21, 4096), Some(8192 + (1 << 21) - 4096));
    // a fixed address is not served
    assert_eq!(extent_map_len(true, 8192, 4096, 4096), None);
    assert_eq!(extent_map_len(false, usize::MAX, 1 << 21, 4096), None);
}

#[test]
fn extent_cuts() {
    // already aligned: nothing to give back
    assert_eq!(
        cut_extent(0x20_0000, 0x1000, 0x1000, 0x1000),
        Some(ExtentCut { start: 0x20_0000, head_len: 0, tail_start: 0x20_1000, tail_len: 0 })
    );
    // 2 MiB alignment out of a mapping at 0x20_3000
    let size = 0x2000;
    let align = 0x20_0000;
    let len = extent_map_len(false, size, align, 0x1000).unwrap();
    let cut = cut_extent(0x20_3000, len, size, align).unwrap();
    assert_eq!(cut.start, 0x40_0000);
    assert_eq!(cut.head_len, 0x40_0000 - 0x20_3000);
    assert_eq!(cut.tail_start, 0x40_2000);
    assert_eq!(cut.head_len + size + cut.tail_len, len);
    assert_eq!(cut.start % align, 0);
    // too short a mapping
    assert_eq!(cut_extent(0x20_3000, size, size, align), None);
    // alignment zero means none
    assert_eq!(
        cut_extent(0x1234, 10, 4, 0),
        Some(ExtentCut { start: 0x1234, head_len: 0, tail_start: 0x1238, tail_len: 6 })
    );
    // a mapping that would wrap around
    assert_eq!(cut_extent(usize::MAX - 1, 4, 1, 1), None);
}
