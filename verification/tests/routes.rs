use hmalloc::env::EnvSettings;
use hmalloc::front::{
    calloc_total, jemalloc_request_size, memalign_failure_code, AlignedRoute, FreeRoute, MallocRoute, ReallocRoute,
    UsableSizeRoute,
};
use hmalloc::jemalloc::{mallocx_align_flags, mallocx_flags};
use hmalloc::state::{init_state, AllocState, JemallocBackend};

fn jemalloc_state(arena_index: u32) -> AllocState {
    init_state(
        EnvSettings { use_jemalloc: true, nodemask: 1, mpol_mode: 2 },
        Some(JemallocBackend { maxnode: 3, arena_index }),
    )
}

fn system_state() -> AllocState {
    init_state(EnvSettings { use_jemalloc: false, nodemask: 5, mpol_mode: 1 }, None)
}

#[test]
fn init_state_keeps_settings_and_backend() {
    let s = jemalloc_state(7);
    assert!(s.use_jemalloc());
    assert_eq!(s.nodemask(), 1);
    assert_eq!(s.mpol_mode(), 2);
    assert_eq!(s.arena_index(), 7);
    assert_eq!(s.maxnode(), 3);

    let s = system_state();
    assert!(!s.use_jemalloc());
    assert_eq!(s.nodemask(), 5);
    assert_eq!(s.mpol_mode(), 1);
    assert_eq!(s.arena_index(), 0);
    assert_eq!(s.maxnode(), 0);
}

#[test]
fn malloc_and_free_share_the_arena() {
    let s = jemalloc_state(4);
    let flags = mallocx_flags(4);
    assert_eq!(s.malloc_route(100), MallocRoute::Mallocx { flags, size: 100 });
    // a request for nothing asks jemalloc for one byte
    assert_eq!(s.malloc_route(0), MallocRoute::Mallocx { flags, size: 1 });
    assert_eq!(s.free_route(false), FreeRoute::Dallocx { flags });
    assert_eq!(s.free_route(true), FreeRoute::Nothing);
    assert_eq!(flags, 0x0050_0100);

    let s = system_state();
    assert_eq!(s.malloc_route(0), MallocRoute::System);
    assert_eq!(s.free_route(false), FreeRoute::System);
    assert_eq!(s.free_route(true), FreeRoute::Nothing);
}

#[test]
fn realloc_routes() {
    let s = jemalloc_state(1);
    let flags = mallocx_flags(1);
    // realloc(NULL, size) behaves like malloc(size)
    assert_eq!(s.realloc_route(true, 100), ReallocRoute::Mallocx { flags, size: 100 });
    // realloc(NULL, 0) behaves like malloc(0)
    assert_eq!(s.realloc_route(true, 0), ReallocRoute::Mallocx { flags, size: 1 });
    // realloc(ptr, 0) behaves like free(ptr) and returns NULL
    assert_eq!(s.realloc_route(false, 0), ReallocRoute::Dallocx { flags });
    assert_eq!(s.realloc_route(false, 4096), ReallocRoute::Rallocx { flags, size: 4096 });

    let s = system_state();
    assert_eq!(s.realloc_route(true, 100), ReallocRoute::System);
    assert_eq!(s.realloc_route(false, 0), ReallocRoute::System);
}

#[test]
fn aligned_alloc_routes() {
    let s = jemalloc_state(0);
    // Alignment not a power of two
    assert_eq!(s.aligned_alloc_route(15, 100), AlignedRoute::Refused { errno: libc::EINVAL });
    assert_eq!(s.aligned_alloc_route(0, 0), AlignedRoute::Refused { errno: libc::EINVAL });
    // Size not a multiple of alignment
    assert_eq!(s.aligned_alloc_route(64, 63), AlignedRoute::Refused { errno: libc::EINVAL });
    // Valid aligned_alloc
    assert_eq!(s.aligned_alloc_route(64, 64), AlignedRoute::Mallocx { flags: mallocx_align_flags(0, 64), size: 64 });
    assert_eq!(s.aligned_alloc_route(1, 7), AlignedRoute::Mallocx { flags: mallocx_align_flags(0, 1), size: 7 });
    assert_eq!(s.aligned_alloc_route(16, 0), AlignedRoute::Mallocx { flags: mallocx_align_flags(0, 16), size: 1 });
    for align in [16usize, 64, 4096] {
        assert_eq!(
            s.aligned_alloc_route(align, align * 4),
            AlignedRoute::Mallocx { flags: mallocx_align_flags(0, align), size: align * 4 }
        );
    }
    assert_eq!(system_state().aligned_alloc_route(15, 100), AlignedRoute::System);
}

#[test]
fn posix_memalign_routes() {
    let s = jemalloc_state(2);
    let word = std::mem::size_of::<usize>();
    // Alignment not a power of two
    assert_eq!(s.posix_memalign_route(15, 100), AlignedRoute::Refused { errno: libc::EINVAL });
    assert_eq!(s.posix_memalign_route(7, 64), AlignedRoute::Refused { errno: libc::EINVAL });
    // Alignment not a multiple of sizeof(void*)
    assert_eq!(s.posix_memalign_route(2, 100), AlignedRoute::Refused { errno: libc::EINVAL });
    assert_eq!(s.posix_memalign_route(word / 2, 8), AlignedRoute::Refused { errno: libc::EINVAL });
    for align in [word, 64, 512, 4096] {
        assert_eq!(
            s.posix_memalign_route(align, 1024),
            AlignedRoute::Mallocx { flags: mallocx_align_flags(2, align), size: 1024 }
        );
    }
    // Size 0 is valid: jemalloc is asked for one byte
    assert_eq!(
        s.posix_memalign_route(word, 0),
        AlignedRoute::Mallocx { flags: mallocx_align_flags(2, word), size: 1 }
    );
    assert_eq!(system_state().posix_memalign_route(7, 64), AlignedRoute::System);
}

#[test]
fn jemalloc_request_sizes() {
    assert_eq!(jemalloc_request_size(0), 1);
    assert_eq!(jemalloc_request_size(1), 1);
    assert_eq!(jemalloc_request_size(500), 500);
    assert_eq!(jemalloc_request_size(usize::MAX), usize::MAX);
}

#[test]
fn memalign_failure_codes() {
    assert_eq!(memalign_failure_code(0), libc::ENOMEM);
    assert_eq!(memalign_failure_code(libc::EINVAL), libc::EINVAL);
    assert_eq!(memalign_failure_code(libc::ENOMEM), libc::ENOMEM);
}

#[test]
fn usable_size_routes() {
    let s = jemalloc_state(0);
    assert_eq!(s.usable_size_route(true), UsableSizeRoute::Zero);
    assert_eq!(s.usable_size_route(false), UsableSizeRoute::Sallocx { flags: 0 });
    assert_eq!(system_state().usable_size_route(true), UsableSizeRoute::System);
}

#[test]
fn calloc_totals() {
    assert_eq!(calloc_total(100, 8), Some(800));
    assert_eq!(calloc_total(0, 10), Some(0));
    assert_eq!(calloc_total(10, 0), Some(0));
    assert_eq!(calloc_total(usize::MAX / 2, usize::MAX / 2), None);
    assert_eq!(calloc_total(usize::MAX, 1), Some(usize::MAX));
    assert_eq!(calloc_total(usize::MAX, 2), None);
}
