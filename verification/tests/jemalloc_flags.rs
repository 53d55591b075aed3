use hmalloc::jemalloc::{extent_hooks_key, is_power_of_two, mallocx_align_flags, mallocx_flags};
use tikv_jemalloc_sys as je;

#[test]
fn mallocx_flags_exact_values() {
    // arena 0: (0 + 1) << 20, plus the no-tcache bit 1 << 8
    assert_eq!(mallocx_flags(0), 0x0010_0100);
    assert_eq!(mallocx_flags(3), 0x0040_0100);
    assert_eq!(mallocx_flags(2047), i32::MIN | 0x100);
    assert_eq!(mallocx_flags(4095), 0x100);
    for arena in [0u32, 1, 2, 17, 255, 2047, 4095, 4096, u32::MAX] {
        assert_eq!(
            mallocx_flags(arena),
            je::MALLOCX_ARENA(arena as usize) | je::MALLOCX_TCACHE_NONE
        );
    }
}

#[test]
fn mallocx_align_flags_exact_values() {
    assert_eq!(mallocx_align_flags(0, 1), 0x0010_0100);
    assert_eq!(mallocx_align_flags(0, 64), 0x0010_0106);
    assert_eq!(mallocx_align_flags(2, 4096), 0x0030_010c);
    assert_eq!(mallocx_align_flags(2, 0), 0x0030_0100 | 64);
    for arena in [0u32, 5, 1000] {
        for alignment in [1usize, 2, 8, 16, 64, 4096, 1 << 20, 12, 0] {
            assert_eq!(
                mallocx_align_flags(arena, alignment),
                je::MALLOCX_ALIGN(alignment) | mallocx_flags(arena)
            );
        }
    }
}

#[test]
fn aligned_flags_decode_to_alignment() {
    for k in 0..63u32 {
        let alignment = 1usize << k;
        let flags = mallocx_align_flags(9, alignment) as u32;
        assert_eq!(1usize << (flags % 64), alignment);
        assert_eq!(flags / 64 * 64, mallocx_flags(9) as u32);
    }
}

#[test]
fn power_of_two_check() {
    for x in [0usize, 1, 2, 3, 4, 6, 7, 8, 15, 16, 64, 4096, 4097, usize::MAX, 1 << 63] {
        assert_eq!(is_power_of_two(x), x.is_power_of_two());
    }
}

#[test]
fn extent_hooks_key_names_the_arena() {
    assert_eq!(extent_hooks_key(0), b"arena.0.extent_hooks".to_vec());
    assert_eq!(extent_hooks_key(37), b"arena.37.extent_hooks".to_vec());
    assert_eq!(extent_hooks_key(u32::MAX), format!("arena.{}.extent_hooks", u32::MAX).into_bytes());
}
