use hmalloc::env::EnvSettings;
use hmalloc::state::{get, JemallocBackend};
use once_cell::sync::OnceCell;

#[test]
fn get_initialises_once() {
    let cell = OnceCell::new();
    let first = get(
        &cell,
        EnvSettings { use_jemalloc: true, nodemask: 2, mpol_mode: 1 },
        Some(JemallocBackend { maxnode: 1, arena_index: 9 }),
    )
    .0;
    assert_eq!(first.arena_index(), 9);
    let again = get(&cell, EnvSettings { use_jemalloc: false, nodemask: 0, mpol_mode: 0 }, None).0;
    assert!(again.use_jemalloc());
    assert_eq!(again.arena_index(), 9);
    assert_eq!(again.nodemask(), 2);
    assert_eq!(again.mpol_mode(), 1);
    assert_eq!(again.maxnode(), 1);
}

#[test]
fn get_builds_system_state() {
    let cell = OnceCell::new();
    let s = get(&cell, EnvSettings { use_jemalloc: false, nodemask: 4, mpol_mode: 3 }, None).0;
    assert!(!s.use_jemalloc());
    assert_eq!(s.arena_index(), 0);
    assert_eq!(s.maxnode(), 0);
    assert_eq!(s.nodemask(), 4);
}
