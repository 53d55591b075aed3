use hmalloc::env::{read_jemalloc, read_mpol_mode, read_nodemask, read_settings};

#[test]
fn test_read_jemalloc_edge_cases() {
    assert_eq!(read_jemalloc(None), false);
    assert_eq!(read_jemalloc(Some("1")), true);

    // Invalid values
    assert_eq!(read_jemalloc(Some("2")), false);
    assert_eq!(read_jemalloc(Some("true")), false);
    assert_eq!(read_jemalloc(Some("")), false);
}

#[test]
fn test_read_nodemask_edge_cases() {
    assert_eq!(read_nodemask(None), 0);
    assert_eq!(read_nodemask(Some("123")), 123);

    // Invalid values (should default to 0 safely without panic)
    assert_eq!(read_nodemask(Some("abc")), 0);
    assert_eq!(read_nodemask(Some("-1")), 0);
    assert_eq!(read_nodemask(Some("18446744073709551616")), 0);
}

#[test]
fn test_read_mpol_mode_edge_cases() {
    assert_eq!(read_mpol_mode(None), 0);
    assert_eq!(read_mpol_mode(Some("2")), 2);
    assert_eq!(read_mpol_mode(Some("-1")), -1);

    // Invalid values
    assert_eq!(read_mpol_mode(Some("abc")), 0);
    assert_eq!(read_mpol_mode(Some("2147483648")), 0);
}

#[test]
fn read_jemalloc_rejects_padding_and_longer_text() {
    assert!(!read_jemalloc(Some(" 1")));
    assert!(!read_jemalloc(Some("1 ")));
    assert!(!read_jemalloc(Some("11")));
    assert!(!read_jemalloc(Some("01")));
}

#[test]
fn read_nodemask_takes_what_u64_parse_takes() {
    assert_eq!(read_nodemask(Some("+5")), 5);
    assert_eq!(read_nodemask(Some("007")), 7);
    assert_eq!(read_nodemask(Some("18446744073709551615")), u64::MAX);
    assert_eq!(read_nodemask(Some("+")), 0);
    assert_eq!(read_nodemask(Some("")), 0);
    assert_eq!(read_nodemask(Some("1_0")), 0);
    assert_eq!(read_nodemask(Some("0x10")), 0);
    for text in ["0", "1", "42", "+9", "000000000000000000000000001", "18446744073709551615"] {
        assert_eq!(read_nodemask(Some(text)), text.parse::<u64>().unwrap());
    }
}

#[test]
fn read_mpol_mode_takes_what_i32_parse_takes() {
    assert_eq!(read_mpol_mode(Some("-2147483648")), i32::MIN);
    assert_eq!(read_mpol_mode(Some("2147483647")), i32::MAX);
    assert_eq!(read_mpol_mode(Some("-2147483649")), 0);
    assert_eq!(read_mpol_mode(Some("+6")), 6);
    assert_eq!(read_mpol_mode(Some("-")), 0);
    assert_eq!(read_mpol_mode(Some("+")), 0);
    assert_eq!(read_mpol_mode(Some("--1")), 0);
    assert_eq!(read_mpol_mode(Some("-0")), 0);
    for text in ["-7", "0", "+3", "-0005", "2147483647", "-2147483648"] {
        assert_eq!(read_mpol_mode(Some(text)), text.parse::<i32>().unwrap());
    }
}

#[test]
fn read_settings_reads_each_variable() {
    let s = read_settings(Some("1"), Some("3"), Some("2"));
    assert!(s.use_jemalloc);
    assert_eq!(s.nodemask, 3);
    assert_eq!(s.mpol_mode, 2);

    let s = read_settings(None, None, None);
    assert!(!s.use_jemalloc);
    assert_eq!(s.nodemask, 0);
    assert_eq!(s.mpol_mode, 0);
}
