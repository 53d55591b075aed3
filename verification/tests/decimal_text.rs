use hmalloc::decimal::{format_i32, format_u64, parse_i32, parse_u64};

#[test]
fn format_u64_writes_to_string_text() {
    for n in [0u64, 1, 9, 10, 99, 100, 12345, u64::MAX] {
        assert_eq!(format_u64(n), n.to_string().into_bytes());
    }
}

#[test]
fn format_i32_writes_to_string_text() {
    for m in [0i32, 5, -5, 10, -10, 2, 6, i32::MAX, i32::MIN] {
        assert_eq!(format_i32(m), m.to_string().into_bytes());
    }
}

#[test]
fn text_round_trips() {
    for n in [0u64, 7, 1024, 4294967296, u64::MAX] {
        assert_eq!(parse_u64(&format_u64(n)), Some(n));
    }
    for m in [i32::MIN, -1, 0, 1, 3, i32::MAX] {
        assert_eq!(parse_i32(&format_i32(m)), Some(m));
    }
}

#[test]
fn parse_u64_cases() {
    assert_eq!(parse_u64(b"0"), Some(0));
    assert_eq!(parse_u64(b"+0"), Some(0));
    assert_eq!(parse_u64(b"-0"), None);
    assert_eq!(parse_u64(b""), None);
    assert_eq!(parse_u64(b"12a"), None);
    assert_eq!(parse_u64(b"99999999999999999999x"), None);
    assert_eq!(parse_u64(b"18446744073709551616"), None);
}

#[test]
fn parse_i32_cases() {
    assert_eq!(parse_i32(b"-0"), Some(0));
    assert_eq!(parse_i32(b"2147483648"), None);
    assert_eq!(parse_i32(b"-2147483648"), Some(i32::MIN));
    assert_eq!(parse_i32(b"+-1"), None);
    assert_eq!(parse_i32(b"1 "), None);
}
