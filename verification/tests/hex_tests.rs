use node_health::hex::hex_to_u64;

#[test]
fn parses_with_prefix() {
    assert_eq!(hex_to_u64("0x10"), Some(16));
    assert_eq!(hex_to_u64("0x2a"), Some(42));
    assert_eq!(hex_to_u64("0x0"), Some(0));
}

#[test]
fn parses_without_prefix() {
    assert_eq!(hex_to_u64("10"), Some(16));
    assert_eq!(hex_to_u64("2a"), Some(42));
}

#[test]
fn parses_either_case() {
    assert_eq!(hex_to_u64("0xFF"), Some(255));
    assert_eq!(hex_to_u64("0xdeadBEEF"), Some(0xdead_beef));
}

#[test]
fn rejects_non_digits() {
    assert_eq!(hex_to_u64("0xzz"), None);
    assert_eq!(hex_to_u64("hello"), None);
    assert_eq!(hex_to_u64("0x12g4"), None);
    assert_eq!(hex_to_u64("\u{00e9}t\u{00e9}"), None);
}

#[test]
fn rejects_empty_digit_run() {
    assert_eq!(hex_to_u64(""), None);
    assert_eq!(hex_to_u64("0x"), None);
}

#[test]
fn strips_only_one_prefix() {
    assert_eq!(hex_to_u64("0x0x10"), None);
}

#[test]
fn sixty_four_bit_boundary() {
    assert_eq!(hex_to_u64("0xffffffffffffffff"), Some(u64::MAX));
    assert_eq!(hex_to_u64("0x10000000000000000"), None);
    assert_eq!(hex_to_u64("0x0000000000000000002a"), Some(42));
}
