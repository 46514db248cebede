use node_health::block::block_height_result;

#[test]
fn parses_reported_height() {
    let r = block_height_result(Some("0x2a".to_string()), "mainnet".to_string());
    assert_eq!(r.raw_hex, "0x2a");
    assert_eq!(r.value, 42);
    assert_eq!(r.chain_label, "mainnet");
}

#[test]
fn missing_result_defaults_to_zero() {
    let r = block_height_result(None, "unknown".to_string());
    assert_eq!(r.raw_hex, "0x0");
    assert_eq!(r.value, 0);
    assert_eq!(r.chain_label, "unknown");
}

#[test]
fn unparsable_result_keeps_raw_form() {
    let r = block_height_result(Some("0xzz".to_string()), "testnet".to_string());
    assert_eq!(r.raw_hex, "0xzz");
    assert_eq!(r.value, 0);
}

#[test]
fn height_without_prefix() {
    let r = block_height_result(Some("10".to_string()), "l2".to_string());
    assert_eq!(r.raw_hex, "10");
    assert_eq!(r.value, 16);
}
