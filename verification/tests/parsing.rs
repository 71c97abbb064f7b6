use differential::parse::{parse_hash_arg, parse_hex_arg, strip_hex_prefix};

#[test]
fn prefix_is_stripped() {
    assert_eq!(strip_hex_prefix("0xabcd"), Some("abcd"));
    assert_eq!(strip_hex_prefix("0x"), Some(""));
    assert_eq!(strip_hex_prefix("abcd"), None);
    assert_eq!(strip_hex_prefix("0X12"), None);
    assert_eq!(strip_hex_prefix("0"), None);
}

#[test]
fn hex_arguments_decode() {
    assert_eq!(parse_hex_arg("0x0aFF10"), Some(vec![0x0a, 0xff, 0x10]));
    assert_eq!(parse_hex_arg("0x"), Some(vec![]));
    assert_eq!(parse_hex_arg("0xabc"), None);
    assert_eq!(parse_hex_arg("0xzz"), None);
    assert_eq!(parse_hex_arg("ab"), None);
    assert_eq!(parse_hex_arg("0xé1"), None);
}

#[test]
fn hex_roundtrip_through_arguments() {
    let bytes: Vec<u8> = (0..=255u8).collect();
    let text = format!("0x{}", hex::encode(&bytes));
    assert_eq!(parse_hex_arg(&text), Some(bytes));
}

#[test]
fn hash_arguments_decode() {
    let text = format!("0x{}", "0123456789abcdef".repeat(4));
    let mut expected = [0u8; 32];
    for i in 0..4 {
        expected[8 * i..8 * i + 8].copy_from_slice(&[0x01, 0x23, 0x45, 0x67, 0x89, 0xab, 0xcd, 0xef]);
    }
    assert_eq!(parse_hash_arg(&text), Some(expected));
    assert_eq!(parse_hash_arg(&format!("0x{}", "00".repeat(31))), None);
    assert_eq!(parse_hash_arg(&format!("0x{}", "00".repeat(33))), None);
    assert_eq!(parse_hash_arg(&"00".repeat(32)), None);
    assert_eq!(parse_hash_arg(&format!("0x{}g", "0".repeat(63))), None);
}
