use differential::abi::{pad_to_block, padding, push_word, push_zeros};
use differential::vectors::{decode_integer_differential, header_abi, slice_differential, stakes_abi};
use differential::consensus::verify_header_abi;
use differential::model::Header;

fn word(n: u128) -> String {
    format!("{:0>64x}", n)
}

#[test]
fn word_is_sixty_four_digits() {
    let mut s = String::new();
    push_word(&mut s, 0x40);
    assert_eq!(s, format!("{}40", "0".repeat(62)));
    let mut t = String::from("x");
    push_word(&mut t, u128::MAX);
    assert_eq!(t, format!("x{}{}", "0".repeat(32), "f".repeat(32)));
}

#[test]
fn zeros_are_appended() {
    let mut s = String::from("ab");
    push_zeros(&mut s, 3);
    assert_eq!(s, "ab000");
}

#[test]
fn padding_reaches_next_block() {
    assert_eq!(padding(0), 0);
    assert_eq!(padding(1), 63);
    assert_eq!(padding(63), 1);
    assert_eq!(padding(64), 0);
    assert_eq!(padding(65), 63);
    let mut b = vec![7u8; 70];
    pad_to_block(&mut b);
    assert_eq!(b.len(), 128);
    assert_eq!(&b[..70], &[7u8; 70][..]);
    assert!(b[70..].iter().all(|x| *x == 0));
    let mut e: Vec<u8> = vec![];
    pad_to_block(&mut e);
    assert!(e.is_empty());
}

fn integer_vector(hex: &str) -> String {
    let len = (hex.len() / 2) as u128;
    format!("{}{}{}{:0<64}", word(0x40), word(len), word(len), hex)
}

#[test]
fn integer_vectors_at_each_size_class() {
    let cases: Vec<(u128, String)> = vec![
        (0, "00".to_string()),
        (250, "fa".to_string()),
        (251, "fbfb00".to_string()),
        (0xffff, "fbffff".to_string()),
        (0x1_0000, "fc00000100".to_string()),
        (0xffff_ffff, "fcffffffff".to_string()),
        (0x1_0000_0000, "fd0000000001000000".to_string()),
        (u64::MAX as u128, format!("fd{}", "ff".repeat(8))),
        (1u128 << 64, format!("fe{}01{}", "00".repeat(8), "00".repeat(7))),
        (u128::MAX, format!("fe{}", "ff".repeat(16))),
    ];
    for (n, hex) in cases {
        let v = decode_integer_differential(n);
        assert_eq!(v, integer_vector(&hex), "integer {}", n);
        assert_eq!(v.len(), 256);
    }
}

#[test]
fn integer_offset_points_at_length() {
    let v = decode_integer_differential(300);
    // offset 0x40 bytes = 128 hex digits
    assert_eq!(&v[128..192], word(3));
    assert_eq!(&v[0..64], word(0x40));
}

#[test]
fn slice_forward() {
    let data = [1u8, 2, 3, 4, 5];
    assert_eq!(slice_differential(&data, 1, 3), "0203");
    assert_eq!(slice_differential(&data, 0, 5), "0102030405");
}

#[test]
fn slice_backward() {
    let data = [1u8, 2, 3, 4, 5];
    assert_eq!(slice_differential(&data, 3, 1), "0403");
    assert_eq!(slice_differential(&data, 2, -1), "030201");
    assert_eq!(slice_differential(&data, 4, -1), "0504030201");
    assert_eq!(slice_differential(&data, 0, 0), "");
    assert_eq!(slice_differential(&data, -1, -1), "");
}

#[test]
fn stakes_frame() {
    let v = stakes_abi(vec![1, 2, 3], &[0xab; 32]);
    let expected = format!("{}{}{}{:0<128}", word(0x40), "ab".repeat(32), word(3), "010203");
    assert_eq!(v, expected);
    assert_eq!(&v[128..192], word(3));
    let empty = stakes_abi(vec![], &[0; 32]);
    assert_eq!(empty, format!("{}{}{}", word(0x40), "00".repeat(32), word(0)));
}

fn sample_header() -> Header {
    Header {
        network: 0xff,
        previous: [1; 32],
        height: 0x1234,
        history_hash: [2; 32],
        coins_hash: [3; 32],
        transactions_hash: [4; 32],
        fee_pool: 5,
        fee_multiplier: 6,
        dosc_speed: 7,
        pools_hash: [8; 32],
        stakes_hash: [9; 32],
    }
}

#[test]
fn header_frame() {
    let h = sample_header();
    let v = header_abi(&h, vec![0xaa; 3]);
    let expected = format!(
        "{}{}{}{}{}{:0<128}",
        word(0x80),
        word(0x1234),
        "04".repeat(32),
        "09".repeat(32),
        word(3),
        "aaaaaa"
    );
    assert_eq!(v, expected);
    assert_eq!(&v[256..320], word(3));
    let empty = header_abi(&h, vec![]);
    assert_eq!(empty.len(), 6 * 64);
    assert!(empty.ends_with(&"0".repeat(64)));
}

#[test]
fn header_proof_frame() {
    let sigs = vec![vec![0x11u8; 64], vec![0x22u8; 64]];
    let v = verify_header_abi(42, &[0xcd; 32], vec![0xee; 2], "0a0b0c".to_string(), 3, &sigs);
    let hp = format!("{:0<128}", "eeee");
    let sp = format!("{:0<64}", "0a0b0c");
    let expected = format!(
        "{}{}{}{}{}{}{}{}{}{}{}",
        word(42),
        "cd".repeat(32),
        word(0xa0),
        word(0xc0 + 64),
        word(0xe0 + 64 + 32),
        word(2),
        hp,
        word(3),
        sp,
        word(4),
        format!("{}{}", "11".repeat(64), "22".repeat(64))
    );
    assert_eq!(v, expected);
    assert_eq!(v.len() % 64, 0);
    // each offset (in bytes) points at the length word of its argument
    assert_eq!(&v[2 * 0xa0..2 * 0xa0 + 64], word(2));
    assert_eq!(&v[2 * (0xc0 + 64)..2 * (0xc0 + 64) + 64], word(3));
    assert_eq!(&v[2 * (0xe0 + 64 + 32)..2 * (0xe0 + 64 + 32) + 64], word(4));
}
