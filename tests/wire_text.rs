use solver_dto::hex::{decode_hex, encode_hex};

#[test]
fn hex_is_prefixed_lower_case() {
    assert_eq!(encode_hex(&[0x00, 0xab, 0x7f]), b"0x00ab7f".to_vec());
    assert_eq!(encode_hex(&[]), b"0x".to_vec());
}

#[test]
fn hex_reads_either_case_with_or_without_prefix() {
    assert_eq!(decode_hex(b"0x00AB7f"), Some(vec![0x00, 0xab, 0x7f]));
    assert_eq!(decode_hex(b"ff01"), Some(vec![0xff, 0x01]));
    assert_eq!(decode_hex(b"0x"), Some(vec![]));
}

#[test]
fn hex_rejects_odd_length_and_bad_digits() {
    assert_eq!(decode_hex(b"0xabc"), None);
    assert_eq!(decode_hex(b"0xzz"), None);
    assert_eq!(decode_hex(b"g0"), None);
}

#[test]
fn hex_round_trips() {
    let bytes: Vec<u8> = (0u8..=255).collect();
    assert_eq!(decode_hex(&encode_hex(&bytes)), Some(bytes));
}
