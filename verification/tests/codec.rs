use spaces_node::encoding::{bytes_to_hex, hex_to_bytes, u64_to_dec, u64_to_string, HexError};

#[test]
fn hex_round_trip() {
    let data: Vec<u8> = vec![0x00, 0x01, 0xab, 0xff, 0x7e];
    let hex = bytes_to_hex(&data);
    assert_eq!(hex, b"0001abff7e".to_vec());
    let back = hex_to_bytes(hex).unwrap();
    assert_eq!(back, data);
}

#[test]
fn hex_decode_mixed_case() {
    let out = hex_to_bytes(b"DEADbeef".to_vec()).unwrap();
    assert_eq!(out, vec![0xde, 0xad, 0xbe, 0xef]);
}

#[test]
fn hex_decode_reports_first_bad_byte() {
    let r = hex_to_bytes(b"0a0g".to_vec());
    assert_eq!(r, Err(HexError::InvalidHexCharacter { c: b'g', index: 3 }));
}

#[test]
fn hex_decode_ignores_trailing_odd_digit() {
    let out = hex_to_bytes(b"0ab".to_vec()).unwrap();
    assert_eq!(out, vec![0x0a]);
}

#[test]
fn decimal_rendering() {
    assert_eq!(u64_to_dec(0), b"0".to_vec());
    assert_eq!(u64_to_dec(907), b"907".to_vec());
    assert_eq!(u64_to_dec(u64::MAX), b"18446744073709551615".to_vec());
    assert_eq!(u64_to_string(0), "0");
    assert_eq!(u64_to_string(120034), "120034");
}
