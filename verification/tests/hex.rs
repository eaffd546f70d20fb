use xray_tracing::hex::{hex_len_u64, Bytes};

#[test]
fn formats_lowerhex() {
    assert_eq!(Bytes(b"test").to_lower_hex(), "74657374")
}

#[test]
fn no_bytes_give_no_digits() {
    assert_eq!(Bytes(b"").to_lower_hex(), "");
}

#[test]
fn every_byte_gives_two_digits() {
    assert_eq!(Bytes(&[0x00, 0x0f, 0xf0, 0xff, 0x1a]).to_lower_hex(), "000ff0ff1a");
}

#[test]
fn bytes_agree_with_std_formatting() {
    let all: Vec<u8> = (0u8..=255u8).collect();
    let mut expected = String::new();
    for byte in &all {
        expected.push_str(&format!("{:02x}", byte));
    }
    assert_eq!(Bytes(&all).to_lower_hex(), expected);
}

#[test]
fn digit_counts() {
    assert_eq!(hex_len_u64(0), 1);
    assert_eq!(hex_len_u64(15), 1);
    assert_eq!(hex_len_u64(16), 2);
    assert_eq!(hex_len_u64(0xffff_ffff), 8);
    assert_eq!(hex_len_u64(0x1_0000_0000), 9);
    assert_eq!(hex_len_u64(u64::MAX), 16);
}
