use rusty_pake::bytes::ct_eq;
use rusty_pake::ristretto::Scalar;
use rusty_pake::shared::{decode_scalar, encode_scalar};

#[test]
fn scalar_text_is_lowercase_high_nibble_first() {
    let mut b = [0u8; 32];
    b[0] = 0x01;
    b[1] = 0xab;
    b[2] = 0x0f;
    let text = encode_scalar(Scalar::from_bytes_mod_order(b));
    assert_eq!(text, format!("01ab0f{}", "00".repeat(29)));
}

#[test]
fn scalar_text_decodes_in_either_case() {
    let text = format!("01AB0f{}", "00".repeat(29));
    let s = decode_scalar(&text, "phi0").unwrap();
    let mut b = [0u8; 32];
    b[0] = 0x01;
    b[1] = 0xab;
    b[2] = 0x0f;
    assert_eq!(s.to_bytes(), b);
    assert!(decode_scalar(&"0".repeat(63), "phi0").is_err());
    assert!(decode_scalar(&"g0".repeat(32), "phi0").is_err());
}

#[test]
fn ct_eq_compares_every_byte() {
    let a = [7u8; 32];
    let mut b = [7u8; 32];
    assert!(ct_eq(&a, &b));
    b[31] = 8;
    assert!(!ct_eq(&a, &b));
    b[31] = 7;
    b[0] = 0;
    assert!(!ct_eq(&a, &b));
}
