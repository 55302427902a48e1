use rusty_pake::pake::{client_cipher, client_secret};
use rusty_pake::shared::{
    decode_point, decode_scalar, encode_point, encode_scalar, DecodeError, ExchangeRequest,
    ExchangeRequestEncoded, ExchangeResponse, ExchangeResponseEncoded, SetupRequest,
    SetupRequestEncoded, VerifyRequest, VerifyRequestEncoded,
};

fn secrets() -> (rusty_pake::ristretto::Scalar, curve25519_dalek::RistrettoPoint) {
    let (phi0, phi1) = client_secret("ilovebob123", "Alice", "id");
    (phi0, client_cipher(phi1))
}

#[test]
fn scalar_round_trip() {
    let (phi0, _) = secrets();
    let text = encode_scalar(phi0);
    assert_eq!(text.len(), 64);
    assert_eq!(text, text.to_lowercase());
    let back = decode_scalar(&text, "phi0").unwrap();
    assert_eq!(back.to_bytes(), phi0.to_bytes());
}

#[test]
fn point_round_trip() {
    let (_, c) = secrets();
    let text = encode_point(c);
    assert_eq!(text.len(), 64);
    let back = decode_point(&text, "c").unwrap();
    assert_eq!(back, c);
}

#[test]
fn setup_request_round_trip() {
    let (phi0, c) = secrets();
    let encoded = SetupRequest::new("Alice".to_string(), phi0, c).encode();
    assert_eq!(encoded.id, "Alice");
    let decoded = encoded.decode().unwrap();
    assert_eq!(decoded.id, "Alice");
    assert_eq!(decoded.phi0.to_bytes(), phi0.to_bytes());
    assert_eq!(decoded.c, c);
}

#[test]
fn exchange_messages_round_trip() {
    let (_, c) = secrets();
    let req = ExchangeRequest::new("Bob".to_string(), c).encode().decode().unwrap();
    assert_eq!(req.id, "Bob");
    assert_eq!(req.u, c);
    let resp = ExchangeResponse::new(c).encode().decode().unwrap();
    assert_eq!(resp.v, c);
}

#[test]
fn verify_request_round_trip() {
    let key = [0xa5u8; 32];
    let encoded = VerifyRequest { idc: "Alice".to_string(), key }.encode();
    assert_eq!(encoded.key, "a5".repeat(32));
    let decoded = encoded.decode().unwrap();
    assert_eq!(decoded.idc, "Alice");
    assert_eq!(decoded.key, key);
}

#[test]
fn invalid_hex_is_rejected() {
    let (_, c) = secrets();
    let req = SetupRequestEncoded {
        id: "Alice".to_string(),
        phi0: "zz".repeat(32),
        c: encode_point(c),
    };
    assert!(matches!(req.decode(), Err(DecodeError::InvalidHex(_))));
    let odd = VerifyRequestEncoded::new("Alice".to_string(), "abc".to_string());
    assert!(matches!(odd.decode(), Err(DecodeError::InvalidHex(_))));
}

#[test]
fn wrong_length_is_rejected() {
    let (_, c) = secrets();
    let req = SetupRequestEncoded {
        id: "Alice".to_string(),
        phi0: "00".repeat(31),
        c: encode_point(c),
    };
    match req.decode() {
        Err(DecodeError::InvalidLength(field)) => assert_eq!(field, "phi0"),
        _ => panic!("expected InvalidLength"),
    }
    let short_u = ExchangeRequestEncoded { id: "Bob".to_string(), u: "11".repeat(33) };
    match short_u.decode() {
        Err(DecodeError::InvalidLength(field)) => assert_eq!(field, "u"),
        _ => panic!("expected InvalidLength"),
    }
    let short_key = VerifyRequestEncoded::new("Bob".to_string(), "11".to_string());
    match short_key.decode() {
        Err(DecodeError::InvalidLength(field)) => assert_eq!(field, "key"),
        _ => panic!("expected InvalidLength"),
    }
}

#[test]
fn identity_and_non_canonical_points_are_rejected() {
    let identity = ExchangeResponseEncoded { v: "00".repeat(32) };
    assert!(matches!(identity.decode(), Err(DecodeError::InvalidPoint)));
    let not_canonical = ExchangeResponseEncoded { v: "ff".repeat(32) };
    assert!(matches!(not_canonical.decode(), Err(DecodeError::InvalidPoint)));
}

#[test]
fn scalars_are_reduced_on_decode() {
    let text = "ff".repeat(32);
    let s = decode_scalar(&text, "phi0").unwrap();
    assert_ne!(s.to_bytes(), [0xffu8; 32]);
    assert_eq!(s.to_bytes()[31] >> 4, 0);
}
