//! The wire codec: the four messages of the protocol, each in its decoded form
//! and in its encoded form, whose binary fields are hexadecimal text.

use crate::bytes::take_32;
use crate::hex_text::{hex_bytes, hex_decode, hex_encode, hex_of, is_hex_text, lemma_hex_round_trip};
use crate::ristretto::{
    compress, decompress, encodes_non_identity, encoding_of, group_order, is_identity,
    is_point_log, le_value, point_log, Scalar,
};
use curve25519_dalek::ristretto::RistrettoPoint;
use vstd::arithmetic::div_mod::lemma_small_mod;
use vstd::prelude::*;

verus! {

broadcast use vstd::array::group_array_axioms;

/// Why an encoded message could not be decoded.
#[derive(Debug)]
pub enum DecodeError {
    /// A binary field is not hexadecimal text.
    InvalidHex(hex::FromHexError),
    /// A binary field does not hold 32 bytes; the field's name.
    InvalidLength(String),
    /// A point field is not the canonical encoding of a point other than the
    /// identity.
    InvalidPoint,
}

/// A 32-byte hexadecimal field, as a scalar field must be.
pub open spec fn scalar_field_ok(text: Seq<char>) -> bool {
    is_hex_text(text) && hex_bytes(text).len() == 32
}

/// The scalar that a scalar field holds: its bytes reduced mod ℓ.
pub open spec fn scalar_field_value(text: Seq<char>) -> int {
    le_value(hex_bytes(text)) % group_order()
}

/// A 32-byte hexadecimal field that encodes a point other than the identity.
pub open spec fn point_field_ok(text: Seq<char>) -> bool {
    scalar_field_ok(text) && encodes_non_identity(hex_bytes(text))
}

/// The logarithm of the point that a valid point field encodes.
pub open spec fn point_field_log(text: Seq<char>) -> int {
    choose|x: int| 0 < x < group_order() && encoding_of(x)@ == hex_bytes(text)
}

/// What decoding a scalar field gives, error by error.
pub open spec fn scalar_field_result(text: Seq<char>, name: Seq<char>, r: Result<Scalar, DecodeError>) -> bool {
    match r {
        Ok(s) => scalar_field_ok(text) && s.value() == scalar_field_value(text),
        Err(DecodeError::InvalidHex(_)) => !is_hex_text(text),
        Err(DecodeError::InvalidLength(field)) => {
            is_hex_text(text) && hex_bytes(text).len() != 32 && field@ == name
        },
        Err(DecodeError::InvalidPoint) => false,
    }
}

/// What decoding a point field gives, error by error.
pub open spec fn point_field_result(
    text: Seq<char>,
    name: Seq<char>,
    r: Result<RistrettoPoint, DecodeError>,
) -> bool {
    match r {
        Ok(p) => {
            &&& point_field_ok(text)
            &&& point_log(p) == point_field_log(text)
            &&& encoding_of(point_log(p))@ == hex_bytes(text)
            &&& 0 < point_log(p) < group_order()
        },
        Err(DecodeError::InvalidHex(_)) => !is_hex_text(text),
        Err(DecodeError::InvalidLength(field)) => {
            is_hex_text(text) && hex_bytes(text).len() != 32 && field@ == name
        },
        Err(DecodeError::InvalidPoint) => scalar_field_ok(text) && !encodes_non_identity(
            hex_bytes(text),
        ),
    }
}

/// Decodes hexadecimal text into exactly 32 bytes.
fn decode_32(text: &str, name: &str) -> (r: Result<[u8; 32], DecodeError>)
    ensures
        match r {
            Ok(b) => scalar_field_ok(text@) && b@ == hex_bytes(text@),
            Err(DecodeError::InvalidHex(_)) => !is_hex_text(text@),
            Err(DecodeError::InvalidLength(field)) => {
                is_hex_text(text@) && hex_bytes(text@).len() != 32 && field@ == name@
            },
            Err(DecodeError::InvalidPoint) => false,
        },
{
    match hex_decode(text) {
        Err(e) => Err(DecodeError::InvalidHex(e)),
        Ok(bytes) => {
            if bytes.len() != 32 {
                Err(DecodeError::InvalidLength(name.to_owned()))
            } else {
                let b = take_32(bytes.as_slice(), 0);
                proof {
                    assert(bytes@.subrange(0, 32) == bytes@);
                }
                Ok(b)
            }
        },
    }
}

/// Bytes that encode no point but the identity encode no point other than
/// the identity.
proof fn lemma_no_other_encoding(b: [u8; 32])
    requires
        forall|x: int| is_point_log(x) && encoding_of(x) == b ==> x == 0,
    ensures
        !encodes_non_identity(b@),
{
    assert forall|x: int| 0 < x < group_order() implies encoding_of(x)@ != b@ by {
        assert(is_point_log(x));
        if encoding_of(x)@ == b@ {
            assert(encoding_of(x) == b);
        }
    }
}

/// Decodes a scalar field: 32 bytes, reduced mod ℓ.
pub fn decode_scalar(text: &str, name: &str) -> (r: Result<Scalar, DecodeError>)
    ensures
        scalar_field_result(text@, name@, r),
{
    match decode_32(text, name) {
        Ok(b) => Ok(Scalar::from_bytes_mod_order(b)),
        Err(e) => Err(e),
    }
}

/// Decodes a point field: the canonical encoding of a point other than the
/// identity.
pub fn decode_point(text: &str, name: &str) -> (r: Result<RistrettoPoint, DecodeError>)
    ensures
        point_field_result(text@, name@, r),
{
    match decode_32(text, name) {
        Err(e) => Err(e),
        Ok(b) => match decompress(b) {
            None => {
                proof {
                    lemma_no_other_encoding(b);
                }
                Err(DecodeError::InvalidPoint)
            },
            Some(p) => {
                if is_identity(&p) {
                    proof {
                        lemma_no_other_encoding(b);
                    }
                    Err(DecodeError::InvalidPoint)
                } else {
                    proof {
                        assert(encoding_of(point_log(p))@ == hex_bytes(text@));
                        assert(encodes_non_identity(hex_bytes(text@)));
                        let x = point_field_log(text@);
                        assert(encoding_of(x)@ == b@);
                        assert(encoding_of(x) == b);
                    }
                    Ok(p)
                }
            },
        },
    }
}

/// Encodes a scalar: its 32 canonical bytes in hexadecimal.
pub fn encode_scalar(s: Scalar) -> (r: String)
    ensures
        r@ == hex_of(s.bytes_view()),
        scalar_field_ok(r@),
        scalar_field_value(r@) == s.value(),
{
    let b = s.to_bytes();
    proof {
        use_type_invariant(&s);
        lemma_scalar_round_trip(s);
    }
    hex_encode(b.as_slice())
}

/// Encodes a point: its canonical 32-byte encoding in hexadecimal.
pub fn encode_point(p: RistrettoPoint) -> (r: String)
    ensures
        r@ == hex_of(encoding_of(point_log(p))@),
        0 < point_log(p) < group_order() ==> point_field_ok(r@) && point_field_log(r@)
            == point_log(p),
{
    let b = compress(&p);
    let r = hex_encode(b.as_slice());
    proof {
        lemma_hex_round_trip(b@);
        if 0 < point_log(p) < group_order() {
            assert(encodes_non_identity(hex_bytes(r@)));
            let x = point_field_log(r@);
            assert(encoding_of(x)@ == b@);
            assert(encoding_of(x) == b);
            assert(is_point_log(x));
        }
    }
    r
}

/// Encoding a scalar and decoding the text gives the scalar back.
pub proof fn lemma_scalar_round_trip(s: Scalar)
    requires
        s.canonical(),
    ensures
        scalar_field_ok(hex_of(s.bytes_view())),
        scalar_field_value(hex_of(s.bytes_view())) == s.value(),
{
    lemma_hex_round_trip(s.bytes_view());
    lemma_small_mod(s.value() as nat, group_order() as nat);
}

/// Encoding a point other than the identity and decoding the text is accepted
/// and gives the point with the same canonical encoding, that is the point
/// itself.
pub proof fn lemma_point_round_trip(x: int)
    requires
        0 < x < group_order(),
    ensures
        point_field_ok(hex_of(encoding_of(x)@)),
        encoding_of(point_field_log(hex_of(encoding_of(x)@))) == encoding_of(x),
{
    lemma_hex_round_trip(encoding_of(x)@);
    let y = point_field_log(hex_of(encoding_of(x)@));
    assert(encodes_non_identity(hex_bytes(hex_of(encoding_of(x)@))));
    assert(encoding_of(y)@ == encoding_of(x)@);
}

/// A registration request as it travels: the client's name and hexadecimal
/// `phi0` and `C`.
pub struct SetupRequestEncoded {
    pub id: String,
    pub phi0: String,
    pub c: String,
}

/// A registration request: the client's name, `phi0` and the verifier `C`.
pub struct SetupRequest {
    pub id: String,
    pub phi0: Scalar,
    pub c: RistrettoPoint,
}

impl SetupRequestEncoded {
    /// Decodes `phi0`, then `C`; the first field that fails names the error.
    pub fn decode(self) -> (r: Result<SetupRequest, DecodeError>)
        ensures
            match r {
                Ok(req) => {
                    &&& req.id@ == self.id@
                    &&& scalar_field_ok(self.phi0@)
                    &&& req.phi0.value() == scalar_field_value(self.phi0@)
                    &&& point_field_ok(self.c@)
                    &&& point_log(req.c) == point_field_log(self.c@)
                },
                Err(e) => if scalar_field_ok(self.phi0@) {
                    point_field_result(self.c@, "c"@, Err(e))
                } else {
                    scalar_field_result(self.phi0@, "phi0"@, Err(e))
                },
            },
    {
        let phi0 = match decode_scalar(self.phi0.as_str(), "phi0") {
            Ok(s) => s,
            Err(e) => {
                return Err(e);
            },
        };
        let c = match decode_point(self.c.as_str(), "c") {
            Ok(p) => p,
            Err(e) => {
                return Err(e);
            },
        };
        Ok(SetupRequest { id: self.id, phi0, c })
    }
}

impl SetupRequest {
    pub fn new(id: String, phi0: Scalar, c: RistrettoPoint) -> (r: Self)
        ensures
            r.id@ == id@,
            r.phi0 == phi0,
            r.c == c,
    {
        Self { id, phi0, c }
    }

    /// Writes `phi0` and `C` in hexadecimal.
    pub fn encode(self) -> (r: SetupRequestEncoded)
        ensures
            r.id@ == self.id@,
            r.phi0@ == hex_of(self.phi0.bytes_view()),
            r.c@ == hex_of(encoding_of(point_log(self.c))@),
            scalar_field_ok(r.phi0@),
            scalar_field_value(r.phi0@) == self.phi0.value(),
            0 < point_log(self.c) < group_order() ==> point_field_ok(r.c@) && point_field_log(
                r.c@,
            ) == point_log(self.c),
    {
        let phi0 = encode_scalar(self.phi0);
        let c = encode_point(self.c);
        SetupRequestEncoded { id: self.id, phi0, c }
    }
}

/// A login request as it travels: the client's name and hexadecimal `U`.
pub struct ExchangeRequestEncoded {
    pub id: String,
    pub u: String,
}

/// A login request: the client's name and its commitment `U`.
pub struct ExchangeRequest {
    pub id: String,
    pub u: RistrettoPoint,
}

impl ExchangeRequestEncoded {
    pub fn decode(self) -> (r: Result<ExchangeRequest, DecodeError>)
        ensures
            match r {
                Ok(req) => {
                    &&& req.id@ == self.id@
                    &&& point_field_ok(self.u@)
                    &&& point_log(req.u) == point_field_log(self.u@)
                },
                Err(e) => point_field_result(self.u@, "u"@, Err(e)),
            },
    {
        match decode_point(self.u.as_str(), "u") {
            Ok(u) => Ok(ExchangeRequest { id: self.id, u }),
            Err(e) => Err(e),
        }
    }
}

impl ExchangeRequest {
    pub fn new(id: String, u: RistrettoPoint) -> (r: Self)
        ensures
            r.id@ == id@,
            r.u == u,
    {
        Self { id, u }
    }

    pub fn encode(self) -> (r: ExchangeRequestEncoded)
        ensures
            r.id@ == self.id@,
            r.u@ == hex_of(encoding_of(point_log(self.u))@),
            0 < point_log(self.u) < group_order() ==> point_field_ok(r.u@) && point_field_log(
                r.u@,
            ) == point_log(self.u),
    {
        let u = encode_point(self.u);
        ExchangeRequestEncoded { id: self.id, u }
    }
}

/// The server's answer to a login as it travels: hexadecimal `V`.
pub struct ExchangeResponseEncoded {
    pub v: String,
}

/// The server's answer to a login: its commitment `V`.
pub struct ExchangeResponse {
    pub v: RistrettoPoint,
}

impl ExchangeResponseEncoded {
    pub fn decode(self) -> (r: Result<ExchangeResponse, DecodeError>)
        ensures
            match r {
                Ok(resp) => point_field_ok(self.v@) && point_log(resp.v) == point_field_log(self.v@),
                Err(e) => point_field_result(self.v@, "v"@, Err(e)),
            },
    {
        match decode_point(self.v.as_str(), "v") {
            Ok(v) => Ok(ExchangeResponse { v }),
            Err(e) => Err(e),
        }
    }
}

impl ExchangeResponse {
    pub fn new(v: RistrettoPoint) -> (r: Self)
        ensures
            r.v == v,
    {
        Self { v }
    }

    pub fn encode(self) -> (r: ExchangeResponseEncoded)
        ensures
            r.v@ == hex_of(encoding_of(point_log(self.v))@),
            0 < point_log(self.v) < group_order() ==> point_field_ok(r.v@) && point_field_log(
                r.v@,
            ) == point_log(self.v),
    {
        ExchangeResponseEncoded { v: encode_point(self.v) }
    }
}

/// A confirmation as it travels: the client's name and its hexadecimal key.
pub struct VerifyRequestEncoded {
    pub idc: String,
    pub key: String,
}

/// A confirmation: the client's name and the 32-byte key it derived.
pub struct VerifyRequest {
    pub idc: String,
    pub key: [u8; 32],
}

impl VerifyRequestEncoded {
    pub fn new(idc: String, key: String) -> (r: Self)
        ensures
            r.idc@ == idc@,
            r.key@ == key@,
    {
        Self { idc, key }
    }

    pub fn decode(self) -> (r: Result<VerifyRequest, DecodeError>)
        ensures
            match r {
                Ok(req) => {
                    &&& req.idc@ == self.idc@
                    &&& scalar_field_ok(self.key@)
                    &&& req.key@ == hex_bytes(self.key@)
                },
                Err(DecodeError::InvalidHex(_)) => !is_hex_text(self.key@),
                Err(DecodeError::InvalidLength(field)) => {
                    &&& is_hex_text(self.key@)
                    &&& hex_bytes(self.key@).len() != 32
                    &&& field@ == "key"@
                },
                Err(DecodeError::InvalidPoint) => false,
            },
    {
        match decode_32(self.key.as_str(), "key") {
            Ok(key) => Ok(VerifyRequest { idc: self.idc, key }),
            Err(e) => Err(e),
        }
    }
}

impl VerifyRequest {
    /// Writes the key in hexadecimal.
    pub fn encode(self) -> (r: VerifyRequestEncoded)
        ensures
            r.idc@ == self.idc@,
            r.key@ == hex_of(self.key@),
            scalar_field_ok(r.key@),
            hex_bytes(r.key@) == self.key@,
    {
        proof {
            lemma_hex_round_trip(self.key@);
        }
        let key = hex_encode(self.key.as_slice());
        VerifyRequestEncoded { idc: self.idc, key }
    }
}

} // verus!
