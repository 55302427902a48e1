//! The prime-order group and its scalars.
//!
//! Ristretto255 is cyclic of prime order ℓ and generated by its basepoint G, so
//! every point is `G·x` for exactly one `x` in `0..ℓ`. Contracts describe a point
//! by that `x` (its discrete logarithm, `point_log`): addition of points is
//! addition of logs mod ℓ, and multiplication by a scalar is multiplication mod ℓ.
//! Nobody can compute `point_log`; it only serves to state what the group
//! operations of `curve25519_dalek` do.

use curve25519_dalek::ristretto::{CompressedRistretto, RistrettoPoint};
use vstd::prelude::*;

verus! {

#[verifier::external_type_specification]
#[verifier::external_body]
pub struct ExRistrettoPoint(curve25519_dalek::ristretto::RistrettoPoint);

/// ℓ = 2^252 + 27742317777372353535851937790883648493, the order of the group.
pub open spec fn group_order() -> int {
    let two_63: int = 9223372036854775808;
    two_63 * two_63 * two_63 * two_63 + 27742317777372353535851937790883648493
}

/// The discrete logarithm of `p` to the base G, in `0..ℓ`.
pub uninterp spec fn point_log(p: RistrettoPoint) -> int;

/// The canonical 32-byte Ristretto encoding of the point `G·log`.
pub uninterp spec fn encoding_of(log: int) -> [u8; 32];

/// The discrete logarithm of the point that `RistrettoPoint::hash_from_bytes`
/// with SHA-512 derives from `label`.
pub uninterp spec fn hashed_point_log(label: Seq<u8>) -> int;

/// A point of the group: its logarithm lies in `0..ℓ`.
pub open spec fn is_point_log(x: int) -> bool {
    0 <= x < group_order()
}

/// `b` is the canonical encoding of some point other than the identity.
pub open spec fn encodes_non_identity(b: Seq<u8>) -> bool {
    exists|x: int| 0 < x < group_order() && encoding_of(x)@ == b
}

/// The little-endian integer that the bytes `b` spell.
pub open spec fn le_value(b: Seq<u8>) -> int
    decreases b.len(),
{
    if b.len() == 0 {
        0
    } else {
        b[0] as int + 256 * le_value(b.drop_first())
    }
}

/// A scalar: an integer mod ℓ, held as its canonical 32 little-endian bytes.
#[derive(Clone, Copy)]
pub struct Scalar {
    pub(crate) bytes: [u8; 32],
}

impl Scalar {
    /// The 32 little-endian bytes of the scalar.
    pub closed spec fn bytes_view(self) -> Seq<u8> {
        self.bytes@
    }

    /// The integer that the scalar stands for.
    pub open spec fn value(self) -> int {
        le_value(self.bytes_view())
    }

    /// Every scalar is reduced: its value lies in `0..ℓ`.
    #[verifier::type_invariant]
    pub open spec fn canonical(self) -> bool {
        &&& self.bytes_view().len() == 32
        &&& 0 <= self.value() < group_order()
    }

    /// The scalar's canonical little-endian bytes.
    pub fn to_bytes(&self) -> (r: [u8; 32])
        ensures
            r@ == self.bytes_view(),
    {
        self.bytes
    }

    /// Whether the scalar is zero. All 32 bytes are read whatever their
    /// contents.
    pub fn is_zero(&self) -> (r: bool)
        ensures
            r == (self.value() == 0),
    {
        let mut acc: u8 = 0;
        let mut i: usize = 0;
        while i < 32
            invariant
                0 <= i <= 32,
                (acc == 0) <==> (forall|j: int| 0 <= j < i ==> self.bytes@[j] == 0),
            decreases 32 - i,
        {
            let x = self.bytes[i];
            let next = acc | x;
            proof {
                assert((next == 0) <==> (acc == 0 && x == 0)) by (bit_vector)
                    requires
                        next == acc | x,
                ;
                if next == 0 {
                    assert forall|j: int| 0 <= j < i + 1 implies self.bytes@[j] == 0 by {
                        if j < i {
                        } else {
                            assert(j == i);
                        }
                    }
                }
            }
            acc = next;
            i = i + 1;
        }
        proof {
            lemma_le_value_zero(self.bytes@);
        }
        acc == 0
    }

    /// Reduces the 256-bit little-endian integer `bytes` modulo ℓ.
    pub fn from_bytes_mod_order(bytes: [u8; 32]) -> (r: Scalar)
        ensures
            r.value() == le_value(bytes@) % group_order(),
    {
        let reduced = reduce_mod_order(bytes);
        proof {
            lemma_le_value_bound(bytes@);
        }
        Scalar { bytes: reduced }
    }
}

/// The number of draws after which a run of zero scalars counts as a failure
/// of the random source.
pub const RANDOM_SCALAR_DRAWS: usize = 8;

/// Draws a nonzero scalar from the operating system's random source, drawing
/// again on zero. `None` when the source fails, or when every one of
/// `RANDOM_SCALAR_DRAWS` draws was zero, which a working source makes
/// impossible in practice.
pub fn random_nonzero_scalar() -> (r: Option<Scalar>)
    ensures
        r matches Some(s) ==> s.value() != 0,
{
    let mut draws: usize = 0;
    while draws < RANDOM_SCALAR_DRAWS
        invariant
            draws <= RANDOM_SCALAR_DRAWS,
        decreases RANDOM_SCALAR_DRAWS - draws,
    {
        let wide = match os_random_bytes() {
            Some(w) => w,
            None => {
                return None;
            },
        };
        if let Some(s) = scalar_from_wide(&wide) {
            return Some(s);
        }
        draws = draws + 1;
    }
    None
}

/// The scalar that 64 drawn bytes give: their little-endian value reduced mod
/// ℓ, or `None` when that is zero and the draw must be repeated.
pub fn scalar_from_wide(wide: &[u8; 64]) -> (r: Option<Scalar>)
    ensures
        r is Some <==> le_value(wide@) % group_order() != 0,
        r matches Some(s) ==> s.value() == le_value(wide@) % group_order(),
{
    let reduced = reduce_wide_mod_order(wide);
    proof {
        lemma_le_value_bound(wide@);
    }
    let s = Scalar { bytes: reduced };
    if s.is_zero() {
        None
    } else {
        Some(s)
    }
}

/// Relies on `RngCore::try_fill_bytes` of `rand::rngs::OsRng`: 64 bytes from
/// the operating system, or `None` when its source fails. Nothing is promised
/// of the bytes.
#[verifier::external_body]
fn os_random_bytes() -> (r: Option<[u8; 64]>) {
    let mut buf = [0u8; 64];
    match rand::RngCore::try_fill_bytes(&mut rand::rngs::OsRng, &mut buf) {
        Ok(()) => Some(buf),
        Err(_) => None,
    }
}

/// Relies on `curve25519_dalek::Scalar::from_bytes_mod_order_wide`, which
/// reduces a 512-bit little-endian integer modulo ℓ and keeps the canonical
/// bytes.
#[verifier::external_body]
fn reduce_wide_mod_order(bytes: &[u8; 64]) -> (r: [u8; 32])
    ensures
        le_value(r@) == le_value(bytes@) % group_order(),
{
    curve25519_dalek::Scalar::from_bytes_mod_order_wide(bytes).to_bytes()
}

/// Relies on `curve25519_dalek::Scalar::from_bytes_mod_order`, which reduces a
/// 256-bit little-endian integer modulo ℓ and keeps the canonical bytes.
#[verifier::external_body]
fn reduce_mod_order(bytes: [u8; 32]) -> (r: [u8; 32])
    ensures
        le_value(r@) == le_value(bytes@) % group_order(),
{
    curve25519_dalek::Scalar::from_bytes_mod_order(bytes).to_bytes()
}

/// A little-endian integer is zero exactly when all of its bytes are.
pub proof fn lemma_le_value_zero(b: Seq<u8>)
    ensures
        (le_value(b) == 0) <==> (forall|j: int| 0 <= j < b.len() ==> b[j] == 0),
    decreases b.len(),
{
    if b.len() > 0 {
        lemma_le_value_zero(b.drop_first());
        lemma_le_value_bound(b.drop_first());
        if le_value(b) == 0 {
            assert forall|j: int| 0 <= j < b.len() implies b[j] == 0 by {
                if j > 0 {
                    assert(b[j] == b.drop_first()[j - 1]);
                }
            }
        } else {
            if forall|j: int| 0 <= j < b.len() ==> b[j] == 0 {
                assert forall|j: int| 0 <= j < b.drop_first().len() implies b.drop_first()[j] == 0 by {
                    assert(b.drop_first()[j] == b[j + 1]);
                }
                assert(b[0] == 0);
            }
        }
    }
}

pub proof fn lemma_le_value_bound(b: Seq<u8>)
    ensures
        le_value(b) >= 0,
    decreases b.len(),
{
    if b.len() > 0 {
        lemma_le_value_bound(b.drop_first());
    }
}

/// Relies on `<RistrettoPoint as group::Group>::generator`: the basepoint G,
/// the base of `point_log`.
#[verifier::external_body]
pub(crate) fn generator() -> (r: RistrettoPoint)
    ensures
        point_log(r) == 1,
{
    <RistrettoPoint as group::Group>::generator()
}

/// Relies on `RistrettoPoint::hash_from_bytes::<Sha512>`, which maps a byte
/// string to a point deterministically.
#[verifier::external_body]
pub(crate) fn hash_to_group(label: &[u8]) -> (r: RistrettoPoint)
    ensures
        point_log(r) == hashed_point_log(label@),
        is_point_log(point_log(r)),
{
    RistrettoPoint::hash_from_bytes::<sha2::Sha512>(label)
}

/// Relies on `Add for &RistrettoPoint`: the group operation.
#[verifier::external_body]
pub(crate) fn point_add(a: &RistrettoPoint, b: &RistrettoPoint) -> (r: RistrettoPoint)
    ensures
        point_log(r) == (point_log(*a) + point_log(*b)) % group_order(),
{
    a + b
}

/// Relies on `Sub for &RistrettoPoint`: adding the inverse of `b`.
#[verifier::external_body]
pub(crate) fn point_sub(a: &RistrettoPoint, b: &RistrettoPoint) -> (r: RistrettoPoint)
    ensures
        point_log(r) == (point_log(*a) - point_log(*b)) % group_order(),
{
    a - b
}

/// Relies on `Mul<&Scalar> for &RistrettoPoint`: scalar multiplication. The
/// scalar's canonical bytes become a `curve25519_dalek::Scalar` unchanged.
#[verifier::external_body]
pub(crate) fn point_mul(p: &RistrettoPoint, s: &Scalar) -> (r: RistrettoPoint)
    ensures
        point_log(r) == (point_log(*p) * s.value()) % group_order(),
{
    p * curve25519_dalek::Scalar::from_bytes_mod_order(s.bytes)
}

/// Relies on `<RistrettoPoint as group::Group>::is_identity`.
#[verifier::external_body]
pub(crate) fn is_identity(p: &RistrettoPoint) -> (r: bool)
    ensures
        r == (point_log(*p) == 0),
{
    bool::from(<RistrettoPoint as group::Group>::is_identity(p))
}

/// Relies on `RistrettoPoint::compress`, whose encoding is canonical: no other
/// point has the same encoding.
#[verifier::external_body]
pub(crate) fn compress(p: &RistrettoPoint) -> (r: [u8; 32])
    ensures
        r == encoding_of(point_log(*p)),
        forall|x: int| is_point_log(x) && encoding_of(x) == r ==> x == point_log(*p),
{
    p.compress().to_bytes()
}

/// Relies on `CompressedRistretto::decompress`: `Some` exactly for the
/// canonical encoding of a point, and then that point, whose encoding is the
/// only one it has.
#[verifier::external_body]
pub(crate) fn decompress(bytes: [u8; 32]) -> (r: Option<RistrettoPoint>)
    ensures
        match r {
            Some(p) => {
                &&& is_point_log(point_log(p))
                &&& encoding_of(point_log(p)) == bytes
                &&& forall|x: int| is_point_log(x) && encoding_of(x) == bytes ==> x == point_log(p)
            },
            None => forall|x: int| is_point_log(x) ==> encoding_of(x) != bytes,
        },
{
    CompressedRistretto(bytes).decompress()
}

} // verus!
