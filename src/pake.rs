//! The algebraic steps of SPAKE2+: password derivation, the verifier, the two
//! commitments and the two key computations.

use crate::bytes::{append_bytes, take_32};
use crate::hashing::{sha512, sha512_of};
use crate::ristretto::{
    compress, encoding_of, generator, group_order, hash_to_group, hashed_point_log, le_value,
    point_add, point_log, point_mul, point_sub, random_nonzero_scalar, Scalar,
};
use curve25519_dalek::ristretto::RistrettoPoint;
use vstd::arithmetic::div_mod::{
    lemma_add_mod_noop, lemma_fundamental_div_mod, lemma_mod_multiples_vanish,
    lemma_mul_mod_noop_left, lemma_small_mod, lemma_sub_mod_noop_right,
};
use vstd::prelude::*;
use vstd::utf8::encode_utf8;

verus! {

broadcast use vstd::array::group_array_axioms;

/// The logarithm of the fixed point `A = hash_to_group("A")`.
pub open spec fn log_a() -> int {
    hashed_point_log(seq![65u8])
}

/// The logarithm of the fixed point `B = hash_to_group("B")`.
pub open spec fn log_b() -> int {
    hashed_point_log(seq![66u8])
}

/// The fixed point A, which blinds the client's commitment.
pub fn a_point() -> (r: RistrettoPoint)
    ensures
        point_log(r) == log_a(),
{
    let label: [u8; 1] = [65u8];
    proof {
        assert(label@ =~= seq![65u8]);
    }
    hash_to_group(label.as_slice())
}

/// The fixed point B, which blinds the server's commitment.
pub fn b_point() -> (r: RistrettoPoint)
    ensures
        point_log(r) == log_b(),
{
    let label: [u8; 1] = [66u8];
    proof {
        assert(label@ =~= seq![66u8]);
    }
    hash_to_group(label.as_slice())
}

/// What the key derivation hashes, in this order:
/// `phi0 ‖ IDc ‖ IDs ‖ enc(U) ‖ enc(V) ‖ enc(W) ‖ enc(D)`.
pub open spec fn transcript(
    phi0: Seq<u8>,
    idc: Seq<u8>,
    ids: Seq<u8>,
    u: int,
    v: int,
    w: int,
    d: int,
) -> Seq<u8> {
    phi0 + idc + ids + encoding_of(u)@ + encoding_of(v)@ + encoding_of(w)@ + encoding_of(d)@
}

/// The session key for a transcript: the first half of its SHA-512 digest.
pub open spec fn session_key_of(t: Seq<u8>) -> Seq<u8> {
    sha512_of(t).subrange(0, 32)
}

/// The key derivation hash H'.
pub fn h_prime(
    phi0: Scalar,
    idc: &str,
    ids: &str,
    u: RistrettoPoint,
    v: RistrettoPoint,
    w: RistrettoPoint,
    d: RistrettoPoint,
) -> (r: [u8; 32])
    ensures
        r@ == session_key_of(
            transcript(
                phi0.bytes_view(),
                encode_utf8(idc@),
                encode_utf8(ids@),
                point_log(u),
                point_log(v),
                point_log(w),
                point_log(d),
            ),
        ),
{
    let mut input: Vec<u8> = Vec::new();
    let phi0_bytes = phi0.to_bytes();
    append_bytes(&mut input, phi0_bytes.as_slice());
    append_bytes(&mut input, idc.as_bytes());
    append_bytes(&mut input, ids.as_bytes());
    let u_bytes = compress(&u);
    append_bytes(&mut input, u_bytes.as_slice());
    let v_bytes = compress(&v);
    append_bytes(&mut input, v_bytes.as_slice());
    let w_bytes = compress(&w);
    append_bytes(&mut input, w_bytes.as_slice());
    let d_bytes = compress(&d);
    append_bytes(&mut input, d_bytes.as_slice());
    let hash = sha512(input.as_slice());
    take_32(hash.as_slice(), 0)
}

/// The first scalar that `h` derives from a digest `m`.
pub open spec fn left_scalar_of(m: Seq<u8>) -> int {
    le_value(sha512_of(m).subrange(0, 32)) % group_order()
}

/// The second scalar that `h` derives from a digest `m`.
pub open spec fn right_scalar_of(m: Seq<u8>) -> int {
    le_value(sha512_of(m).subrange(32, 64)) % group_order()
}

/// Hashes `m` to 64 bytes and reduces each half to a scalar.
pub fn h(m: &[u8]) -> (r: (Scalar, Scalar))
    ensures
        r.0.value() == left_scalar_of(m@),
        r.1.value() == right_scalar_of(m@),
{
    let hash = sha512(m);
    let left = take_32(hash.as_slice(), 0);
    let right = take_32(hash.as_slice(), 32);
    (Scalar::from_bytes_mod_order(left), Scalar::from_bytes_mod_order(right))
}

/// What the password derivation hashes: `SHA-512(password ‖ IDc ‖ IDs)`.
pub open spec fn secrets_digest(password: Seq<char>, idc: Seq<char>, ids: Seq<char>) -> Seq<u8> {
    sha512_of(encode_utf8(password) + encode_utf8(idc) + encode_utf8(ids))
}

/// `phi0` for a password, a client and a server.
pub open spec fn phi0_of(password: Seq<char>, idc: Seq<char>, ids: Seq<char>) -> int {
    left_scalar_of(secrets_digest(password, idc, ids))
}

/// `phi1` for a password, a client and a server.
pub open spec fn phi1_of(password: Seq<char>, idc: Seq<char>, ids: Seq<char>) -> int {
    right_scalar_of(secrets_digest(password, idc, ids))
}

/// Derives the pair `(phi0, phi1)` from the password and both identities.
pub fn client_secret(password: &str, idc: &str, ids: &str) -> (r: (Scalar, Scalar))
    ensures
        r.0.value() == phi0_of(password@, idc@, ids@),
        r.1.value() == phi1_of(password@, idc@, ids@),
{
    let mut input: Vec<u8> = Vec::new();
    append_bytes(&mut input, password.as_bytes());
    append_bytes(&mut input, idc.as_bytes());
    append_bytes(&mut input, ids.as_bytes());
    let digest = sha512(input.as_slice());
    h(digest.as_slice())
}

/// The verifier `C = G·phi1` that the server stores.
pub fn client_cipher(phi1: Scalar) -> (r: RistrettoPoint)
    ensures
        point_log(r) == phi1.value(),
{
    proof {
        use_type_invariant(&phi1);
        lemma_small_mod(phi1.value() as nat, group_order() as nat);
    }
    let g = generator();
    point_mul(&g, &phi1)
}

/// The logarithm of a commitment `G·eph + base·phi0`.
pub open spec fn commit_log(base: int, phi0: int, eph: int) -> int {
    (eph + base * phi0) % group_order()
}

proof fn lemma_commit(g_eph: int, base_phi0: int, base: int, phi0: int, eph: int)
    requires
        g_eph == (1 * eph) % group_order(),
        base_phi0 == (base * phi0) % group_order(),
    ensures
        (g_eph + base_phi0) % group_order() == commit_log(base, phi0, eph),
{
    lemma_add_mod_noop(eph, base * phi0, group_order());
}

/// `G·eph + base·phi0`.
fn commit(base: RistrettoPoint, phi0: Scalar, eph: Scalar) -> (r: RistrettoPoint)
    ensures
        point_log(r) == commit_log(point_log(base), phi0.value(), eph.value()),
{
    let g = generator();
    let g_eph = point_mul(&g, &eph);
    let blind = point_mul(&base, &phi0);
    let r = point_add(&g_eph, &blind);
    proof {
        lemma_commit(point_log(g_eph), point_log(blind), point_log(base), phi0.value(), eph.value());
    }
    r
}

/// The client's commitment `U = G·alpha + A·phi0` for a given `alpha`.
pub fn client_initial_with(phi0: Scalar, alpha: Scalar) -> (u: RistrettoPoint)
    ensures
        point_log(u) == commit_log(log_a(), phi0.value(), alpha.value()),
{
    commit(a_point(), phi0, alpha)
}

/// The client's commitment with a fresh nonzero `alpha`; `None` when the random
/// source fails.
pub fn client_initial(phi0: Scalar) -> (r: Option<(RistrettoPoint, Scalar)>)
    ensures
        r matches Some((u, alpha)) ==> {
            &&& alpha.value() != 0
            &&& point_log(u) == commit_log(log_a(), phi0.value(), alpha.value())
        },
{
    match random_nonzero_scalar() {
        Some(alpha) => Some((client_initial_with(phi0, alpha), alpha)),
        None => None,
    }
}

/// The server's commitment `V = G·beta + B·phi0` for a given `beta`.
pub fn server_initial_with(phi0: Scalar, beta: Scalar) -> (v: RistrettoPoint)
    ensures
        point_log(v) == commit_log(log_b(), phi0.value(), beta.value()),
{
    commit(b_point(), phi0, beta)
}

/// The server's commitment with a fresh nonzero `beta`; `None` when the random
/// source fails.
pub fn server_initial(phi0: Scalar) -> (r: Option<(RistrettoPoint, Scalar)>)
    ensures
        r matches Some((v, beta)) ==> {
            &&& beta.value() != 0
            &&& point_log(v) == commit_log(log_b(), phi0.value(), beta.value())
        },
{
    match random_nonzero_scalar() {
        Some(beta) => Some((server_initial_with(phi0, beta), beta)),
        None => None,
    }
}

/// The key the client derives: `W = (V − B·phi0)·alpha`, `D = (V − B·phi0)·phi1`.
pub open spec fn client_key_spec(
    idc: Seq<u8>,
    ids: Seq<u8>,
    phi0: Scalar,
    phi1: int,
    alpha: int,
    u: int,
    v: int,
) -> Seq<u8> {
    let t = v - log_b() * phi0.value();
    session_key_of(
        transcript(
            phi0.bytes_view(),
            idc,
            ids,
            u,
            v,
            (t * alpha) % group_order(),
            (t * phi1) % group_order(),
        ),
    )
}

/// The key the server derives: `W = (U − A·phi0)·beta`, `D = C·beta`.
pub open spec fn server_key_spec(
    idc: Seq<u8>,
    ids: Seq<u8>,
    phi0: Scalar,
    c: int,
    beta: int,
    u: int,
    v: int,
) -> Seq<u8> {
    let t = u - log_a() * phi0.value();
    session_key_of(
        transcript(
            phi0.bytes_view(),
            idc,
            ids,
            u,
            v,
            (t * beta) % group_order(),
            (c * beta) % group_order(),
        ),
    )
}

/// `((p − q mod ℓ) mod ℓ)·s mod ℓ` is `(p − q)·s mod ℓ`.
proof fn lemma_unblind(p: int, q: int, s: int)
    ensures
        ((((p - q % group_order()) % group_order()) * s) % group_order()) == ((p - q) * s)
            % group_order(),
{
    let l = group_order();
    lemma_sub_mod_noop_right(p, q, l);
    lemma_mul_mod_noop_left(p - q, s, l);
}

/// The client's session key.
pub fn client_compute_key(
    idc: &str,
    ids: &str,
    phi0: Scalar,
    phi1: Scalar,
    alpha: Scalar,
    u: RistrettoPoint,
    v: RistrettoPoint,
) -> (r: [u8; 32])
    ensures
        r@ == client_key_spec(
            encode_utf8(idc@),
            encode_utf8(ids@),
            phi0,
            phi1.value(),
            alpha.value(),
            point_log(u),
            point_log(v),
        ),
{
    let b = b_point();
    let blind = point_mul(&b, &phi0);
    let t = point_sub(&v, &blind);
    let w = point_mul(&t, &alpha);
    let d = point_mul(&t, &phi1);
    proof {
        lemma_unblind(point_log(v), log_b() * phi0.value(), alpha.value());
        lemma_unblind(point_log(v), log_b() * phi0.value(), phi1.value());
    }
    h_prime(phi0, idc, ids, u, v, w, d)
}

/// The server's session key.
pub fn server_compute_key(
    idc: &str,
    ids: &str,
    phi0: Scalar,
    c: RistrettoPoint,
    beta: Scalar,
    u: RistrettoPoint,
    v: RistrettoPoint,
) -> (r: [u8; 32])
    ensures
        r@ == server_key_spec(
            encode_utf8(idc@),
            encode_utf8(ids@),
            phi0,
            point_log(c),
            beta.value(),
            point_log(u),
            point_log(v),
        ),
{
    let a = a_point();
    let blind = point_mul(&a, &phi0);
    let t = point_sub(&u, &blind);
    let w = point_mul(&t, &beta);
    let d = point_mul(&c, &beta);
    proof {
        lemma_unblind(point_log(u), log_a() * phi0.value(), beta.value());
    }
    h_prime(phi0, idc, ids, u, v, w, d)
}

/// Password derivation is deterministic: any two derivations from the same
/// password and identities give the same `(phi0, phi1)`.
pub proof fn lemma_secrets_deterministic(
    password: Seq<char>,
    idc: Seq<char>,
    ids: Seq<char>,
    first: (Scalar, Scalar),
    second: (Scalar, Scalar),
)
    requires
        first.0.value() == phi0_of(password, idc, ids),
        first.1.value() == phi1_of(password, idc, ids),
        second.0.value() == phi0_of(password, idc, ids),
        second.1.value() == phi1_of(password, idc, ids),
    ensures
        first.0.value() == second.0.value(),
        first.1.value() == second.1.value(),
{
}

/// Removing the blinding term of a commitment leaves its ephemeral part:
/// `((eph + k) mod ℓ − k)·s` is `eph·s` mod ℓ.
proof fn lemma_remove_blind(eph: int, k: int, s: int)
    ensures
        ((((eph + k) % group_order()) - k) * s) % group_order() == (eph * s) % group_order(),
{
    let l = group_order();
    let x = eph + k;
    lemma_fundamental_div_mod(x, l);
    lemma_mod_multiples_vanish(-(x / l), x - k, l);
    assert(l * (-(x / l)) + (x - k) == (x % l) - k) by (nonlinear_arith)
        requires
            x == l * (x / l) + (x % l),
    ;
    lemma_mul_mod_noop_left((x % l) - k, s, l);
    lemma_mul_mod_noop_left(x - k, s, l);
}

/// With the same `phi0` and `phi1` on both sides, the client's key and the
/// server's key are equal: both sides compute `W = G·alpha·beta` and
/// `D = G·phi1·beta`, and hash the same transcript.
pub proof fn lemma_keys_agree(
    idc: Seq<u8>,
    ids: Seq<u8>,
    phi0: Scalar,
    phi1: Scalar,
    alpha: Scalar,
    beta: Scalar,
)
    ensures
        ({
            let u = commit_log(log_a(), phi0.value(), alpha.value());
            let v = commit_log(log_b(), phi0.value(), beta.value());
            client_key_spec(idc, ids, phi0, phi1.value(), alpha.value(), u, v)
                == server_key_spec(idc, ids, phi0, phi1.value(), beta.value(), u, v)
        }),
{
    let a = alpha.value();
    let b = beta.value();
    let p = phi1.value();
    let ka = log_a() * phi0.value();
    let kb = log_b() * phi0.value();
    lemma_remove_blind(b, kb, a);
    lemma_remove_blind(b, kb, p);
    lemma_remove_blind(a, ka, b);
    assert(b * a == a * b) by (nonlinear_arith);
    assert(b * p == p * b) by (nonlinear_arith);
}

} // verus!
