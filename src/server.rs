//! The server's session store: one record per registered client, moved through
//! `Registered → Exchanged → Verified` by the three endpoints.
//!
//! A successful confirmation consumes the stored key: the session becomes
//! `Verified` and holds no key, so a key confirms at most once and a new Login
//! is needed before the next confirmation.

use crate::bytes::ct_eq;
use crate::hex_text::hex_bytes;
use crate::pake::{commit_log, log_b, server_compute_key, server_initial_with, server_key_spec};
use crate::ristretto::{encoding_of, group_order, point_log, random_nonzero_scalar, Scalar};
use crate::shared::{
    point_field_log, point_field_ok, scalar_field_ok, scalar_field_value, ExchangeRequest,
    ExchangeRequestEncoded, ExchangeResponse, ExchangeResponseEncoded, SetupRequestEncoded,
    VerifyRequestEncoded,
};
use crate::hex_text::hex_of;
use curve25519_dalek::ristretto::RistrettoPoint;
use vstd::hash_map::StringHashMap;
use vstd::prelude::*;
use vstd::utf8::encode_utf8;

verus! {

/// Where a client stands in the protocol.
#[derive(Clone, Copy, Debug, PartialEq, Eq, Structural)]
pub enum SessionState {
    Registered,
    Exchanged,
    Verified,
}

/// What the server keeps of a client: its verifier `(phi0, C)`, the key of its
/// last exchange while unconfirmed, and its state.
#[derive(Clone, Copy)]
pub struct Session {
    pub phi0: Scalar,
    pub c: RistrettoPoint,
    pub key: Option<[u8; 32]>,
    pub state: SessionState,
}

/// A session as the store keeps it: `phi0 ≠ 0`, `C` a point other than the
/// identity, and a key present exactly in state `Exchanged`.
pub open spec fn session_wf(s: Session) -> bool {
    &&& s.phi0.value() != 0
    &&& 0 < point_log(s.c) < group_order()
    &&& (s.state == SessionState::Exchanged) == (s.key is Some)
}

/// How an endpoint fails. A missing session and a wrong key give the same
/// `Unauthorized`, so that a caller cannot tell which names are registered.
#[derive(Clone, Copy, Debug, PartialEq, Eq, Structural)]
pub enum EndpointError {
    /// The request does not decode, or registers a zero `phi0`.
    BadRequest,
    /// The client name is registered already.
    AlreadyRegistered,
    /// No such session, no key to confirm, or the wrong key.
    Unauthorized,
    /// The random source failed; nothing was changed.
    Internal,
}

impl EndpointError {
    /// The HTTP status that reports the failure.
    pub fn status(&self) -> (r: u16)
        ensures
            r == match self {
                EndpointError::BadRequest => 400u16,
                EndpointError::AlreadyRegistered => 409u16,
                EndpointError::Unauthorized => 401u16,
                EndpointError::Internal => 500u16,
            },
    {
        match self {
            EndpointError::BadRequest => 400,
            EndpointError::AlreadyRegistered => 409,
            EndpointError::Unauthorized => 401,
            EndpointError::Internal => 500,
        }
    }
}

/// Both fields of a registration decode.
pub open spec fn setup_decodes(req: SetupRequestEncoded) -> bool {
    scalar_field_ok(req.phi0@) && point_field_ok(req.c@)
}

/// A registration is accepted when both fields decode and `phi0` is not zero.
pub open spec fn setup_accepted(req: SetupRequestEncoded) -> bool {
    setup_decodes(req) && scalar_field_value(req.phi0@) != 0
}

/// What a registration answers on the sessions `m`.
pub open spec fn setup_result(m: Map<Seq<char>, Session>, req: SetupRequestEncoded) -> Result<
    (),
    EndpointError,
> {
    if !setup_decodes(req) {
        Err(EndpointError::BadRequest)
    } else if m.contains_key(req.id@) {
        Err(EndpointError::AlreadyRegistered)
    } else if scalar_field_value(req.phi0@) == 0 {
        Err(EndpointError::BadRequest)
    } else {
        Ok(())
    }
}

/// The sessions after a registration: a successful one adds a fresh
/// `Registered` session with the request's verifier; a failed one changes
/// nothing.
pub open spec fn setup_post(
    m: Map<Seq<char>, Session>,
    req: SetupRequestEncoded,
    m2: Map<Seq<char>, Session>,
) -> bool {
    if setup_result(m, req) is Ok {
        &&& m2 == m.insert(req.id@, m2[req.id@])
        &&& m2[req.id@].phi0.value() == scalar_field_value(req.phi0@)
        &&& point_log(m2[req.id@].c) == point_field_log(req.c@)
        &&& m2[req.id@].key is None
        &&& m2[req.id@].state == SessionState::Registered
    } else {
        m2 == m
    }
}

/// The session of `idc` holds `key` as its unconfirmed key.
pub open spec fn holds_key(m: Map<Seq<char>, Session>, idc: Seq<char>, key: Seq<u8>) -> bool {
    &&& m.contains_key(idc)
    &&& (m[idc].key matches Some(k) && k@ == key)
}

/// What a confirmation answers on the sessions `m`.
pub open spec fn verify_result(m: Map<Seq<char>, Session>, req: VerifyRequestEncoded) -> Result<
    (),
    EndpointError,
> {
    if !scalar_field_ok(req.key@) {
        Err(EndpointError::BadRequest)
    } else if holds_key(m, req.idc@, hex_bytes(req.key@)) {
        Ok(())
    } else {
        Err(EndpointError::Unauthorized)
    }
}

/// The sessions after a confirmation: a successful one consumes the key and
/// marks the session `Verified`; a failed one changes nothing.
pub open spec fn verify_post(
    m: Map<Seq<char>, Session>,
    req: VerifyRequestEncoded,
    m2: Map<Seq<char>, Session>,
) -> bool {
    if verify_result(m, req) is Ok {
        &&& m2 == m.insert(req.idc@, m2[req.idc@])
        &&& m2[req.idc@].phi0 == m[req.idc@].phi0
        &&& m2[req.idc@].c == m[req.idc@].c
        &&& m2[req.idc@].key is None
        &&& m2[req.idc@].state == SessionState::Verified
    } else {
        m2 == m
    }
}

/// The sessions after a successful login of `idc` that answered with the
/// commitment of logarithm `v` and stored `key`: the session keeps its
/// verifier, holds the new key and is `Exchanged`.
pub open spec fn login_post(
    m: Map<Seq<char>, Session>,
    idc: Seq<char>,
    key: Seq<u8>,
    m2: Map<Seq<char>, Session>,
) -> bool {
    &&& m.contains_key(idc)
    &&& m2 == m.insert(idc, m2[idc])
    &&& m2[idc].phi0 == m[idc].phi0
    &&& m2[idc].c == m[idc].c
    &&& holds_key(m2, idc, key)
    &&& m2[idc].state == SessionState::Exchanged
}

/// Registration happens once per name. Of two registrations of one name, the
/// second made on the sessions the first left (as the store's guard orders
/// concurrent ones), at most one succeeds; on a name not yet registered, when
/// the first is acceptable and the second decodes, exactly one does and the
/// other is told `AlreadyRegistered`.
pub proof fn lemma_register_once(
    m: Map<Seq<char>, Session>,
    first: SetupRequestEncoded,
    m1: Map<Seq<char>, Session>,
    second: SetupRequestEncoded,
)
    requires
        first.id@ == second.id@,
        setup_post(m, first, m1),
    ensures
        !(setup_result(m, first) is Ok && setup_result(m1, second) is Ok),
        !m.contains_key(first.id@) && setup_accepted(first) && setup_decodes(second) ==> {
            &&& setup_result(m, first) is Ok
            &&& setup_result(m1, second) == Err::<(), EndpointError>(
                EndpointError::AlreadyRegistered,
            )
        },
{
}

/// A confirmation needs a login first: a freshly registered session holds no
/// key, so every confirmation for its name fails.
pub proof fn lemma_verify_needs_login(
    m: Map<Seq<char>, Session>,
    setup: SetupRequestEncoded,
    m1: Map<Seq<char>, Session>,
    verify: VerifyRequestEncoded,
)
    requires
        setup_result(m, setup) is Ok,
        setup_post(m, setup, m1),
        verify.idc@ == setup.id@,
    ensures
        verify_result(m1, verify) is Err,
{
}

/// A new login supersedes the previous one: after two logins of one client
/// that stored the keys `k1` and then `k2`, a confirmation with `k1` fails
/// whenever the two keys differ.
pub proof fn lemma_relogin_supersedes(
    m: Map<Seq<char>, Session>,
    idc: Seq<char>,
    k1: Seq<u8>,
    m1: Map<Seq<char>, Session>,
    k2: Seq<u8>,
    m2: Map<Seq<char>, Session>,
    verify: VerifyRequestEncoded,
)
    requires
        login_post(m, idc, k1, m1),
        login_post(m1, idc, k2, m2),
        k1 != k2,
        verify.idc@ == idc,
        hex_bytes(verify.key@) == k1,
    ensures
        verify_result(m2, verify) is Err,
{
}

/// A confirmation for a name that is not registered and one with a wrong key
/// get the same answer, `Unauthorized`, and neither changes the sessions.
pub proof fn lemma_unauthorized_indistinguishable(
    m: Map<Seq<char>, Session>,
    unknown: VerifyRequestEncoded,
    wrong: VerifyRequestEncoded,
)
    requires
        !m.contains_key(unknown.idc@),
        m.contains_key(wrong.idc@),
        !holds_key(m, wrong.idc@, hex_bytes(wrong.key@)),
        scalar_field_ok(unknown.key@),
        scalar_field_ok(wrong.key@),
    ensures
        verify_result(m, unknown) == verify_result(m, wrong),
        verify_result(m, unknown) == Err::<(), EndpointError>(EndpointError::Unauthorized),
        forall|m2: Map<Seq<char>, Session>|
            verify_post(m, unknown, m2) || verify_post(m, wrong, m2) ==> m2 == m,
{
}

/// The table from client name to session, and the server's own name `IDs`.
pub struct SessionStore {
    server_id: String,
    sessions: StringHashMap<Session>,
}

impl View for SessionStore {
    type V = Map<Seq<char>, Session>;

    closed spec fn view(&self) -> Map<Seq<char>, Session> {
        self.sessions@
    }
}

impl SessionStore {
    /// The server's name `IDs`.
    pub closed spec fn ids(&self) -> Seq<char> {
        self.server_id@
    }

    /// Every session is well formed.
    pub open spec fn wf(&self) -> bool {
        forall|k: Seq<char>| #[trigger] self@.contains_key(k) ==> session_wf(self@[k])
    }

    /// An empty store for the server named `server_id`.
    pub fn new(server_id: String) -> (r: Self)
        ensures
            r@ == Map::<Seq<char>, Session>::empty(),
            r.ids() == server_id@,
            r.wf(),
    {
        SessionStore { server_id, sessions: StringHashMap::new() }
    }

    /// The server's name, verbatim.
    pub fn server_id(&self) -> (r: String)
        ensures
            r@ == self.ids(),
    {
        self.server_id.clone()
    }

    /// Registers a client: decode, refuse a name that is taken, refuse a zero
    /// `phi0`, then store the verifier.
    pub fn setup(&mut self, req: SetupRequestEncoded) -> (r: Result<(), EndpointError>)
        requires
            old(self).wf(),
        ensures
            final(self).wf(),
            final(self).ids() == old(self).ids(),
            r == setup_result(old(self)@, req),
            setup_post(old(self)@, req, final(self)@),
    {
        let ghost req0 = req;
        let decoded = match req.decode() {
            Ok(d) => d,
            Err(_) => {
                return Err(EndpointError::BadRequest);
            },
        };
        if self.sessions.contains_key(decoded.id.as_str()) {
            return Err(EndpointError::AlreadyRegistered);
        }
        if decoded.phi0.is_zero() {
            return Err(EndpointError::BadRequest);
        }
        let session = Session {
            phi0: decoded.phi0,
            c: decoded.c,
            key: None,
            state: SessionState::Registered,
        };
        self.sessions.insert(decoded.id, session);
        proof {
            assert(self@ == old(self)@.insert(req0.id@, self@[req0.id@]));
        }
        Ok(())
    }

    /// The server's side of a login with a given ephemeral `beta`: commit to
    /// `V = G·beta + B·phi0`, derive the session key from the client's `U`,
    /// store it and answer `V`. A zero `beta` is refused.
    pub fn login_with(&mut self, req: ExchangeRequest, beta: Scalar) -> (r: Result<
        ExchangeResponse,
        EndpointError,
    >)
        requires
            old(self).wf(),
        ensures
            final(self).wf(),
            final(self).ids() == old(self).ids(),
            match r {
                Ok(resp) => {
                    let s = old(self)@[req.id@];
                    &&& old(self)@.contains_key(req.id@)
                    &&& beta.value() != 0
                    &&& point_log(resp.v) == commit_log(log_b(), s.phi0.value(), beta.value())
                    &&& login_post(
                        old(self)@,
                        req.id@,
                        server_key_spec(
                            encode_utf8(req.id@),
                            encode_utf8(old(self).ids()),
                            s.phi0,
                            point_log(s.c),
                            beta.value(),
                            point_log(req.u),
                            point_log(resp.v),
                        ),
                        final(self)@,
                    )
                },
                Err(EndpointError::Unauthorized) => {
                    !old(self)@.contains_key(req.id@) && final(self)@ == old(self)@
                },
                Err(EndpointError::Internal) => {
                    &&& old(self)@.contains_key(req.id@)
                    &&& beta.value() == 0
                    &&& final(self)@ == old(self)@
                },
                Err(_) => false,
            },
    {
        let found: Option<Session> = match self.sessions.get(req.id.as_str()) {
            Some(s) => Some(*s),
            None => None,
        };
        let session = match found {
            Some(s) => s,
            None => {
                return Err(EndpointError::Unauthorized);
            },
        };
        if beta.is_zero() {
            return Err(EndpointError::Internal);
        }
        let v = server_initial_with(session.phi0, beta);
        let key = server_compute_key(
            req.id.as_str(),
            self.server_id.as_str(),
            session.phi0,
            session.c,
            beta,
            req.u,
            v,
        );
        let updated = Session {
            phi0: session.phi0,
            c: session.c,
            key: Some(key),
            state: SessionState::Exchanged,
        };
        let ghost id = req.id@;
        self.sessions.insert(req.id, updated);
        proof {
            assert(self@ == old(self)@.insert(id, self@[id]));
        }
        Ok(ExchangeResponse { v })
    }

    /// The Login endpoint: decode `U`, find the session, draw a fresh nonzero
    /// `beta`, then as `login_with`.
    pub fn login(&mut self, req: ExchangeRequestEncoded) -> (r: Result<
        ExchangeResponseEncoded,
        EndpointError,
    >)
        requires
            old(self).wf(),
        ensures
            final(self).wf(),
            final(self).ids() == old(self).ids(),
            match r {
                Ok(resp) => {
                    let s = old(self)@[req.id@];
                    &&& point_field_ok(req.u@)
                    &&& old(self)@.contains_key(req.id@)
                    &&& exists|beta: int|
                        #![trigger commit_log(log_b(), s.phi0.value(), beta)]
                        {
                            let v = commit_log(log_b(), s.phi0.value(), beta);
                            &&& 0 < beta < group_order()
                            &&& resp.v@ == hex_of(encoding_of(v)@)
                            &&& login_post(
                                old(self)@,
                                req.id@,
                                server_key_spec(
                                    encode_utf8(req.id@),
                                    encode_utf8(old(self).ids()),
                                    s.phi0,
                                    point_log(s.c),
                                    beta,
                                    point_field_log(req.u@),
                                    v,
                                ),
                                final(self)@,
                            )
                        }
                },
                Err(EndpointError::BadRequest) => {
                    !point_field_ok(req.u@) && final(self)@ == old(self)@
                },
                Err(EndpointError::Unauthorized) => {
                    &&& point_field_ok(req.u@)
                    &&& !old(self)@.contains_key(req.id@)
                    &&& final(self)@ == old(self)@
                },
                Err(EndpointError::Internal) => {
                    &&& point_field_ok(req.u@)
                    &&& old(self)@.contains_key(req.id@)
                    &&& final(self)@ == old(self)@
                },
                Err(EndpointError::AlreadyRegistered) => false,
            },
    {
        let decoded = match req.decode() {
            Ok(d) => d,
            Err(_) => {
                return Err(EndpointError::BadRequest);
            },
        };
        if !self.sessions.contains_key(decoded.id.as_str()) {
            return Err(EndpointError::Unauthorized);
        }
        let beta = match random_nonzero_scalar() {
            Some(b) => b,
            None => {
                return Err(EndpointError::Internal);
            },
        };
        proof {
            use_type_invariant(&beta);
        }
        let ghost phi0 = self@[decoded.id@].phi0.value();
        match self.login_with(decoded, beta) {
            Ok(resp) => {
                let encoded = resp.encode();
                proof {
                    assert(0 < beta.value() < group_order());
                    let v = commit_log(log_b(), phi0, beta.value());
                    assert(encoded.v@ == hex_of(encoding_of(v)@));
                }
                Ok(encoded)
            },
            Err(e) => Err(e),
        }
    }

    /// The Verify endpoint: decode the key, then compare it in constant time
    /// with the stored key. An unknown name, a session without a key and a
    /// wrong key all answer `Unauthorized` after the same comparison. Success
    /// consumes the key and marks the session `Verified`.
    pub fn verify(&mut self, req: VerifyRequestEncoded) -> (r: Result<(), EndpointError>)
        requires
            old(self).wf(),
        ensures
            final(self).wf(),
            final(self).ids() == old(self).ids(),
            r == verify_result(old(self)@, req),
            verify_post(old(self)@, req, final(self)@),
    {
        let ghost req0 = req;
        let decoded = match req.decode() {
            Ok(d) => d,
            Err(_) => {
                return Err(EndpointError::BadRequest);
            },
        };
        let found: Option<Session> = match self.sessions.get(decoded.idc.as_str()) {
            Some(s) => Some(*s),
            None => None,
        };
        let (stored, present) = match found {
            Some(s) => match s.key {
                Some(k) => (k, true),
                None => ([0u8; 32], false),
            },
            None => ([0u8; 32], false),
        };
        let same = ct_eq(&stored, &decoded.key);
        if !(present && same) {
            return Err(EndpointError::Unauthorized);
        }
        let session = match found {
            Some(s) => s,
            None => {
                return Err(EndpointError::Unauthorized);
            },
        };
        let updated = Session {
            phi0: session.phi0,
            c: session.c,
            key: None,
            state: SessionState::Verified,
        };
        self.sessions.insert(decoded.idc, updated);
        proof {
            assert(self@ == old(self)@.insert(req0.idc@, self@[req0.idc@]));
        }
        Ok(())
    }
}

} // verus!
