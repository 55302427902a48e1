//! The client's side of the protocol, without the transport: the registration
//! request, the login commitment, and the session key from the server's answer.

use crate::hex_text::{hex_bytes, hex_encode, hex_of, lemma_hex_round_trip};
use crate::pake::{
    client_cipher, client_compute_key, client_initial_with, client_key_spec, client_secret,
    commit_log, log_a, phi0_of, phi1_of,
};
use crate::ristretto::{encoding_of, le_value, point_log, random_nonzero_scalar, Scalar};
use crate::shared::{
    lemma_scalar_round_trip, point_field_log, point_field_ok, point_field_result,
    scalar_field_ok, scalar_field_value, DecodeError, ExchangeRequest, ExchangeRequestEncoded,
    ExchangeResponseEncoded, SetupRequest, SetupRequestEncoded,
};
use curve25519_dalek::ristretto::RistrettoPoint;
use vstd::prelude::*;
use vstd::utf8::encode_utf8;

verus! {

/// The registration request for `client_id` with `password` at the server
/// named `server_id`: `phi0` and the verifier `C = G·phi1`.
pub fn setup_request(server_id: &str, client_id: &str, password: &str) -> (r: SetupRequestEncoded)
    ensures
        r.id@ == client_id@,
        scalar_field_ok(r.phi0@),
        scalar_field_value(r.phi0@) == phi0_of(password@, client_id@, server_id@),
        le_value(hex_bytes(r.phi0@)) == phi0_of(password@, client_id@, server_id@),
        r.phi0@ == hex_of(hex_bytes(r.phi0@)),
        r.c@ == hex_of(encoding_of(phi1_of(password@, client_id@, server_id@))@),
{
    let (phi0, phi1) = client_secret(password, client_id, server_id);
    let c = client_cipher(phi1);
    proof {
        use_type_invariant(&phi0);
        lemma_scalar_round_trip(phi0);
        lemma_hex_round_trip(phi0.bytes_view());
    }
    SetupRequest::new(client_id.to_owned(), phi0, c).encode()
}

/// A login in progress on the client: the secrets and the commitment sent.
pub struct ClientLogin {
    pub idc: String,
    pub ids: String,
    pub phi0: Scalar,
    pub phi1: Scalar,
    pub alpha: Scalar,
    pub u: RistrettoPoint,
}

impl ClientLogin {
    /// Starts a login with a given ephemeral `alpha`: derives the secrets and
    /// commits to `U = G·alpha + A·phi0`.
    pub fn start_with(server_id: &str, client_id: &str, password: &str, alpha: Scalar) -> (r: (
        ClientLogin,
        ExchangeRequestEncoded,
    ))
        ensures
            r.0.idc@ == client_id@,
            r.0.ids@ == server_id@,
            r.0.phi0.value() == phi0_of(password@, client_id@, server_id@),
            r.0.phi1.value() == phi1_of(password@, client_id@, server_id@),
            r.0.alpha == alpha,
            point_log(r.0.u) == commit_log(log_a(), r.0.phi0.value(), alpha.value()),
            r.1.id@ == client_id@,
            r.1.u@ == hex_of(encoding_of(point_log(r.0.u))@),
    {
        let (phi0, phi1) = client_secret(password, client_id, server_id);
        let u = client_initial_with(phi0, alpha);
        let request = ExchangeRequest::new(client_id.to_owned(), u).encode();
        let login = ClientLogin {
            idc: client_id.to_owned(),
            ids: server_id.to_owned(),
            phi0,
            phi1,
            alpha,
            u,
        };
        (login, request)
    }

    /// Starts a login with a fresh nonzero `alpha`; `None` when the random
    /// source fails.
    pub fn start(server_id: &str, client_id: &str, password: &str) -> (r: Option<
        (ClientLogin, ExchangeRequestEncoded),
    >)
        ensures
            r matches Some((login, request)) ==> {
                &&& login.idc@ == client_id@
                &&& login.ids@ == server_id@
                &&& login.phi0.value() == phi0_of(password@, client_id@, server_id@)
                &&& login.phi1.value() == phi1_of(password@, client_id@, server_id@)
                &&& login.alpha.value() != 0
                &&& point_log(login.u) == commit_log(
                    log_a(),
                    login.phi0.value(),
                    login.alpha.value(),
                )
                &&& request.id@ == client_id@
                &&& request.u@ == hex_of(encoding_of(point_log(login.u))@)
            },
    {
        match random_nonzero_scalar() {
            Some(alpha) => Some(ClientLogin::start_with(server_id, client_id, password, alpha)),
            None => None,
        }
    }

    /// Finishes the login with the server's answer: the session key, in
    /// hexadecimal, derived from `V`.
    pub fn finish(&self, response: ExchangeResponseEncoded) -> (r: Result<String, DecodeError>)
        ensures
            match r {
                Ok(key) => {
                    &&& point_field_ok(response.v@)
                    &&& key@ == hex_of(
                        client_key_spec(
                            encode_utf8(self.idc@),
                            encode_utf8(self.ids@),
                            self.phi0,
                            self.phi1.value(),
                            self.alpha.value(),
                            point_log(self.u),
                            point_field_log(response.v@),
                        ),
                    )
                },
                Err(e) => point_field_result(response.v@, "v"@, Err(e)),
            },
    {
        let v = match response.decode() {
            Ok(resp) => resp.v,
            Err(e) => {
                return Err(e);
            },
        };
        let key = client_compute_key(
            self.idc.as_str(),
            self.ids.as_str(),
            self.phi0,
            self.phi1,
            self.alpha,
            self.u,
            v,
        );
        Ok(hex_encode(key.as_slice()))
    }
}

} // verus!
