use rusty_pake::client::{setup_request, ClientLogin};
use rusty_pake::server::{EndpointError, SessionStore};
use rusty_pake::shared::{ExchangeRequestEncoded, SetupRequestEncoded, VerifyRequestEncoded};

fn registered(server_id: &str, client_id: &str, password: &str) -> SessionStore {
    let mut store = SessionStore::new(server_id.to_string());
    store.setup(setup_request(server_id, client_id, password)).unwrap();
    store
}

fn login(store: &mut SessionStore, server_id: &str, client_id: &str, password: &str) -> String {
    let (login, request) = ClientLogin::start(server_id, client_id, password).unwrap();
    let response = store.login(request).unwrap();
    login.finish(response).unwrap()
}

fn verify(store: &mut SessionStore, client_id: &str, key: &str) -> Result<(), EndpointError> {
    store.verify(VerifyRequestEncoded::new(client_id.to_string(), key.to_string()))
}

#[test]
fn second_setup_for_same_id_is_refused() {
    let mut store = registered("id", "Alice", "ilovebob123");
    let again = store.setup(setup_request("id", "Alice", "another password"));
    assert_eq!(again, Err(EndpointError::AlreadyRegistered));
    let same = store.setup(setup_request("id", "Alice", "ilovebob123"));
    assert_eq!(same, Err(EndpointError::AlreadyRegistered));
    let key = login(&mut store, "id", "Alice", "ilovebob123");
    assert_eq!(verify(&mut store, "Alice", &key), Ok(()));
}

#[test]
fn setup_with_zero_phi0_or_bad_fields_is_bad_request() {
    let mut store = SessionStore::new("id".to_string());
    let good = setup_request("id", "Alice", "ilovebob123");
    let zero = SetupRequestEncoded {
        id: "Alice".to_string(),
        phi0: "00".repeat(32),
        c: good.c.clone(),
    };
    assert_eq!(store.setup(zero), Err(EndpointError::BadRequest));
    let identity = SetupRequestEncoded {
        id: "Alice".to_string(),
        phi0: good.phi0.clone(),
        c: "00".repeat(32),
    };
    assert_eq!(store.setup(identity), Err(EndpointError::BadRequest));
    assert_eq!(store.setup(good), Ok(()));
}

#[test]
fn verify_before_login_fails() {
    let mut store = registered("id", "Alice", "ilovebob123");
    assert_eq!(verify(&mut store, "Alice", &"00".repeat(32)), Err(EndpointError::Unauthorized));
}

#[test]
fn login_for_unknown_or_malformed_request_fails() {
    let mut store = registered("id", "Alice", "ilovebob123");
    let (_, request) = ClientLogin::start("id", "Mallory", "pw").unwrap();
    assert_eq!(store.login(request).err(), Some(EndpointError::Unauthorized));
    let bad = ExchangeRequestEncoded { id: "Alice".to_string(), u: "xyz".to_string() };
    assert_eq!(store.login(bad).err(), Some(EndpointError::BadRequest));
}

#[test]
fn relogin_supersedes_previous_key() {
    let mut store = registered("id", "Alice", "ilovebob123");
    let k1 = login(&mut store, "id", "Alice", "ilovebob123");
    let k2 = login(&mut store, "id", "Alice", "ilovebob123");
    assert_ne!(k1, k2);
    assert_eq!(verify(&mut store, "Alice", &k1), Err(EndpointError::Unauthorized));
    assert_eq!(verify(&mut store, "Alice", &k2), Ok(()));
}

#[test]
fn a_key_confirms_once() {
    let mut store = registered("id", "Alice", "ilovebob123");
    let key = login(&mut store, "id", "Alice", "ilovebob123");
    assert_eq!(verify(&mut store, "Alice", &key), Ok(()));
    assert_eq!(verify(&mut store, "Alice", &key), Err(EndpointError::Unauthorized));
}

#[test]
fn tampered_key_is_unauthorized() {
    let mut store = registered("id", "Alice", "ilovebob123");
    let key = login(&mut store, "id", "Alice", "ilovebob123");
    let mut bytes = hex::decode(&key).unwrap();
    bytes[0] ^= 1;
    let tampered = hex::encode(bytes);
    assert_eq!(verify(&mut store, "Alice", &tampered), Err(EndpointError::Unauthorized));
    assert_eq!(verify(&mut store, "Alice", &key), Ok(()));
}

#[test]
fn unknown_id_and_wrong_key_look_the_same() {
    let mut store = registered("id", "Alice", "ilovebob123");
    let key = login(&mut store, "id", "Alice", "ilovebob123");
    let unknown = verify(&mut store, "Nobody", &key);
    let wrong = verify(&mut store, "Alice", &"11".repeat(32));
    assert_eq!(unknown, wrong);
    assert_eq!(unknown.unwrap_err().status(), 401);
    assert_eq!(verify(&mut store, "Alice", &key), Ok(()));
}

#[test]
fn malformed_verify_is_bad_request() {
    let mut store = registered("id", "Alice", "ilovebob123");
    assert_eq!(verify(&mut store, "Alice", "abc"), Err(EndpointError::BadRequest));
    assert_eq!(verify(&mut store, "Alice", "00"), Err(EndpointError::BadRequest));
}

#[test]
fn status_codes() {
    assert_eq!(EndpointError::BadRequest.status(), 400);
    assert_eq!(EndpointError::AlreadyRegistered.status(), 409);
    assert_eq!(EndpointError::Unauthorized.status(), 401);
    assert_eq!(EndpointError::Internal.status(), 500);
}

#[test]
fn server_id_must_match_on_both_sides() {
    let mut store = registered("id", "Alice", "ilovebob123");
    let key = login(&mut store, "other-id", "Alice", "ilovebob123");
    assert_eq!(verify(&mut store, "Alice", &key), Err(EndpointError::Unauthorized));
}

#[test]
fn taken_name_is_reported_before_a_zero_phi0() {
    let mut store = registered("id", "Alice", "ilovebob123");
    let good = setup_request("id", "Alice", "ilovebob123");
    let zero = SetupRequestEncoded {
        id: "Alice".to_string(),
        phi0: "00".repeat(32),
        c: good.c.clone(),
    };
    assert_eq!(store.setup(zero), Err(EndpointError::AlreadyRegistered));
}

#[test]
fn registration_text_is_lowercase_canonical_hex() {
    let req = setup_request("id", "Alice", "ilovebob123");
    let (phi0, _) = rusty_pake::pake::client_secret("ilovebob123", "Alice", "id");
    assert_eq!(req.phi0, hex::encode(phi0.to_bytes()));
    assert_eq!(req.phi0, req.phi0.to_lowercase());
    assert_eq!(req.c, req.c.to_lowercase());
}
