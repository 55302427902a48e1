use rusty_pake::client::{setup_request, ClientLogin};
use rusty_pake::server::{EndpointError, SessionStore};
use rusty_pake::shared::VerifyRequestEncoded;

fn perform_setup(
    store: &mut SessionStore,
    server_id: &str,
    client_id: &str,
    password: &str,
) -> Result<(), EndpointError> {
    store.setup(setup_request(server_id, client_id, password))
}

fn perform_exchange(
    store: &mut SessionStore,
    server_id: &str,
    client_id: &str,
    password: &str,
) -> Result<String, EndpointError> {
    let (login, request) = ClientLogin::start(server_id, client_id, password).unwrap();
    let response = store.login(request)?;
    Ok(login.finish(response).unwrap())
}

fn perform_verify(store: &mut SessionStore, client_id: &str, key: &str) -> bool {
    let request = VerifyRequestEncoded::new(client_id.to_string(), key.to_string());
    store.verify(request).is_ok()
}

#[test]
fn test_get_server_id() {
    let server_id = "test-id";
    let store = SessionStore::new(server_id.to_string());
    assert_eq!(store.server_id(), server_id)
}

#[test]
fn test_successful_exchange() {
    let server_id = "id";
    let client_id = "Alice";
    let password = "ilovebob123";
    let mut store = SessionStore::new(server_id.to_string());

    perform_setup(&mut store, server_id, client_id, password).unwrap();
    let key = perform_exchange(&mut store, server_id, client_id, password).unwrap();
    assert!(perform_verify(&mut store, client_id, &key));
}

#[test]
fn test_wrong_password_exchange() {
    let server_id = "id";
    let client_id = "Bob";
    let password = "alice1234";
    let mut store = SessionStore::new(server_id.to_string());

    perform_setup(&mut store, server_id, client_id, password).unwrap();

    let wrong_password = "alice1234oops";
    let key = perform_exchange(&mut store, server_id, client_id, wrong_password).unwrap();

    let success = perform_verify(&mut store, client_id, &key);
    assert_eq!(success, false)
}

#[test]
fn test_multiple_exchanges() {
    let server_id = "popular-server";
    let client_id = "Bob";
    let password = "alice1234";
    let mut store = SessionStore::new(server_id.to_string());

    perform_setup(&mut store, server_id, client_id, password).unwrap();

    let key1 = perform_exchange(&mut store, server_id, client_id, password).unwrap();
    let success1 = perform_verify(&mut store, client_id, &key1);

    let key2 = perform_exchange(&mut store, server_id, client_id, password).unwrap();
    let success2 = perform_verify(&mut store, client_id, &key2);

    assert!(success1);
    assert!(success2);
    assert_ne!(key1, key2);
}

#[test]
fn test_multiple_clients() {
    let server_id = "id";
    let client_a = "Alice";
    let password_a = "ilovebob123";
    let client_b = "Bob";
    let password_b = "alice1234";
    let mut store = SessionStore::new(server_id.to_string());

    perform_setup(&mut store, server_id, client_a, password_a).unwrap();
    perform_setup(&mut store, server_id, client_b, password_b).unwrap();

    let key_a = perform_exchange(&mut store, server_id, client_a, password_a).unwrap();
    let key_b = perform_exchange(&mut store, server_id, client_b, password_b).unwrap();

    let success_a = perform_verify(&mut store, client_a, &key_a);
    assert_eq!(success_a, true);

    let success_b = perform_verify(&mut store, client_b, &key_b);
    assert_eq!(success_b, true);
    assert_ne!(key_a, key_b);
}
