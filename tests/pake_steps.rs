use rusty_pake::pake::{
    client_cipher, client_compute_key, client_initial, client_initial_with, client_secret,
    server_compute_key, server_initial, server_initial_with,
};
use rusty_pake::ristretto::Scalar;

#[test]
fn correct_password_same_key() {
    let idc = "client";
    let ids = "server";
    let password = "password123";

    let (phi0, phi1) = client_secret(password, idc, ids);
    let c = client_cipher(phi1);

    let (u, alpha) = client_initial(phi0).unwrap();
    let (v, beta) = server_initial(phi0).unwrap();

    let k_client = client_compute_key(idc, ids, phi0, phi1, alpha, u, v);
    let k_server = server_compute_key(idc, ids, phi0, c, beta, u, v);

    assert_eq!(k_client, k_server);
}

#[test]
fn wrong_password_different_key() {
    let idc = "client";
    let ids = "server";
    let password = "password123";
    let wrong_password = "wrongpassword";

    let (phi0, phi1) = client_secret(password, idc, ids);
    let c = client_cipher(phi1);

    let (phi0_wrong, phi1_wrong) = client_secret(wrong_password, idc, ids);

    let (u_wrong, alpha) = client_initial(phi0_wrong).unwrap();
    let (v, beta) = server_initial(phi0).unwrap();

    let k_client = client_compute_key(idc, ids, phi0_wrong, phi1_wrong, alpha, u_wrong, v);
    let k_server = server_compute_key(idc, ids, phi0, c, beta, u_wrong, v);

    assert_ne!(k_client, k_server);
}

#[test]
fn secrets_are_deterministic() {
    let (a0, a1) = client_secret("ilovebob123", "Alice", "id");
    let (b0, b1) = client_secret("ilovebob123", "Alice", "id");
    assert_eq!(a0.to_bytes(), b0.to_bytes());
    assert_eq!(a1.to_bytes(), b1.to_bytes());
    assert_ne!(a0.to_bytes(), a1.to_bytes());
}

#[test]
fn secrets_depend_on_every_input() {
    let (base, _) = client_secret("pw", "Alice", "id");
    let (other_pw, _) = client_secret("pw2", "Alice", "id");
    let (other_idc, _) = client_secret("pw", "Alicf", "id");
    let (other_ids, _) = client_secret("pw", "Alice", "ie");
    assert_ne!(base.to_bytes(), other_pw.to_bytes());
    assert_ne!(base.to_bytes(), other_idc.to_bytes());
    assert_ne!(base.to_bytes(), other_ids.to_bytes());
}

fn scalar(n: u8) -> Scalar {
    let mut b = [0u8; 32];
    b[0] = n;
    Scalar::from_bytes_mod_order(b)
}

#[test]
fn commitments_with_given_randomness_agree() {
    let idc = "Alice";
    let ids = "id";
    let (phi0, phi1) = client_secret("ilovebob123", idc, ids);
    let c = client_cipher(phi1);
    let u = client_initial_with(phi0, scalar(3));
    let v = server_initial_with(phi0, scalar(5));
    let k_client = client_compute_key(idc, ids, phi0, phi1, scalar(3), u, v);
    let k_server = server_compute_key(idc, ids, phi0, c, scalar(5), u, v);
    assert_eq!(k_client, k_server);
    assert_eq!(u, client_initial_with(phi0, scalar(3)));
    assert_ne!(u, client_initial_with(phi0, scalar(4)));
}

#[test]
fn fresh_commitments_give_fresh_keys() {
    let idc = "Bob";
    let ids = "popular-server";
    let (phi0, phi1) = client_secret("alice1234", idc, ids);
    let c = client_cipher(phi1);
    let (u1, _) = client_initial(phi0).unwrap();
    let (v1, beta1) = server_initial(phi0).unwrap();
    let (u2, _) = client_initial(phi0).unwrap();
    let (v2, beta2) = server_initial(phi0).unwrap();
    assert_ne!(u1, u2);
    assert_ne!(v1, v2);
    let k1 = server_compute_key(idc, ids, phi0, c, beta1, u1, v1);
    let k2 = server_compute_key(idc, ids, phi0, c, beta2, u2, v2);
    assert_ne!(k1, k2);
}
