//! SPAKE2+-style password-authenticated key exchange over the Ristretto group.
//!
//! Layers, bottom-up: group primitives (`ristretto`, `hashing`, `hex_text`),
//! the five algebraic steps of the protocol (`pake`), the wire codec
//! (`shared`), the server's session store (`server`) and the client's side of
//! the exchange (`client`).

pub mod ristretto;
pub mod bytes;
pub mod hashing;
pub mod hex_text;
pub mod pake;
pub mod shared;
pub mod server;
pub mod client;
