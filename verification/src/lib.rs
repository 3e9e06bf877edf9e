//! Core of a secure-messaging client: a per-identity engine that provisions a
//! long-lived signing identity under a self-owned certificate authority (CA),
//! mints short-lived instance identities bound to that CA, performs an
//! authenticated X25519 key exchange with a peer, and transports payloads under
//! XChaCha20-Poly1305 with transparent LZ4 compression.
//!
//! The engine's logic — envelope codec, identity lifecycle, the two-phase key
//! exchange with chained signature validation, and the message channel — is
//! verified.  The cryptographic primitives themselves are called through a
//! small trusted facade in [`primitives`].

pub mod client;
pub mod codec;
pub mod errors;
pub mod helpers;
pub mod interfaces;
pub mod key_exchange;
pub mod keytable;
pub mod primitives;
pub mod signature;
