//! The per-identity engine: identity lifecycle (mint, export, import,
//! instances), the two-phase authenticated key exchange, and the message
//! channel.
//!
//! Contracts are stated over a ghost picture of the identity
//! ([`IdentityView`]) and over the two label-keyed tables seen as
//! mathematical maps.  The spec functions `spec_import_user`,
//! `spec_import_instance`, `spec_unpack_kex` and `spec_open_frame` pin down
//! the decoding half of each wire format; the encoding operations promise in
//! their `ensures` that their output decodes back to what it came from.

use vstd::prelude::*;
use vstd::slice::{slice_subrange, slice_to_vec};

use crate::codec::{decode_instance_blob, decode_kex_packet, decode_user_blob, encode_instance_blob,
    encode_kex_packet, encode_user_blob, lemma_instance_blob_round_trip,
    lemma_kex_packet_round_trip, lemma_user_blob_round_trip, spec_decode_instance_blob,
    spec_decode_kex_packet, spec_decode_user_blob, spec_instance_blob, spec_kex_packet,
    spec_user_blob};
use crate::errors::{CodecError, CryptoError};
use crate::keytable::KeyTable;
use crate::primitives::{aead_open, aead_seal, argon2id_derive, dh_agrees, ed25519_derive_vk,
    ed25519_ok, ed25519_sig_of, ed25519_sign, ed25519_verify, ed25519_vk_of, kdf_of, lz4_compress,
    lz4_decompress, lz4_of, open_of, pkcs8_decode, pkcs8_encode, pkcs8_of, pkcs8_seed_of,
    random_bytes, seal_of, spki_decode, spki_encode, spki_of, spki_vk_of, unlz4_of, x25519_dh,
    x25519_keypair, x25519_pub_of, x25519_shared_of};

verus! {

/// Ghost picture of an identity's key material.
pub ghost struct IdentityView {
    /// The 32-byte Ed25519 signing seed.
    pub signing_seed: Seq<u8>,
    /// The verifying key derived from the signing seed.
    pub verifying_key: Seq<u8>,
    /// The CA's 64-byte signature over the verifying key.
    pub cert: Seq<u8>,
    /// The CA signing seed; present for full users, absent for instances.
    pub ca_secret: Option<Seq<u8>>,
    /// The CA verifying key.
    pub ca_verifying_key: Seq<u8>,
}

/// What holds of every identity the engine hands out: widths, key
/// derivation, and — CA self-consistency — that the certificate verifies
/// over the verifying key under the identity's own CA.
pub open spec fn id_valid(v: IdentityView) -> bool {
    &&& v.signing_seed.len() == 32
    &&& v.verifying_key == ed25519_vk_of(v.signing_seed)
    &&& v.verifying_key.len() == 32
    &&& v.cert.len() == 64
    &&& v.ca_verifying_key.len() == 32
    &&& match v.ca_secret {
        Some(s) => s.len() == 32 && v.ca_verifying_key == ed25519_vk_of(s) && v.cert
            == ed25519_sig_of(s, v.verifying_key),
        None => true,
    }
    &&& ed25519_ok(v.ca_verifying_key, v.verifying_key, v.cert)
}

/// CA material: the verifying key always, the signing half only for full
/// users.
struct CaData {
    secret_key: Option<Vec<u8>>,
    verifying_key: Vec<u8>,
}

/// A per-identity engine instance.
pub struct Client {
    signing_key: Vec<u8>,
    verifying_key: Vec<u8>,
    signing_key_signature: Vec<u8>,
    ca_data: CaData,
    kex_map: KeyTable,
    shared_keys: KeyTable,
}

/// The plaintext user blob of an identity: both PKCS#8 documents under the
/// codec's user schema.
pub open spec fn spec_user_payload(v: IdentityView) -> Seq<u8> {
    spec_user_blob(pkcs8_of(v.signing_seed), pkcs8_of(v.ca_secret.unwrap()))
}

/// An exported user blob: salt, nonce, and the AEAD-sealed user payload
/// under the password-derived key with `salt ++ nonce` as associated data.
pub open spec fn spec_export_blob(
    v: IdentityView,
    password: Seq<u8>,
    salt: Seq<u8>,
    nonce: Seq<u8>,
) -> Seq<u8> {
    salt + nonce + seal_of(kdf_of(password, salt), nonce, salt + nonce, spec_user_payload(v))
}

/// What importing an exported user blob under a password yields.
pub open spec fn spec_import_user(password: Seq<u8>, data: Seq<u8>) -> Result<
    IdentityView,
    CryptoError,
> {
    if data.len() < 40 {
        Err(CryptoError::Codec(CodecError::TooShort))
    } else {
        let salt = data.subrange(0, 16);
        let nonce = data.subrange(16, 40);
        let key = kdf_of(password, salt);
        match open_of(key, nonce, data.subrange(0, 40), data.subrange(40, data.len() as int)) {
            None => Err(CryptoError::BadPassword),
            Some(pt) => match spec_decode_user_blob(pt) {
                Err(e) => Err(CryptoError::Codec(e)),
                Ok((sk_der, ca_der)) => match pkcs8_seed_of(sk_der) {
                    None => Err(CryptoError::Codec(CodecError::MalformedKey)),
                    Some(seed) => match pkcs8_seed_of(ca_der) {
                        None => Err(CryptoError::Codec(CodecError::MalformedKey)),
                        Some(ca_seed) => Ok(
                            IdentityView {
                                signing_seed: seed,
                                verifying_key: ed25519_vk_of(seed),
                                cert: ed25519_sig_of(ca_seed, ed25519_vk_of(seed)),
                                ca_secret: Some(ca_seed),
                                ca_verifying_key: ed25519_vk_of(ca_seed),
                            },
                        ),
                    },
                },
            },
        }
    }
}

/// What importing an instance blob yields.  The certificate is re-verified
/// against the carried CA verifying key; a blob whose certificate does not
/// check is refused.
pub open spec fn spec_import_instance(data: Seq<u8>) -> Result<IdentityView, CryptoError> {
    match spec_decode_instance_blob(data) {
        Err(e) => Err(CryptoError::Codec(e)),
        Ok((sk_der, cert, ca_vk_der)) => match pkcs8_seed_of(sk_der) {
            None => Err(CryptoError::Codec(CodecError::MalformedKey)),
            Some(seed) => if cert.len() != 64 {
                Err(CryptoError::Codec(CodecError::MalformedKey))
            } else {
                match spki_vk_of(ca_vk_der) {
                    None => Err(CryptoError::Codec(CodecError::MalformedKey)),
                    Some(ca_vk) => if !ed25519_ok(ca_vk, ed25519_vk_of(seed), cert) {
                        Err(CryptoError::Primitive)
                    } else {
                        Ok(
                            IdentityView {
                                signing_seed: seed,
                                verifying_key: ed25519_vk_of(seed),
                                cert: cert,
                                ca_secret: None,
                                ca_verifying_key: ca_vk,
                            },
                        )
                    },
                }
            },
        },
    }
}

/// What unpacking a key-exchange packet yields: the ephemeral public key,
/// its signature, the sender's verifying key, and the CA certificate over
/// that key.
pub open spec fn spec_unpack_kex(data: Seq<u8>) -> Result<
    (Seq<u8>, Seq<u8>, Seq<u8>, Seq<u8>),
    CryptoError,
> {
    match spec_decode_kex_packet(data) {
        Err(e) => Err(CryptoError::Codec(e)),
        Ok((pk, sig, vk_der, cert)) => if sig.len() != 64 {
            Err(CryptoError::Codec(CodecError::MalformedKey))
        } else {
            match spki_vk_of(vk_der) {
                None => Err(CryptoError::Codec(CodecError::MalformedKey)),
                Some(vk) => if cert.len() != 64 {
                    Err(CryptoError::Codec(CodecError::MalformedKey))
                } else {
                    Ok((pk, sig, vk, cert))
                },
            }
        },
    }
}

/// What opening a message frame under a session key yields: nonce off the
/// front, AEAD-open with the nonce as associated data, then LZ4 decode.
pub open spec fn spec_open_frame(key: Seq<u8>, data: Seq<u8>) -> Result<Seq<u8>, CryptoError> {
    if data.len() < 40 {
        Err(CryptoError::Codec(CodecError::TooShort))
    } else {
        let nonce = data.subrange(0, 24);
        match open_of(key, nonce, nonce, data.subrange(24, data.len() as int)) {
            None => Err(CryptoError::Primitive),
            Some(pt) => match unlz4_of(pt) {
                None => Err(CryptoError::Compression),
                Some(m) => Ok(m),
            },
        }
    }
}

impl Client {
    #[verifier::type_invariant]
    spec fn inv(self) -> bool {
        &&& id_valid(self.id())
        &&& forall|k: Seq<char>| #[trigger]
            self.kex_map@.contains_key(k) ==> self.kex_map@[k].len() == 32 && dh_agrees(
                self.kex_map@[k],
            )
        &&& forall|k: Seq<char>| #[trigger]
            self.shared_keys@.contains_key(k) ==> self.shared_keys@[k].len() == 32
    }

    /// The identity this engine holds.
    pub closed spec fn id(self) -> IdentityView {
        IdentityView {
            signing_seed: self.signing_key@,
            verifying_key: self.verifying_key@,
            cert: self.signing_key_signature@,
            ca_secret: match self.ca_data.secret_key {
                Some(s) => Some(s@),
                None => None,
            },
            ca_verifying_key: self.ca_data.verifying_key@,
        }
    }

    /// The in-flight ephemerals, one per peer label.
    pub closed spec fn kex_map_view(self) -> Map<Seq<char>, Seq<u8>> {
        self.kex_map@
    }

    /// The completed shared secrets, one per peer label.
    pub closed spec fn shared_keys_view(self) -> Map<Seq<char>, Seq<u8>> {
        self.shared_keys@
    }

    /// Mints a fresh user: a signing keypair and a CA keypair, the signing
    /// verifying key self-signed by the CA.
    pub fn new_user() -> (c: Client)
        ensures
            id_valid(c.id()),
            c.id().ca_secret is Some,
            c.kex_map_view() == Map::<Seq<char>, Seq<u8>>::empty(),
            c.shared_keys_view() == Map::<Seq<char>, Seq<u8>>::empty(),
    {
        let signing_key = random_bytes(32);
        let ca_signing_key = random_bytes(32);
        let verifying_key = ed25519_derive_vk(signing_key.as_slice());
        let sig = ed25519_sign(ca_signing_key.as_slice(), verifying_key.as_slice());
        let ca_verifying_key = ed25519_derive_vk(ca_signing_key.as_slice());
        Client {
            signing_key,
            verifying_key,
            signing_key_signature: sig,
            ca_data: CaData { secret_key: Some(ca_signing_key), verifying_key: ca_verifying_key },
            kex_map: KeyTable::new(),
            shared_keys: KeyTable::new(),
        }
    }

    /// The identity's verifying key (32 bytes).
    pub fn verifying_key(&self) -> (r: &Vec<u8>)
        ensures
            r@ == self.id().verifying_key,
            r@.len() == 32,
    {
        proof {
            use_type_invariant(&*self);
        }
        &self.verifying_key
    }

    /// The CA certificate over the identity's verifying key (64 bytes).
    pub fn signing_key_signature(&self) -> (r: &Vec<u8>)
        ensures
            r@ == self.id().cert,
            r@.len() == 64,
    {
        proof {
            use_type_invariant(&*self);
        }
        &self.signing_key_signature
    }

    /// The CA verifying key (32 bytes).
    pub fn ca_verifying_key(&self) -> (r: &Vec<u8>)
        ensures
            r@ == self.id().ca_verifying_key,
            r@.len() == 32,
    {
        proof {
            use_type_invariant(&*self);
        }
        &self.ca_data.verifying_key
    }

    /// Whether the identity holds the CA signing half (true for users,
    /// false for instances).
    pub fn has_ca_secret(&self) -> (r: bool)
        ensures
            r == (self.id().ca_secret is Some),
    {
        match &self.ca_data.secret_key {
            Some(_) => true,
            None => false,
        }
    }

    /// Exports the identity under a password: draws a fresh salt and nonce,
    /// derives a key with Argon2id, AEAD-seals the encoded user blob with
    /// `salt ++ nonce` as associated data, and emits
    /// `salt ++ nonce ++ ciphertext`.  The output imports back under the
    /// same password to exactly this identity.  Fails only with
    /// `MissingCaPrivate` when the identity is an instance.
    pub fn export_user(&self, password: &[u8]) -> (r: Result<Vec<u8>, CryptoError>)
        requires
            password@.len() < 0x1_0000_0000,
        ensures
            match r {
                Ok(b) => {
                    &&& self.id().ca_secret is Some
                    &&& b@.len() >= 56
                    &&& b@ == spec_export_blob(
                        self.id(),
                        password@,
                        b@.subrange(0, 16),
                        b@.subrange(16, 40),
                    )
                    &&& spec_import_user(password@, b@) == Ok::<IdentityView, CryptoError>(
                        self.id(),
                    )
                },
                Err(e) => e == CryptoError::MissingCaPrivate && self.id().ca_secret is None,
            },
    {
        proof {
            use_type_invariant(&*self);
        }
        let ca_seed = match &self.ca_data.secret_key {
            None => {
                return Err(CryptoError::MissingCaPrivate);
            },
            Some(v) => v,
        };
        let sk_der = pkcs8_encode(self.signing_key.as_slice());
        let ca_der = pkcs8_encode(ca_seed.as_slice());
        proof {
            crate::codec::lemma_user_blob_small_encodable(sk_der@, ca_der@);
        }
        let payload = match encode_user_blob(sk_der.as_slice(), ca_der.as_slice()) {
            Ok(p) => p,
            Err(_) => {
                proof {
                    assert(false);
                }
                return Err(CryptoError::MissingCaPrivate);
            },
        };
        let ghost payloadv = payload@;
        let salt = random_bytes(16);
        let nonce = random_bytes(24);
        let key = argon2id_derive(password, salt.as_slice());
        let mut aad: Vec<u8> = Vec::new();
        aad.extend_from_slice(salt.as_slice());
        aad.extend_from_slice(nonce.as_slice());
        let ghost aadv = aad@;
        let sealed = aead_seal(key.as_slice(), nonce.as_slice(), aad.as_slice(), payload);
        let mut out = aad;
        out.extend_from_slice(sealed.as_slice());
        proof {
            assert(aadv =~= salt@ + nonce@);
            assert(out@ =~= aadv + sealed@);
            assert(out@.subrange(0, 16) =~= salt@);
            assert(out@.subrange(16, 40) =~= nonce@);
            assert(out@.subrange(0, 40) =~= aadv);
            assert(out@.subrange(40, out@.len() as int) =~= sealed@);
            assert(payloadv == spec_user_payload(self.id()));
            assert(out@ =~= spec_export_blob(self.id(), password@, salt@, nonce@));
            lemma_export_import_round_trip(self.id(), password@, salt@, nonce@);
            assert(spec_import_user(password@, out@) == Ok::<IdentityView, CryptoError>(
                self.id(),
            ));
        }
        Ok(out)
    }

    /// Imports an exported user blob under a password: parses the 16-byte
    /// salt and 24-byte nonce, re-derives the key, AEAD-opens the payload
    /// (failing with `BadPassword` when authentication fails), decodes the
    /// user blob, and re-signs the signing verifying key with the CA
    /// (Ed25519 signing is deterministic, so the certificate is unchanged).
    /// The result is exactly what [`spec_import_user`] says.
    pub fn import_user(password: &[u8], data: &[u8]) -> (r: Result<Client, CryptoError>)
        requires
            password@.len() < 0x1_0000_0000,
        ensures
            match r {
                Ok(c) => {
                    &&& spec_import_user(password@, data@) == Ok::<IdentityView, CryptoError>(
                        c.id(),
                    )
                    &&& id_valid(c.id())
                    &&& c.id().ca_secret is Some
                    &&& c.kex_map_view() == Map::<Seq<char>, Seq<u8>>::empty()
                    &&& c.shared_keys_view() == Map::<Seq<char>, Seq<u8>>::empty()
                },
                Err(e) => spec_import_user(password@, data@) == Err::<IdentityView, CryptoError>(
                    e,
                ),
            },
    {
        let n = data.len();
        if n < 40 {
            return Err(CryptoError::Codec(CodecError::TooShort));
        }
        let salt = slice_to_vec(slice_subrange(data, 0, 16));
        let nonce = slice_to_vec(slice_subrange(data, 16, 40));
        let aad = slice_to_vec(slice_subrange(data, 0, 40));
        let ct = slice_to_vec(slice_subrange(data, 40, n));
        let key = argon2id_derive(password, salt.as_slice());
        let pt = match aead_open(key.as_slice(), nonce.as_slice(), aad.as_slice(), ct) {
            Some(p) => p,
            None => {
                return Err(CryptoError::BadPassword);
            },
        };
        let (sk_der, ca_der) = match decode_user_blob(pt.as_slice()) {
            Ok(v) => v,
            Err(e) => {
                return Err(CryptoError::Codec(e));
            },
        };
        let seed = match pkcs8_decode(sk_der.as_slice()) {
            Some(s) => s,
            None => {
                return Err(CryptoError::Codec(CodecError::MalformedKey));
            },
        };
        let ca_seed = match pkcs8_decode(ca_der.as_slice()) {
            Some(s) => s,
            None => {
                return Err(CryptoError::Codec(CodecError::MalformedKey));
            },
        };
        let verifying_key = ed25519_derive_vk(seed.as_slice());
        let sig = ed25519_sign(ca_seed.as_slice(), verifying_key.as_slice());
        let ca_verifying_key = ed25519_derive_vk(ca_seed.as_slice());
        Ok(
            Client {
                signing_key: seed,
                verifying_key,
                signing_key_signature: sig,
                ca_data: CaData {
                    secret_key: Some(ca_seed),
                    verifying_key: ca_verifying_key,
                },
                kex_map: KeyTable::new(),
                shared_keys: KeyTable::new(),
            },
        )
    }

    /// Mints an instance: a fresh signing keypair whose verifying key is
    /// signed by this identity's CA, packaged with the certificate and the
    /// CA verifying key (but not the CA signing half).  The blob imports to
    /// an identity bound to the same CA whose CA signing half is absent.
    /// Fails only with `MissingCaPrivate` when this identity is itself an
    /// instance.
    pub fn generate_instance(&self) -> (r: Result<Vec<u8>, CryptoError>)
        ensures
            match r {
                Ok(b) => {
                    &&& self.id().ca_secret is Some
                    &&& match spec_import_instance(b@) {
                        Ok(v) => {
                            &&& id_valid(v)
                            &&& v.ca_secret is None
                            &&& v.ca_verifying_key == self.id().ca_verifying_key
                        },
                        Err(_) => false,
                    }
                    &&& exists|seed: Seq<u8>| #![auto]
                        {
                            &&& seed.len() == 32
                            &&& b@ == spec_instance_blob(
                                pkcs8_of(seed),
                                ed25519_sig_of(self.id().ca_secret->0, ed25519_vk_of(seed)),
                                spki_of(self.id().ca_verifying_key),
                            )
                            &&& spec_import_instance(b@) == Ok::<IdentityView, CryptoError>(
                                IdentityView {
                                    signing_seed: seed,
                                    verifying_key: ed25519_vk_of(seed),
                                    cert: ed25519_sig_of(
                                        self.id().ca_secret->0,
                                        ed25519_vk_of(seed),
                                    ),
                                    ca_secret: None,
                                    ca_verifying_key: self.id().ca_verifying_key,
                                },
                            )
                        }
                },
                Err(e) => e == CryptoError::MissingCaPrivate && self.id().ca_secret is None,
            },
    {
        proof {
            use_type_invariant(&*self);
        }
        let ca_seed = match &self.ca_data.secret_key {
            None => {
                return Err(CryptoError::MissingCaPrivate);
            },
            Some(v) => v,
        };
        let seed = random_bytes(32);
        let vk = ed25519_derive_vk(seed.as_slice());
        let sig = ed25519_sign(ca_seed.as_slice(), vk.as_slice());
        let sk_der = pkcs8_encode(seed.as_slice());
        proof {
            assert(self.ca_data.verifying_key@ == ed25519_vk_of(ca_seed@));
        }
        let ca_vk_der = spki_encode(self.ca_data.verifying_key.as_slice());
        proof {
            crate::codec::lemma_instance_blob_small_encodable(sk_der@, sig@, ca_vk_der@);
        }
        let blob = match encode_instance_blob(
            sk_der.as_slice(),
            sig.as_slice(),
            ca_vk_der.as_slice(),
        ) {
            Ok(b) => b,
            Err(_) => {
                proof {
                    assert(false);
                }
                return Err(CryptoError::MissingCaPrivate);
            },
        };
        proof {
            lemma_instance_blob_round_trip(sk_der@, sig@, ca_vk_der@);
            assert(spec_import_instance(blob@) == Ok::<IdentityView, CryptoError>(
                IdentityView {
                    signing_seed: seed@,
                    verifying_key: ed25519_vk_of(seed@),
                    cert: ed25519_sig_of(self.id().ca_secret->0, ed25519_vk_of(seed@)),
                    ca_secret: None,
                    ca_verifying_key: self.id().ca_verifying_key,
                },
            ));
        }
        Ok(blob)
    }

    /// Imports an instance blob: decodes it, parses the signing key, the
    /// certificate and the CA verifying key, and re-verifies the
    /// certificate over the signing verifying key before accepting.  The
    /// result is exactly what [`spec_import_instance`] says.
    pub fn import_instance(data: &[u8]) -> (r: Result<Client, CryptoError>)
        ensures
            match r {
                Ok(c) => {
                    &&& spec_import_instance(data@) == Ok::<IdentityView, CryptoError>(c.id())
                    &&& id_valid(c.id())
                    &&& c.id().ca_secret is None
                    &&& c.kex_map_view() == Map::<Seq<char>, Seq<u8>>::empty()
                    &&& c.shared_keys_view() == Map::<Seq<char>, Seq<u8>>::empty()
                },
                Err(e) => spec_import_instance(data@) == Err::<IdentityView, CryptoError>(e),
            },
    {
        let (sk_der, cert, ca_vk_der) = match decode_instance_blob(data) {
            Ok(v) => v,
            Err(e) => {
                return Err(CryptoError::Codec(e));
            },
        };
        let seed = match pkcs8_decode(sk_der.as_slice()) {
            Some(s) => s,
            None => {
                return Err(CryptoError::Codec(CodecError::MalformedKey));
            },
        };
        if cert.len() != 64 {
            return Err(CryptoError::Codec(CodecError::MalformedKey));
        }
        let ca_vk = match spki_decode(ca_vk_der.as_slice()) {
            Some(v) => v,
            None => {
                return Err(CryptoError::Codec(CodecError::MalformedKey));
            },
        };
        let vk = ed25519_derive_vk(seed.as_slice());
        if !ed25519_verify(ca_vk.as_slice(), vk.as_slice(), cert.as_slice()) {
            return Err(CryptoError::Primitive);
        }
        Ok(
            Client {
                signing_key: seed,
                verifying_key: vk,
                signing_key_signature: cert,
                ca_data: CaData { secret_key: None, verifying_key: ca_vk },
                kex_map: KeyTable::new(),
                shared_keys: KeyTable::new(),
            },
        )
    }

    /// Starts a key exchange with a peer: draws a fresh X25519 keypair,
    /// stores the scalar under the peer label (replacing any earlier
    /// in-flight entry for it), signs the ephemeral public key with the
    /// identity's signing key, and re-verifies that signature before
    /// returning (fail closed; with a valid identity this cannot fire).
    pub fn init_dh_kex(&mut self, recipient: &str) -> (r: Result<(Vec<u8>, Vec<u8>), CryptoError>)
        ensures
            final(self).id() == old(self).id(),
            final(self).shared_keys_view() == old(self).shared_keys_view(),
            match r {
                Ok(p) => {
                    &&& p.0@.len() == 32
                    &&& p.1@.len() == 64
                    &&& p.1@ == ed25519_sig_of(old(self).id().signing_seed, p.0@)
                    &&& ed25519_ok(old(self).id().verifying_key, p.0@, p.1@)
                    &&& exists|eph: Seq<u8>| #![auto]
                        {
                            &&& eph.len() == 32
                            &&& dh_agrees(eph)
                            &&& p.0@ == x25519_pub_of(eph)
                            &&& final(self).kex_map_view() == old(self).kex_map_view().insert(
                                recipient@,
                                eph,
                            )
                        }
                },
                Err(_) => false,
            },
    {
        proof {
            use_type_invariant(&*self);
        }
        let (eph, eph_pub) = x25519_keypair();
        let ghost ephv = eph@;
        let sig = ed25519_sign(self.signing_key.as_slice(), eph_pub.as_slice());
        if !ed25519_verify(self.verifying_key.as_slice(), eph_pub.as_slice(), sig.as_slice()) {
            proof {
                assert(false);
            }
            return Err(CryptoError::Primitive);
        }
        let mut kex_map = KeyTable::new();
        core::mem::swap(&mut kex_map, &mut self.kex_map);
        kex_map.insert(recipient, eph);
        proof {
            assert forall|k: Seq<char>| #[trigger] kex_map@.contains_key(k) implies kex_map@[k].len()
                == 32 && dh_agrees(kex_map@[k]) by {
                if k != recipient@ {
                    assert(old(self).kex_map_view().contains_key(k));
                }
            }
        }
        core::mem::swap(&mut kex_map, &mut self.kex_map);
        Ok((eph_pub, sig))
    }

    /// Completes a key exchange: removes the in-flight ephemeral for the
    /// label (`NoInFlight` if none), verifies the chained signatures — the
    /// sender's verifying key must be certified by this engine's own CA
    /// (`PeerNotCaSigned`), and the peer's ephemeral public key must be
    /// signed by that sender key (`EphemeralNotSignedBySender`) — and only
    /// then computes and installs the shared secret, the single commit
    /// point.
    pub fn complete_dh_kex(
        &mut self,
        recipient: &str,
        pubkey: &[u8],
        pubkey_sig: &[u8],
        sender_verifing_key: &[u8],
        sender_verifing_key_sig: &[u8],
    ) -> (r: Result<Vec<u8>, CryptoError>)
        requires
            pubkey@.len() == 32,
            pubkey_sig@.len() == 64,
            sender_verifing_key@.len() == 32,
            sender_verifing_key_sig@.len() == 64,
        ensures
            final(self).id() == old(self).id(),
            final(self).kex_map_view() == old(self).kex_map_view().remove(recipient@),
            match r {
                Ok(s) => {
                    &&& old(self).kex_map_view().contains_key(recipient@)
                    &&& ed25519_ok(
                        old(self).id().ca_verifying_key,
                        sender_verifing_key@,
                        sender_verifing_key_sig@,
                    )
                    &&& ed25519_ok(sender_verifing_key@, pubkey@, pubkey_sig@)
                    &&& s@.len() == 32
                    &&& s@ == x25519_shared_of(old(self).kex_map_view()[recipient@], pubkey@)
                    &&& final(self).shared_keys_view() == old(self).shared_keys_view().insert(
                        recipient@,
                        s@,
                    )
                },
                Err(e) => {
                    &&& final(self).shared_keys_view() == old(self).shared_keys_view()
                    &&& match e {
                        CryptoError::NoInFlight => !old(self).kex_map_view().contains_key(
                            recipient@,
                        ),
                        CryptoError::PeerNotCaSigned => old(self).kex_map_view().contains_key(
                            recipient@,
                        ) && !ed25519_ok(
                            old(self).id().ca_verifying_key,
                            sender_verifing_key@,
                            sender_verifing_key_sig@,
                        ),
                        CryptoError::EphemeralNotSignedBySender => old(
                            self,
                        ).kex_map_view().contains_key(recipient@) && ed25519_ok(
                            old(self).id().ca_verifying_key,
                            sender_verifing_key@,
                            sender_verifing_key_sig@,
                        ) && !ed25519_ok(sender_verifing_key@, pubkey@, pubkey_sig@),
                        _ => false,
                    }
                },
            },
    {
        proof {
            use_type_invariant(&*self);
        }
        let mut kex_map = KeyTable::new();
        core::mem::swap(&mut kex_map, &mut self.kex_map);
        let eph_opt = kex_map.remove(recipient);
        proof {
            assert forall|k: Seq<char>| #[trigger] kex_map@.contains_key(k) implies kex_map@[k].len()
                == 32 && dh_agrees(kex_map@[k]) by {
                assert(old(self).kex_map_view().contains_key(k));
            }
        }
        core::mem::swap(&mut kex_map, &mut self.kex_map);
        let eph = match eph_opt {
            None => {
                return Err(CryptoError::NoInFlight);
            },
            Some(v) => v,
        };
        if !ed25519_verify(
            self.ca_data.verifying_key.as_slice(),
            sender_verifing_key,
            sender_verifing_key_sig,
        ) {
            return Err(CryptoError::PeerNotCaSigned);
        }
        if !ed25519_verify(sender_verifing_key, pubkey, pubkey_sig) {
            return Err(CryptoError::EphemeralNotSignedBySender);
        }
        let shared = x25519_dh(eph.as_slice(), pubkey);
        let stored = slice_to_vec(shared.as_slice());
        let mut shared_keys = KeyTable::new();
        core::mem::swap(&mut shared_keys, &mut self.shared_keys);
        shared_keys.insert(recipient, stored);
        proof {
            assert forall|k: Seq<char>| #[trigger] shared_keys@.contains_key(
                k,
            ) implies shared_keys@[k].len() == 32 by {
                if k != recipient@ {
                    assert(old(self).shared_keys_view().contains_key(k));
                }
            }
        }
        core::mem::swap(&mut shared_keys, &mut self.shared_keys);
        Ok(shared)
    }

    /// Packages an ephemeral public key and its signature together with the
    /// sender's verifying key (SPKI DER) and the CA certificate over that
    /// key.  The packet unpacks back to exactly these four values.
    pub fn generate_kex_packet(&self, public_key: &[u8], sig: &[u8]) -> (r: Result<
        Vec<u8>,
        CryptoError,
    >)
        requires
            public_key@.len() == 32,
            sig@.len() == 64,
        ensures
            match r {
                Ok(b) => {
                    &&& b@ == spec_kex_packet(
                        public_key@,
                        sig@,
                        spki_of(self.id().verifying_key),
                        self.id().cert,
                    )
                    &&& spec_unpack_kex(b@) == Ok::<(Seq<u8>, Seq<u8>, Seq<u8>, Seq<u8>), CryptoError>(
                        (public_key@, sig@, self.id().verifying_key, self.id().cert),
                    )
                },
                Err(_) => false,
            },
    {
        proof {
            use_type_invariant(&*self);
            assert(self.verifying_key@ == ed25519_vk_of(self.signing_key@));
        }
        let vk_der = spki_encode(self.verifying_key.as_slice());
        proof {
            crate::codec::lemma_kex_packet_small_encodable(
                public_key@,
                sig@,
                vk_der@,
                self.signing_key_signature@,
            );
        }
        let packet = match encode_kex_packet(
            public_key,
            sig,
            vk_der.as_slice(),
            self.signing_key_signature.as_slice(),
        ) {
            Ok(b) => b,
            Err(_) => {
                proof {
                    assert(false);
                }
                return Err(CryptoError::Primitive);
            },
        };
        proof {
            lemma_kex_packet_round_trip(public_key@, sig@, vk_der@, self.signing_key_signature@);
        }
        Ok(packet)
    }

    /// Unpacks a key-exchange packet: shape checks only.  The result is
    /// exactly what [`spec_unpack_kex`] says.
    pub fn unpack_kex_packet(data: &[u8]) -> (r: Result<
        (Vec<u8>, Vec<u8>, Vec<u8>, Vec<u8>),
        CryptoError,
    >)
        ensures
            match r {
                Ok(t) => {
                    &&& spec_unpack_kex(data@) == Ok::<(Seq<u8>, Seq<u8>, Seq<u8>, Seq<u8>), CryptoError>(
                        (t.0@, t.1@, t.2@, t.3@),
                    )
                    &&& t.0@.len() == 32
                    &&& t.1@.len() == 64
                    &&& t.2@.len() == 32
                    &&& t.3@.len() == 64
                },
                Err(e) => spec_unpack_kex(data@) == Err::<(Seq<u8>, Seq<u8>, Seq<u8>, Seq<u8>), CryptoError>(
                    e,
                ),
            },
    {
        let (pk, sig, vk_der, cert) = match decode_kex_packet(data) {
            Ok(v) => v,
            Err(e) => {
                return Err(CryptoError::Codec(e));
            },
        };
        if sig.len() != 64 {
            return Err(CryptoError::Codec(CodecError::MalformedKey));
        }
        let vk = match spki_decode(vk_der.as_slice()) {
            Some(v) => v,
            None => {
                return Err(CryptoError::Codec(CodecError::MalformedKey));
            },
        };
        if cert.len() != 64 {
            return Err(CryptoError::Codec(CodecError::MalformedKey));
        }
        Ok((pk, sig, vk, cert))
    }

    /// Seals a message for a peer with an established session: compresses
    /// it, draws a fresh 24-byte nonce, AEAD-seals under the shared secret
    /// with the nonce as associated data, and emits `nonce ++ ciphertext`.
    /// Opening the output under the same key gives the message back.
    /// Fails only with `NoSession` when no shared secret is installed.
    pub fn encrypt_message_for_recipient(&self, recipient: &str, message: &[u8]) -> (r: Result<
        Vec<u8>,
        CryptoError,
    >)
        requires
            message@.len() < 0x8000_0000,
        ensures
            match r {
                Ok(b) => {
                    &&& self.shared_keys_view().contains_key(recipient@)
                    &&& b@.len() >= 40
                    &&& b@ == b@.subrange(0, 24) + seal_of(
                        self.shared_keys_view()[recipient@],
                        b@.subrange(0, 24),
                        b@.subrange(0, 24),
                        lz4_of(message@),
                    )
                    &&& spec_open_frame(self.shared_keys_view()[recipient@], b@) == Ok::<
                        Seq<u8>,
                        CryptoError,
                    >(message@)
                },
                Err(e) => e == CryptoError::NoSession && !self.shared_keys_view().contains_key(
                    recipient@,
                ),
            },
    {
        proof {
            use_type_invariant(&*self);
        }
        let key = match self.shared_keys.get(recipient) {
            None => {
                return Err(CryptoError::NoSession);
            },
            Some(k) => k,
        };
        let nonce = random_bytes(24);
        let ghost noncev = nonce@;
        let compressed = lz4_compress(message);
        let ghost compressedv = compressed@;
        let sealed = aead_seal(key.as_slice(), nonce.as_slice(), nonce.as_slice(), compressed);
        let mut out = nonce;
        out.extend_from_slice(sealed.as_slice());
        proof {
            assert(out@ =~= noncev + sealed@);
            assert(out@.subrange(0, 24) =~= noncev);
            assert(out@.subrange(24, out@.len() as int) =~= sealed@);
        }
        Ok(out)
    }

    /// Opens a message frame from a peer: checks the minimum length, looks
    /// the session up, AEAD-opens with the leading nonce as associated
    /// data, and LZ4-decodes the payload.  The outcome is exactly what
    /// [`spec_open_frame`] says for the session key.
    pub fn decrypt_message_from_sender(&self, sender: &str, data: &[u8]) -> (r: Result<
        Vec<u8>,
        CryptoError,
    >)
        ensures
            data@.len() < 40 ==> r == Err::<Vec<u8>, CryptoError>(
                CryptoError::Codec(CodecError::TooShort),
            ),
            data@.len() >= 40 && !self.shared_keys_view().contains_key(sender@) ==> r == Err::<
                Vec<u8>,
                CryptoError,
            >(CryptoError::NoSession),
            data@.len() >= 40 && self.shared_keys_view().contains_key(sender@) ==> match r {
                Ok(m) => spec_open_frame(self.shared_keys_view()[sender@], data@) == Ok::<
                    Seq<u8>,
                    CryptoError,
                >(m@),
                Err(e) => spec_open_frame(self.shared_keys_view()[sender@], data@) == Err::<
                    Seq<u8>,
                    CryptoError,
                >(e),
            },
    {
        proof {
            use_type_invariant(&*self);
        }
        let n = data.len();
        if n < 40 {
            return Err(CryptoError::Codec(CodecError::TooShort));
        }
        let nonce = slice_to_vec(slice_subrange(data, 0, 24));
        let ct = slice_to_vec(slice_subrange(data, 24, n));
        let key = match self.shared_keys.get(sender) {
            None => {
                return Err(CryptoError::NoSession);
            },
            Some(k) => k,
        };
        let pt = match aead_open(key.as_slice(), nonce.as_slice(), nonce.as_slice(), ct) {
            Some(p) => p,
            None => {
                return Err(CryptoError::Primitive);
            },
        };
        match lz4_decompress(pt.as_slice()) {
            Some(m) => Ok(m),
            None => Err(CryptoError::Compression),
        }
    }
}

/// CA self-consistency: every identity the engine hands out (all
/// constructors ensure `id_valid`, and every operation preserves the
/// identity) carries a certificate that verifies over its verifying key
/// under its own CA verifying key.
pub proof fn lemma_ca_self_consistency(v: IdentityView)
    requires
        id_valid(v),
    ensures
        ed25519_ok(v.ca_verifying_key, v.verifying_key, v.cert),
{
}

/// Export/import round trip (the user identity): importing an exported blob
/// under the same password restores the identity exactly, certificate
/// included (re-signing on import reproduces it, Ed25519 being
/// deterministic).  The hypotheses are the round-trip facts of the
/// primitives — the AEAD opens its own seal under the same key and
/// associated data, and PKCS#8 decoding inverts encoding — which hold of
/// every blob the engine produces and are discharged where [`Client::export_user`]
/// calls the primitives.
pub proof fn lemma_export_import_round_trip(
    v: IdentityView,
    password: Seq<u8>,
    salt: Seq<u8>,
    nonce: Seq<u8>,
)
    requires
        id_valid(v),
        v.ca_secret is Some,
        salt.len() == 16,
        nonce.len() == 24,
        pkcs8_of(v.signing_seed).len() <= 4096,
        pkcs8_of(v.ca_secret->0).len() <= 4096,
        pkcs8_seed_of(pkcs8_of(v.signing_seed)) == Some(v.signing_seed),
        pkcs8_seed_of(pkcs8_of(v.ca_secret->0)) == Some(v.ca_secret->0),
        open_of(
            kdf_of(password, salt),
            nonce,
            salt + nonce,
            seal_of(kdf_of(password, salt), nonce, salt + nonce, spec_user_payload(v)),
        ) == Some(spec_user_payload(v)),
    ensures
        spec_import_user(password, spec_export_blob(v, password, salt, nonce)) == Ok::<
            IdentityView,
            CryptoError,
        >(v),
{
    let sealed = seal_of(kdf_of(password, salt), nonce, salt + nonce, spec_user_payload(v));
    let data = spec_export_blob(v, password, salt, nonce);
    assert(data.subrange(0, 16) =~= salt);
    assert(data.subrange(16, 40) =~= nonce);
    assert(data.subrange(0, 40) =~= salt + nonce);
    assert(data.subrange(40, data.len() as int) =~= sealed);
    crate::codec::lemma_user_blob_small_encodable(
        pkcs8_of(v.signing_seed),
        pkcs8_of(v.ca_secret->0),
    );
    lemma_user_blob_round_trip(pkcs8_of(v.signing_seed), pkcs8_of(v.ca_secret->0));
    assert(spec_import_user(password, data) == Ok::<IdentityView, CryptoError>(v));
}

/// Key-exchange symmetry: when two parties combine their own ephemeral
/// scalar with the other side's ephemeral public key, both arrive at the
/// same shared secret.
pub proof fn lemma_kex_symmetry(eph_a: Seq<u8>, eph_b: Seq<u8>)
    requires
        eph_a.len() == 32,
        eph_b.len() == 32,
        dh_agrees(eph_a),
    ensures
        x25519_shared_of(eph_a, x25519_pub_of(eph_b)) == x25519_shared_of(
            eph_b,
            x25519_pub_of(eph_a),
        ),
{
}

} // verus!
