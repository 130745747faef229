use vstd::prelude::*;

use crate::errors::ProtocolError;
use crate::hexenc::{hex_decode, hex_decoding_of, hex_encode, hex_encoding_of, hex_ok};

verus! {

/// Whether secp256k1 accepts these 32 bytes as a secret key (a nonzero scalar
/// below the curve order); exactly what SecretKey::from_secret_bytes accepts.
pub uninterp spec fn secret_key_ok(b: Seq<u8>) -> bool;

/// Whether secp256k1 accepts these bytes as a public key, that is, whether
/// they encode a valid curve point; exactly what PublicKey::from_slice accepts.
pub uninterp spec fn public_key_ok(b: Seq<u8>) -> bool;

/// The compressed 33-byte serialization of the public key that secp256k1
/// derives from a secret key (PublicKey::from_secret_key then serialize).
pub uninterp spec fn pubkey_bytes_of(sk: Seq<u8>) -> Seq<u8>;

/// The shared secret that secp256k1's ECDH computes from a secret key and a
/// public key (ecdh::SharedSecret::new), a function of the two keys alone.
pub uninterp spec fn ecdh_secret(sk: Seq<u8>, pk: Seq<u8>) -> Seq<u8>;

/// The DER serialization of the ECDSA signature secp256k1 produces for a
/// 32-byte message digest under a secret key; RFC6979 nonces make it a
/// function of the key and the digest alone.
pub uninterp spec fn ecdsa_sig_of(sk: Seq<u8>, msg: Seq<u8>) -> Seq<u8>;

/// A parsed and validated secret key.
#[derive(Debug)]
pub struct SecretKey {
    pub bytes: Vec<u8>,
}

/// A parsed and validated public key.
#[derive(Debug)]
pub struct PublicKey {
    pub bytes: Vec<u8>,
}

impl SecretKey {
    pub open spec fn wf(&self) -> bool {
        self.bytes@.len() == 32 && secret_key_ok(self.bytes@)
    }

    /// Parse a secret key from raw bytes; rejected exactly when secp256k1
    /// rejects them.
    pub fn parse(bytes: Vec<u8>) -> (r: Result<SecretKey, ProtocolError>)
        ensures
            r is Ok <==> bytes@.len() == 32 && secret_key_ok(bytes@),
            r is Ok ==> r->Ok_0.bytes@ == bytes@ && r->Ok_0.wf(),
            r is Err ==> r->Err_0 == ProtocolError::InvalidKey,
    {
        if secret_key_check(&bytes) {
            Ok(SecretKey { bytes })
        } else {
            Err(ProtocolError::InvalidKey)
        }
    }
}

impl PublicKey {
    pub open spec fn wf(&self) -> bool {
        public_key_ok(self.bytes@)
    }

    /// Parse a public key from raw bytes; rejected exactly when the bytes are
    /// not a valid curve point encoding.
    pub fn parse(bytes: Vec<u8>) -> (r: Result<PublicKey, ProtocolError>)
        ensures
            r is Ok <==> public_key_ok(bytes@),
            r is Ok ==> r->Ok_0.bytes@ == bytes@ && r->Ok_0.wf(),
            r is Err ==> r->Err_0 == ProtocolError::InvalidKey,
    {
        if public_key_check(&bytes) {
            Ok(PublicKey { bytes })
        } else {
            Err(ProtocolError::InvalidKey)
        }
    }

    /// The public key belonging to a secret key, in compressed form.
    pub fn of_secret(sk: &SecretKey) -> (r: PublicKey)
        requires
            sk.wf(),
        ensures
            r.bytes@ == pubkey_bytes_of(sk.bytes@),
            r.bytes@.len() == 33,
            r.wf(),
    {
        PublicKey { bytes: pubkey_from_secret(sk) }
    }
}

/// Relies on secp256k1's SecretKey::from_secret_bytes: it succeeds exactly when
/// the 32 bytes are a valid, nonzero scalar below the curve order.
#[verifier::external_body]
fn secret_key_check(b: &Vec<u8>) -> (r: bool)
    ensures
        r == (b@.len() == 32 && secret_key_ok(b@)),
{
    match <[u8; 32]>::try_from(b.as_slice()) {
        Ok(arr) => secp256k1::SecretKey::from_secret_bytes(arr).is_ok(),
        Err(_) => false,
    }
}

/// Relies on secp256k1's PublicKey::from_slice: it succeeds exactly when the
/// bytes encode a valid curve point.
#[verifier::external_body]
fn public_key_check(b: &Vec<u8>) -> (r: bool)
    ensures
        r == public_key_ok(b@),
{
    secp256k1::PublicKey::from_slice(b.as_slice()).is_ok()
}

/// Relies on secp256k1's PublicKey::from_secret_key and PublicKey::serialize:
/// the derived key is a valid curve point and serializes to 33 bytes, a
/// function of the secret key alone.
#[verifier::external_body]
fn pubkey_from_secret(sk: &SecretKey) -> (r: Vec<u8>)
    requires
        sk.wf(),
    ensures
        r@ == pubkey_bytes_of(sk.bytes@),
        r@.len() == 33,
        public_key_ok(r@),
{
    let arr: [u8; 32] = sk.bytes.as_slice().try_into().expect("validated length");
    let key = secp256k1::SecretKey::from_secret_bytes(arr).expect("validated key");
    secp256k1::PublicKey::from_secret_key(&key).serialize().to_vec()
}

/// Relies on secp256k1's ecdh::SharedSecret::new: a 32-byte secret that is a
/// function of the two keys alone, and symmetric — new(pkB, skA) equals
/// new(pkA, skB) when pkA and pkB are the keys derived from skA and skB, as
/// the ecdh module's documentation shows.
#[verifier::external_body]
fn ecdh_raw(sk: &SecretKey, pk: &PublicKey) -> (r: Vec<u8>)
    requires
        sk.wf(),
        pk.wf(),
    ensures
        r@ == ecdh_secret(sk.bytes@, pk.bytes@),
        r@.len() == 32,
        forall|other: Seq<u8>|
            #![trigger ecdh_secret(other, pubkey_bytes_of(sk.bytes@))]
            pk.bytes@ == pubkey_bytes_of(other) ==> r@ == ecdh_secret(
                other,
                pubkey_bytes_of(sk.bytes@),
            ),
{
    let arr: [u8; 32] = sk.bytes.as_slice().try_into().expect("validated length");
    let skk = secp256k1::SecretKey::from_secret_bytes(arr).expect("validated key");
    let pkk = secp256k1::PublicKey::from_slice(pk.bytes.as_slice()).expect("validated key");
    let shared = secp256k1::ecdh::SharedSecret::new(&pkk, &skk);
    shared.to_secret_bytes().to_vec()
}

/// Relies on secp256k1's SecretKey::sign_ecdsa, which signs with RFC6979
/// deterministic nonces, and on Signature::serialize_der.
#[verifier::external_body]
pub(crate) fn sign_digest(sk: &SecretKey, msg: &Vec<u8>) -> (r: Vec<u8>)
    requires
        sk.wf(),
        msg@.len() == 32,
    ensures
        r@ == ecdsa_sig_of(sk.bytes@, msg@),
{
    let arr: [u8; 32] = sk.bytes.as_slice().try_into().expect("validated length");
    let key = secp256k1::SecretKey::from_secret_bytes(arr).expect("validated key");
    let m: [u8; 32] = msg.as_slice().try_into().expect("digest length");
    let sig = key.sign_ecdsa(secp256k1::Message::from_digest(m));
    sig.serialize_der().to_vec()
}

/// Derive the shared symmetric secret of a key pair, Diffie–Hellman style.
/// Counterparties holding (skA, pkB) and (skB, pkA) derive the same secret.
pub fn derive_shared_secret(sk: &SecretKey, pk: &PublicKey) -> (r: Vec<u8>)
    requires
        sk.wf(),
        pk.wf(),
    ensures
        r@ == ecdh_secret(sk.bytes@, pk.bytes@),
        r@.len() == 32,
        forall|other: Seq<u8>|
            #![trigger ecdh_secret(other, pubkey_bytes_of(sk.bytes@))]
            pk.bytes@ == pubkey_bytes_of(other) ==> r@ == ecdh_secret(
                other,
                pubkey_bytes_of(sk.bytes@),
            ),
{
    ecdh_raw(sk, pk)
}

/// ECDH symmetry, demonstrated end to end: for any two valid secret keys, the
/// secret one party derives from its own key and the other's public key equals
/// the secret the other party derives the opposite way. The two components of
/// the result are always equal.
pub fn derive_shared_secret_both_ways(sk_a: &SecretKey, sk_b: &SecretKey) -> (r: (Vec<u8>, Vec<u8>))
    requires
        sk_a.wf(),
        sk_b.wf(),
    ensures
        r.0@ == r.1@,
        r.0@ == ecdh_secret(sk_a.bytes@, pubkey_bytes_of(sk_b.bytes@)),
        r.1@ == ecdh_secret(sk_b.bytes@, pubkey_bytes_of(sk_a.bytes@)),
{
    let pk_a = PublicKey::of_secret(sk_a);
    let pk_b = PublicKey::of_secret(sk_b);
    let s_ab = derive_shared_secret(sk_a, &pk_b);
    let s_ba = derive_shared_secret(sk_b, &pk_a);
    proof {
        assert(pk_b.bytes@ == pubkey_bytes_of(sk_b.bytes@));
        assert(s_ab@ == ecdh_secret(sk_b.bytes@, pubkey_bytes_of(sk_a.bytes@)));
    }
    (s_ab, s_ba)
}

/// The key-derivation endpoint's computation: both keys arrive hex-encoded,
/// the shared secret leaves hex-encoded. Succeeds exactly when both inputs are
/// well-formed hex and decode to keys secp256k1 accepts.
pub fn derive_shared_secret_hex(sk_hex: &Vec<u8>, pk_hex: &Vec<u8>) -> (r: Result<
    Vec<u8>,
    ProtocolError,
>)
    ensures
        r is Ok <==> {
            &&& hex_ok(sk_hex@)
            &&& hex_decoding_of(sk_hex@).len() == 32
            &&& secret_key_ok(hex_decoding_of(sk_hex@))
            &&& hex_ok(pk_hex@)
            &&& public_key_ok(hex_decoding_of(pk_hex@))
        },
        r is Ok ==> r->Ok_0@ == hex_encoding_of(
            ecdh_secret(hex_decoding_of(sk_hex@), hex_decoding_of(pk_hex@)),
        ),
        r is Err ==> r->Err_0 == ProtocolError::InvalidKey,
{
    let sk_bytes = match hex_decode(sk_hex) {
        Some(b) => b,
        None => {
            return Err(ProtocolError::InvalidKey);
        },
    };
    let pk_bytes = match hex_decode(pk_hex) {
        Some(b) => b,
        None => {
            return Err(ProtocolError::InvalidKey);
        },
    };
    let sk = match SecretKey::parse(sk_bytes) {
        Ok(k) => k,
        Err(e) => {
            return Err(e);
        },
    };
    let pk = match PublicKey::parse(pk_bytes) {
        Ok(k) => k,
        Err(e) => {
            return Err(e);
        },
    };
    let shared = derive_shared_secret(&sk, &pk);
    Ok(hex_encode(&shared))
}

} // verus!
