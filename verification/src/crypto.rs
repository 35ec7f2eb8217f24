//! Keys and signatures: Ed25519 (through `ed25519-dalek`) and BLS (through
//! `blst`, min-pk variant). Keys and signatures are held as their encoded
//! bytes.
use vstd::prelude::*;
use vstd::std_specs::cmp::PartialEqSpecImpl;
use rand::RngCore;
use ed25519_dalek::Signer;
use crate::errors::CryptoError;
use crate::hashing::bytes_eq;

verus! {

/// Result of `ed25519_dalek::PublicKey::verify_strict` on a public key, a
/// message and a signature, each decoded from its bytes (false when a
/// decoding fails).
pub uninterp spec fn spec_ed25519_verify(pk: Seq<u8>, msg: Seq<u8>, sig: Seq<u8>) -> bool;

/// Result of `blst::min_pk::Signature::verify` with an empty domain tag,
/// public key and signature decoded from their bytes (false when a decoding
/// fails).
pub uninterp spec fn spec_bls_verify(pk: Seq<u8>, msg: Seq<u8>, sig: Seq<u8>) -> bool;

/// The compressed encoding of the BLS signature decoded from `bytes` by
/// `blst::min_pk::Signature::from_bytes`, or None when decoding fails.
pub uninterp spec fn spec_bls_signature_parse(bytes: Seq<u8>) -> Option<Seq<u8>>;

/// Whether `blst::min_pk::SecretKey::from_bytes` accepts `bytes`.
pub uninterp spec fn spec_bls_secret_valid(bytes: Seq<u8>) -> bool;

/// The serialized secret key that `blst::min_pk::SecretKey::key_gen` derives
/// from key material `ikm` with empty key info.
pub uninterp spec fn spec_bls_key_gen(ikm: Seq<u8>) -> Seq<u8>;

/// The Ed25519 public key bytes that `ed25519_dalek` derives from a secret.
pub uninterp spec fn spec_ed25519_public(secret: Seq<u8>) -> Seq<u8>;

/// The compressed BLS public key that `sk_to_pk` derives from a secret.
pub uninterp spec fn spec_bls_public(secret: Seq<u8>) -> Seq<u8>;

/// The Ed25519 signature bytes of `msg` under `secret`.
pub uninterp spec fn spec_ed25519_sign(secret: Seq<u8>, msg: Seq<u8>) -> Seq<u8>;

/// The compressed BLS signature of `msg` under `secret`, empty domain tag.
pub uninterp spec fn spec_bls_sign(secret: Seq<u8>, msg: Seq<u8>) -> Seq<u8>;

/// Decodes `pk` and `sig` with `ed25519_dalek::PublicKey::from_bytes` and
/// `ed25519_dalek::Signature::from_bytes`, then calls `verify_strict`.
/// Trusted: the result is `spec_ed25519_verify(pk, msg, sig)`, false when a
/// decoding fails.
#[verifier::external_body]
fn ed25519_verify(pk: &[u8], msg: &[u8], sig: &[u8]) -> (r: bool)
    ensures
        r == spec_ed25519_verify(pk@, msg@, sig@),
{
    match (ed25519_dalek::PublicKey::from_bytes(pk), ed25519_dalek::Signature::from_bytes(sig)) {
        (Ok(pk), Ok(sig)) => pk.verify_strict(msg, &sig).is_ok(),
        _ => false,
    }
}

/// Decodes `pk` and `sig` with `blst::min_pk::PublicKey::from_bytes` and
/// `blst::min_pk::Signature::from_bytes`, then calls `Signature::verify` with
/// group checks on and an empty domain tag.
/// Trusted: the result is `spec_bls_verify(pk, msg, sig)`, false when a
/// decoding fails.
#[verifier::external_body]
fn bls_verify(pk: &[u8], msg: &[u8], sig: &[u8]) -> (r: bool)
    ensures
        r == spec_bls_verify(pk@, msg@, sig@),
{
    match (blst::min_pk::PublicKey::from_bytes(pk), blst::min_pk::Signature::from_bytes(sig)) {
        (Ok(pk), Ok(sig)) => sig.verify(true, msg, &[], &[], &pk, true)
            == blst::BLST_ERROR::BLST_SUCCESS,
        _ => false,
    }
}

/// Calls `blst::min_pk::Signature::from_bytes` and, on success, `to_bytes`.
/// Trusted: the result is `spec_bls_signature_parse(bytes)`.
#[verifier::external_body]
fn bls_signature_from_bytes(bytes: &[u8]) -> (r: Option<Vec<u8>>)
    ensures
        match r {
            Some(v) => spec_bls_signature_parse(bytes@) == Some(v@),
            None => spec_bls_signature_parse(bytes@) is None,
        },
{
    match blst::min_pk::Signature::from_bytes(bytes) {
        Ok(sig) => Some(sig.to_bytes().to_vec()),
        Err(_) => None,
    }
}

/// Calls `blst::min_pk::SecretKey::from_bytes`.
/// Trusted: the result is `spec_bls_secret_valid(bytes)`.
#[verifier::external_body]
fn bls_secret_key_valid(bytes: &[u8]) -> (r: bool)
    ensures
        r == spec_bls_secret_valid(bytes@),
{
    blst::min_pk::SecretKey::from_bytes(bytes).is_ok()
}

/// Calls `blst::min_pk::SecretKey::key_gen(ikm, &[])`, which fails only for
/// key material shorter than 32 bytes, and serializes the key.
/// Trusted: the result is `spec_bls_key_gen(ikm)` and is accepted by
/// `SecretKey::from_bytes` (`key_gen` produces a key that `deserialize`
/// checks as valid).
#[verifier::external_body]
fn bls_key_gen(ikm: &[u8]) -> (r: Vec<u8>)
    requires
        ikm@.len() >= 32,
    ensures
        r@ == spec_bls_key_gen(ikm@),
        spec_bls_secret_valid(r@),
{
    blst::min_pk::SecretKey::key_gen(ikm, &[]).unwrap().to_bytes().to_vec()
}

/// Builds `ed25519_dalek::SecretKey::from_bytes(secret)` and converts it into
/// its `PublicKey`. Trusted: the result is `spec_ed25519_public(secret)`.
#[verifier::external_body]
fn ed25519_public_from_secret(secret: &[u8]) -> (r: Vec<u8>)
    requires
        secret@.len() == 32,
    ensures
        r@ == spec_ed25519_public(secret@),
{
    let sk = ed25519_dalek::SecretKey::from_bytes(secret).unwrap();
    ed25519_dalek::PublicKey::from(&sk).to_bytes().to_vec()
}

/// Calls `sk_to_pk` on `blst::min_pk::SecretKey::from_bytes(secret)` and
/// compresses the key. Trusted: the result is `spec_bls_public(secret)`.
#[verifier::external_body]
fn bls_public_from_secret(secret: &[u8]) -> (r: Vec<u8>)
    requires
        spec_bls_secret_valid(secret@),
    ensures
        r@ == spec_bls_public(secret@),
{
    blst::min_pk::SecretKey::from_bytes(secret).unwrap().sk_to_pk().to_bytes().to_vec()
}

/// Signs `msg` with the `ed25519_dalek::Keypair` built from `secret`.
/// Trusted: the result is `spec_ed25519_sign(secret, msg)` (Ed25519 signing
/// is deterministic).
#[verifier::external_body]
fn ed25519_sign(secret: &[u8], msg: &[u8]) -> (r: Vec<u8>)
    requires
        secret@.len() == 32,
    ensures
        r@ == spec_ed25519_sign(secret@, msg@),
{
    let sk = ed25519_dalek::SecretKey::from_bytes(secret).unwrap();
    let pk = ed25519_dalek::PublicKey::from(&sk);
    ed25519_dalek::Keypair { secret: sk, public: pk }.sign(msg).to_bytes().to_vec()
}

/// Signs `msg` with `blst::min_pk::SecretKey::sign` (empty domain tag and
/// augmentation) and compresses the signature. Trusted: the result is
/// `spec_bls_sign(secret, msg)` (BLS signing is deterministic).
#[verifier::external_body]
fn bls_sign(secret: &[u8], msg: &[u8]) -> (r: Vec<u8>)
    requires
        spec_bls_secret_valid(secret@),
    ensures
        r@ == spec_bls_sign(secret@, msg@),
{
    blst::min_pk::SecretKey::from_bytes(secret).unwrap().sign(msg, &[], &[]).to_bytes().to_vec()
}

/// Fills 32 bytes from `rand::rngs::OsRng`.
/// Trusted: nothing is claimed of the bytes but their number.
#[verifier::external_body]
pub(crate) fn random_bytes() -> (r: [u8; 32])
    ensures
        r@.len() == 32,
{
    let mut bytes = [0u8; 32];
    rand::rngs::OsRng.fill_bytes(&mut bytes);
    bytes
}

/// A copy of a byte vector.
pub fn copy_bytes(b: &Vec<u8>) -> (r: Vec<u8>)
    ensures
        r@ == b@,
{
    let mut r: Vec<u8> = Vec::new();
    crate::hashing::append_bytes(&mut r, b.as_slice());
    r
}

/// Supported signature schemes
#[derive(Debug, Clone, Copy, PartialEq, Eq, Structural)]
pub enum SignatureScheme {
    /// Ed25519 signatures
    Ed25519,
    /// BLS signatures
    BLS,
}

/// Public key, held as its encoded bytes.
#[derive(Debug)]
pub enum PublicKey {
    /// Ed25519 public key
    Ed25519(Vec<u8>),
    /// BLS public key (compressed, min-pk)
    BLS(Vec<u8>),
}

impl View for PublicKey {
    type V = (SignatureScheme, Seq<u8>);

    open spec fn view(&self) -> (SignatureScheme, Seq<u8>) {
        match self {
            PublicKey::Ed25519(b) => (SignatureScheme::Ed25519, b@),
            PublicKey::BLS(b) => (SignatureScheme::BLS, b@),
        }
    }
}

impl Clone for PublicKey {
    fn clone(&self) -> (k: PublicKey)
        ensures
            k@ == self@,
    {
        match self {
            PublicKey::Ed25519(b) => PublicKey::Ed25519(copy_bytes(b)),
            PublicKey::BLS(b) => PublicKey::BLS(copy_bytes(b)),
        }
    }
}

impl PartialEq for PublicKey {
    fn eq(&self, other: &Self) -> (r: bool) {
        match (self, other) {
            (PublicKey::Ed25519(a), PublicKey::Ed25519(b)) => bytes_eq(a.as_slice(), b.as_slice()),
            (PublicKey::BLS(a), PublicKey::BLS(b)) => bytes_eq(a.as_slice(), b.as_slice()),
            _ => false,
        }
    }
}

impl PartialEqSpecImpl for PublicKey {
    open spec fn obeys_eq_spec() -> bool {
        true
    }

    open spec fn eq_spec(&self, other: &PublicKey) -> bool {
        self@ == other@
    }
}

/// Whether `sig` is a valid signature of `msg` under `pk`: signatures of one
/// scheme never verify under a key of the other.
pub open spec fn spec_signature_valid(
    pk: (SignatureScheme, Seq<u8>),
    msg: Seq<u8>,
    sig: (SignatureScheme, Seq<u8>),
) -> bool {
    if pk.0 != sig.0 {
        false
    } else if pk.0 == SignatureScheme::Ed25519 {
        spec_ed25519_verify(pk.1, msg, sig.1)
    } else {
        spec_bls_verify(pk.1, msg, sig.1)
    }
}

impl PublicKey {
    /// Get signature scheme
    pub fn scheme(&self) -> (s: SignatureScheme)
        ensures
            s == self@.0,
    {
        match self {
            PublicKey::Ed25519(_) => SignatureScheme::Ed25519,
            PublicKey::BLS(_) => SignatureScheme::BLS,
        }
    }

    /// Verify signature
    pub fn verify(&self, message: &[u8], signature: &Signature) -> (r: bool)
        ensures
            r == spec_signature_valid(self@, message@, signature@),
    {
        match (self, signature) {
            (PublicKey::Ed25519(pk), Signature::Ed25519(sig)) => ed25519_verify(
                pk.as_slice(),
                message,
                sig.as_slice(),
            ),
            (PublicKey::BLS(pk), Signature::BLS(sig)) => bls_verify(
                pk.as_slice(),
                message,
                sig.as_slice(),
            ),
            _ => false,
        }
    }

    /// Convert to bytes
    pub fn to_bytes(&self) -> (b: Vec<u8>)
        ensures
            b@ == self@.1,
    {
        match self {
            PublicKey::Ed25519(pk) => copy_bytes(pk),
            PublicKey::BLS(pk) => copy_bytes(pk),
        }
    }
}

/// Signature, held as its encoded bytes.
#[derive(Debug)]
pub enum Signature {
    /// Ed25519 signature
    Ed25519(Vec<u8>),
    /// BLS signature (compressed, min-pk)
    BLS(Vec<u8>),
}

impl View for Signature {
    type V = (SignatureScheme, Seq<u8>);

    open spec fn view(&self) -> (SignatureScheme, Seq<u8>) {
        match self {
            Signature::Ed25519(b) => (SignatureScheme::Ed25519, b@),
            Signature::BLS(b) => (SignatureScheme::BLS, b@),
        }
    }
}

impl Clone for Signature {
    fn clone(&self) -> (s: Signature)
        ensures
            s@ == self@,
    {
        match self {
            Signature::Ed25519(b) => Signature::Ed25519(copy_bytes(b)),
            Signature::BLS(b) => Signature::BLS(copy_bytes(b)),
        }
    }
}

/// The check that `ed25519::Signature::from_bytes` makes: 64 bytes whose
/// last byte has its three highest bits clear.
pub open spec fn ed25519_signature_well_formed(bytes: Seq<u8>) -> bool {
    bytes.len() == 64 && bytes[63] & 0xe0u8 == 0
}

impl Signature {
    /// Get signature scheme
    pub fn scheme(&self) -> (s: SignatureScheme)
        ensures
            s == self@.0,
    {
        match self {
            Signature::Ed25519(_) => SignatureScheme::Ed25519,
            Signature::BLS(_) => SignatureScheme::BLS,
        }
    }

    /// Verify signature
    pub fn verify(&self, message: &[u8], public_key: &PublicKey) -> (r: bool)
        ensures
            r == spec_signature_valid(public_key@, message@, self@),
    {
        public_key.verify(message, self)
    }

    /// Convert to bytes
    pub fn to_bytes(&self) -> (b: Vec<u8>)
        ensures
            b@ == self@.1,
    {
        match self {
            Signature::Ed25519(sig) => copy_bytes(sig),
            Signature::BLS(sig) => copy_bytes(sig),
        }
    }

    /// Create from bytes: an Ed25519 signature is 64 bytes whose top three
    /// bits are clear; a BLS signature is whatever `blst` decodes, held in
    /// its compressed form.
    pub fn from_bytes(scheme: SignatureScheme, bytes: &[u8]) -> (r: Result<Signature, CryptoError>)
        ensures
            match scheme {
                SignatureScheme::Ed25519 => match r {
                    Ok(s) => ed25519_signature_well_formed(bytes@) && s@ == (
                        SignatureScheme::Ed25519,
                        bytes@,
                    ),
                    Err(e) => !ed25519_signature_well_formed(bytes@) && e is InvalidSignature,
                },
                SignatureScheme::BLS => match r {
                    Ok(s) => spec_bls_signature_parse(bytes@) == Some(s@.1) && s@.0
                        == SignatureScheme::BLS,
                    Err(e) => spec_bls_signature_parse(bytes@) is None && e is InvalidSignature,
                },
            },
    {
        match scheme {
            SignatureScheme::Ed25519 => {
                if bytes.len() != 64 || bytes[63] & 0xe0u8 != 0 {
                    return Err(CryptoError::InvalidSignature("invalid Ed25519 signature".to_string()));
                }
                let mut v: Vec<u8> = Vec::new();
                crate::hashing::append_bytes(&mut v, bytes);
                Ok(Signature::Ed25519(v))
            },
            SignatureScheme::BLS => match bls_signature_from_bytes(bytes) {
                Some(v) => Ok(Signature::BLS(v)),
                None => Err(CryptoError::InvalidSignature("invalid BLS signature".to_string())),
            },
        }
    }
}

/// The key that 32 seed bytes give: the bytes themselves as an Ed25519
/// secret, or the BLS secret derived from them as key material.
pub open spec fn seed_key(scheme: SignatureScheme, seed: Seq<u8>) -> (SignatureScheme, Seq<u8>) {
    match scheme {
        SignatureScheme::Ed25519 => (scheme, seed),
        SignatureScheme::BLS => (scheme, spec_bls_key_gen(seed)),
    }
}

/// Key pair: a scheme and the secret key bytes.
pub struct KeyPair {
    /// Signature scheme
    scheme: SignatureScheme,
    /// Secret key bytes
    secret: Vec<u8>,
}

/// Whether `bytes` is a secret key of `scheme`: 32 bytes for Ed25519, what
/// `blst` accepts for BLS.
pub open spec fn secret_valid(scheme: SignatureScheme, bytes: Seq<u8>) -> bool {
    match scheme {
        SignatureScheme::Ed25519 => bytes.len() == 32,
        SignatureScheme::BLS => spec_bls_secret_valid(bytes),
    }
}

impl View for KeyPair {
    type V = (SignatureScheme, Seq<u8>);

    closed spec fn view(&self) -> (SignatureScheme, Seq<u8>) {
        (self.scheme, self.secret@)
    }
}

impl Clone for KeyPair {
    fn clone(&self) -> (k: KeyPair)
        ensures
            k@ == self@,
    {
        proof {
            use_type_invariant(self);
        }
        let mut secret: Vec<u8> = Vec::new();
        crate::hashing::append_bytes(&mut secret, self.secret.as_slice());
        KeyPair { scheme: self.scheme, secret }
    }
}

impl KeyPair {
    #[verifier::type_invariant]
    closed spec fn secret_is_valid(&self) -> bool {
        secret_valid(self.scheme, self.secret@)
    }

    /// Generate new key pair from 32 random bytes, as `from_seed` makes it.
    pub fn generate(scheme: SignatureScheme) -> (k: KeyPair)
        ensures
            k@.0 == scheme,
            secret_valid(scheme, k@.1),
            exists|seed: Seq<u8>| seed.len() == 32 && k@ == seed_key(scheme, seed),
    {
        let bytes = random_bytes();
        Self::from_seed(scheme, bytes)
    }

    /// The key pair grown from 32 seed bytes: they are the Ed25519 secret,
    /// or the key material from which the BLS secret is derived.
    pub fn from_seed(scheme: SignatureScheme, seed: [u8; 32]) -> (k: KeyPair)
        ensures
            k@ == seed_key(scheme, seed@),
            secret_valid(scheme, k@.1),
    {
        let mut ikm: Vec<u8> = Vec::new();
        crate::hashing::append_bytes(&mut ikm, seed.as_slice());
        match scheme {
            SignatureScheme::Ed25519 => KeyPair { scheme, secret: ikm },
            SignatureScheme::BLS => {
                let secret = bls_key_gen(ikm.as_slice());
                KeyPair { scheme, secret }
            },
        }
    }

    /// Create from private key bytes
    pub fn from_private_key_bytes(scheme: SignatureScheme, bytes: &[u8]) -> (r: Result<KeyPair, CryptoError>)
        ensures
            match r {
                Ok(k) => secret_valid(scheme, bytes@) && k@ == (scheme, bytes@),
                Err(e) => !secret_valid(scheme, bytes@) && e is InvalidKey,
            },
    {
        let valid = match scheme {
            SignatureScheme::Ed25519 => bytes.len() == 32,
            SignatureScheme::BLS => bls_secret_key_valid(bytes),
        };
        if !valid {
            return Err(CryptoError::InvalidKey("invalid secret key".to_string()));
        }
        let mut secret: Vec<u8> = Vec::new();
        crate::hashing::append_bytes(&mut secret, bytes);
        Ok(KeyPair { scheme, secret })
    }

    /// Get signature scheme
    pub fn scheme(&self) -> (s: SignatureScheme)
        ensures
            s == self@.0,
    {
        self.scheme
    }

    /// Get public key
    pub fn public(&self) -> (pk: PublicKey)
        ensures
            pk@ == (self@.0, match self@.0 {
                SignatureScheme::Ed25519 => spec_ed25519_public(self@.1),
                SignatureScheme::BLS => spec_bls_public(self@.1),
            }),
    {
        proof {
            use_type_invariant(self);
        }
        match self.scheme {
            SignatureScheme::Ed25519 => PublicKey::Ed25519(ed25519_public_from_secret(self.secret.as_slice())),
            SignatureScheme::BLS => PublicKey::BLS(bls_public_from_secret(self.secret.as_slice())),
        }
    }

    /// Sign message
    pub fn sign(&self, message: &[u8]) -> (sig: Signature)
        ensures
            sig@ == (self@.0, match self@.0 {
                SignatureScheme::Ed25519 => spec_ed25519_sign(self@.1, message@),
                SignatureScheme::BLS => spec_bls_sign(self@.1, message@),
            }),
    {
        proof {
            use_type_invariant(self);
        }
        match self.scheme {
            SignatureScheme::Ed25519 => Signature::Ed25519(ed25519_sign(self.secret.as_slice(), message)),
            SignatureScheme::BLS => Signature::BLS(bls_sign(self.secret.as_slice(), message)),
        }
    }
}

} // verus!
