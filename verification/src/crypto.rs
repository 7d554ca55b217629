//! Digests, Base64 and RSA PKCS#1 v1.5 (SHA-256) keys.
//!
//! Every function here that reaches into `sha2`, `base64` or `rsa` is a
//! trusted wrapper: its contract is taken on trust and names what the outside
//! function computes.
use vstd::prelude::*;

use base64::engine::general_purpose::STANDARD;
use base64::Engine;
use rand::rngs::OsRng;
use rsa::pkcs1v15::{Signature, SigningKey, VerifyingKey};
use rsa::pkcs8::{DecodePrivateKey, EncodePrivateKey};
use rsa::signature::{SignatureEncoding, Signer, Verifier};
use rsa::{RsaPrivateKey, RsaPublicKey};
use sha2::{Digest, Sha256};
use spki::{DecodePublicKey, EncodePublicKey};

verus! {

#[verifier::external_type_specification]
#[verifier::external_body]
pub struct ExRsaPrivateKey(RsaPrivateKey);

#[verifier::external_type_specification]
#[verifier::external_body]
pub struct ExRsaPublicKey(RsaPublicKey);

/// The SHA-256 digest of a byte string.
pub uninterp spec fn sha256_digest(data: Seq<u8>) -> Seq<u8>;

/// The digit of a six-bit value in the standard Base64 alphabet
/// (`A`-`Z`, `a`-`z`, `0`-`9`, `+`, `/`).
pub open spec fn base64_digit(v: int) -> char {
    if v < 26 {
        (65 + v) as char
    } else if v < 52 {
        (97 + v - 26) as char
    } else if v < 62 {
        (48 + v - 52) as char
    } else if v == 62 {
        '+'
    } else {
        '/'
    }
}

/// The standard (RFC 4648, padded) Base64 text of a byte string: every
/// three bytes become four digits of six bits each; a last group of one or
/// two bytes is filled with zero bits and padded with `=` to four characters.
pub open spec fn base64_standard(data: Seq<u8>) -> Seq<char>
    decreases data.len(),
{
    if data.len() == 0 {
        Seq::empty()
    } else if data.len() == 1 {
        seq![
            base64_digit(data[0] as int / 4),
            base64_digit((data[0] as int % 4) * 16),
            '=',
            '=',
        ]
    } else if data.len() == 2 {
        seq![
            base64_digit(data[0] as int / 4),
            base64_digit((data[0] as int % 4) * 16 + data[1] as int / 16),
            base64_digit((data[1] as int % 16) * 4),
            '=',
        ]
    } else {
        seq![
            base64_digit(data[0] as int / 4),
            base64_digit((data[0] as int % 4) * 16 + data[1] as int / 16),
            base64_digit((data[1] as int % 16) * 4 + data[2] as int / 64),
            base64_digit(data[2] as int % 64),
        ] + base64_standard(data.subrange(3, data.len() as int))
    }
}

/// Whether `RsaPrivateKey::from_pkcs8_der` accepts the bytes.
pub uninterp spec fn pkcs8_rsa_private_key_parses(der: Seq<u8>) -> bool;

/// The RSASSA-PKCS1-v1_5 signature with SHA-256 of `msg` under the PKCS#8
/// private key `der`, or `None` where the signing operation fails.
pub uninterp spec fn rsa_pkcs1v15_sha256_signature(der: Seq<u8>, msg: Seq<u8>) -> Option<Seq<u8>>;

/// The DER SubjectPublicKeyInfo of the public half of the PKCS#8 private key `der`.
pub uninterp spec fn rsa_public_key_der(private_der: Seq<u8>) -> Seq<u8>;

/// Whether `RsaPublicKey::from_public_key_der` accepts the bytes.
pub uninterp spec fn spki_rsa_public_key_parses(der: Seq<u8>) -> bool;

/// Whether `sig` is a valid RSASSA-PKCS1-v1_5 / SHA-256 signature of `msg`
/// under the SubjectPublicKeyInfo public key `der`.
pub uninterp spec fn rsa_pkcs1v15_sha256_verifies(der: Seq<u8>, msg: Seq<u8>, sig: Seq<u8>) -> bool;

/// A matching key pair as produced by key generation: the private key parses,
/// the public key parses, and every message has a signature of `sig_len`
/// bytes under the private key that the public key accepts.
pub open spec fn is_key_pair(private_der: Seq<u8>, public_der: Seq<u8>, sig_len: nat) -> bool {
    &&& pkcs8_rsa_private_key_parses(private_der)
    &&& spki_rsa_public_key_parses(public_der)
    &&& public_der == rsa_public_key_der(private_der)
    &&& forall|msg: Seq<u8>|
        #[trigger] rsa_pkcs1v15_sha256_signature(private_der, msg) matches Some(sig) && sig.len()
            == sig_len && rsa_pkcs1v15_sha256_verifies(public_der, msg, sig)
}

/// Computes SHA-256 through `sha2::Sha256` (`Digest::digest`).
/// Trusted: the result is the named digest and is 32 bytes long.
#[verifier::external_body]
pub(crate) fn sha256(data: &[u8]) -> (r: Vec<u8>)
    ensures
        r@ == sha256_digest(data@),
        r@.len() == 32,
{
    <Sha256 as Digest>::digest(data).to_vec()
}

/// Encodes with `base64::engine::general_purpose::STANDARD` (`Engine::encode`).
/// Trusted: the result is the Base64 text that `base64_standard` spells
/// out. The length bound keeps the
/// encoder away from its documented overflow panic.
#[verifier::external_body]
pub(crate) fn base64_encode(data: &[u8]) -> (r: String)
    requires
        data@.len() <= usize::MAX / 2,
    ensures
        r@ == base64_standard(data@),
{
    STANDARD.encode(data)
}

/// Parses with `RsaPrivateKey::from_pkcs8_der`.
/// Trusted: succeeds exactly when the named predicate holds of the bytes.
#[verifier::external_body]
fn decode_pkcs8_private_key(der: &[u8]) -> (r: Option<RsaPrivateKey>)
    ensures
        r is Some == pkcs8_rsa_private_key_parses(der@),
{
    RsaPrivateKey::from_pkcs8_der(der).ok()
}

/// Parses with `RsaPublicKey::from_public_key_der`.
/// Trusted: succeeds exactly when the named predicate holds of the bytes.
#[verifier::external_body]
fn decode_spki_public_key(der: &[u8]) -> (r: Option<RsaPublicKey>)
    ensures
        r is Some == spki_rsa_public_key_parses(der@),
{
    RsaPublicKey::from_public_key_der(der).ok()
}

/// Generates a key with `RsaPrivateKey::new` from the operating system's
/// random source and encodes it with `EncodePrivateKey::to_pkcs8_der`.
/// Trusted: for two primes and at least 64 bits generation cannot fail (it
/// loops until the modulus has exactly `bits` bits), and encoding a two-prime
/// key cannot fail either. The key parses again, so every PKCS#1 v1.5 /
/// SHA-256 signature under it exists and has `bits / 8` bytes; its public key
/// (at most 4096 bits, `RsaPublicKey::MAX_SIZE`) parses as a public key; both
/// encodings are longer than 100 bytes (the modulus alone takes 128) and the
/// private one is a few kilobytes. Which key comes out is left open.
#[verifier::external_body]
fn random_private_key_pkcs8(bits: usize) -> (r: Option<Vec<u8>>)
    requires
        bits % 8 == 0,
        1024 <= bits <= 4096,
    ensures
        r is Some,
        r matches Some(der) ==> {
            &&& pkcs8_rsa_private_key_parses(der@)
            &&& 100 < der@.len() <= 0x0100_0000
            &&& spki_rsa_public_key_parses(rsa_public_key_der(der@))
            &&& rsa_public_key_der(der@).len() > 100
            &&& forall|msg: Seq<u8>| #[trigger]
                rsa_pkcs1v15_sha256_signature(der@, msg) matches Some(sig) && sig.len() == bits
                    / 8
        },
{
    let mut rng = OsRng;
    match RsaPrivateKey::new(&mut rng, bits) {
        Ok(key) => match key.to_pkcs8_der() {
            Ok(doc) => Some(doc.as_bytes().to_vec()),
            Err(_) => None,
        },
        Err(_) => None,
    }
}

/// An RSA private key together with the PKCS#8 DER bytes it was parsed from.
/// The key is only ever built by parsing `der`.
pub struct RsaSigningKey {
    der: Vec<u8>,
    key: RsaPrivateKey,
}

impl View for RsaSigningKey {
    type V = Seq<u8>;

    closed spec fn view(&self) -> Seq<u8> {
        self.der@
    }
}

impl RsaSigningKey {
    /// Parses a PKCS#8 DER private key.
    pub fn from_pkcs8_der(der: &[u8]) -> (r: Option<RsaSigningKey>)
        ensures
            r is Some == pkcs8_rsa_private_key_parses(der@),
            r matches Some(k) ==> k@ == der@,
    {
        match decode_pkcs8_private_key(der) {
            Some(key) => Some(RsaSigningKey { der: vstd::slice::slice_to_vec(der), key }),
            None => None,
        }
    }

    /// Signs `msg` with `SigningKey::<Sha256>::try_sign` (RSASSA-PKCS1-v1_5,
    /// which hashes `msg` with SHA-256 itself).
    /// Trusted: the result is the named signature of `msg` under this key.
    #[verifier::external_body]
    pub(crate) fn sign(&self, msg: &[u8]) -> (r: Option<Vec<u8>>)
        ensures
            r is Some == rsa_pkcs1v15_sha256_signature(self@, msg@) is Some,
            r matches Some(sig) ==> rsa_pkcs1v15_sha256_signature(self@, msg@) == Some(sig@),
    {
        match SigningKey::<Sha256>::new(self.key.clone()).try_sign(msg) {
            Ok(sig) => Some(sig.to_vec()),
            Err(_) => None,
        }
    }

    /// Encodes the public half with `EncodePublicKey::to_public_key_der`.
    /// Trusted: the result is the named public key of this private key; where
    /// it parses as a public key (moduli of at most 4096 bits), it accepts
    /// every signature that this private key makes (PKCS#1 v1.5 verification
    /// of a PKCS#1 v1.5 signature by the matching key). The encoding fails only
    /// where a DER length would pass 256 MiB (`der::Length::MAX`), which the
    /// modulus and exponent of a key parsed from at most 16 MiB of DER cannot
    /// reach. Whether the result parses is not claimed.
    #[verifier::external_body]
    pub(crate) fn public_key_der(&self) -> (r: Option<Vec<u8>>)
        ensures
            self@.len() <= 0x0100_0000 ==> r is Some,
            r matches Some(p) ==> {
                &&& p@ == rsa_public_key_der(self@)
                &&& spki_rsa_public_key_parses(p@) ==> forall|msg: Seq<u8>|
                    #[trigger] rsa_pkcs1v15_sha256_signature(self@, msg) matches Some(sig)
                        ==> rsa_pkcs1v15_sha256_verifies(p@, msg, sig)
            },
    {
        match self.key.to_public_key().to_public_key_der() {
            Ok(doc) => Some(doc.as_bytes().to_vec()),
            Err(_) => None,
        }
    }
}

/// An RSA public key together with the DER SubjectPublicKeyInfo bytes it was
/// parsed from. The key is only ever built by parsing `der`.
pub struct RsaVerifyingKey {
    der: Vec<u8>,
    key: RsaPublicKey,
}

impl View for RsaVerifyingKey {
    type V = Seq<u8>;

    closed spec fn view(&self) -> Seq<u8> {
        self.der@
    }
}

impl RsaVerifyingKey {
    /// Parses a DER SubjectPublicKeyInfo public key.
    pub fn from_public_key_der(der: &[u8]) -> (r: Option<RsaVerifyingKey>)
        ensures
            r is Some == spki_rsa_public_key_parses(der@),
            r matches Some(k) ==> k@ == der@,
    {
        match decode_spki_public_key(der) {
            Some(key) => Some(RsaVerifyingKey { der: vstd::slice::slice_to_vec(der), key }),
            None => None,
        }
    }

    /// Checks `sig` with `VerifyingKey::<Sha256>::verify` after
    /// `Signature::try_from` (which accepts every byte string).
    /// Trusted: the answer is the named verification predicate.
    #[verifier::external_body]
    pub(crate) fn verify(&self, msg: &[u8], sig: &[u8]) -> (r: bool)
        ensures
            r == rsa_pkcs1v15_sha256_verifies(self@, msg@, sig@),
    {
        match Signature::try_from(sig) {
            Ok(signature) => VerifyingKey::<Sha256>::new(self.key.clone()).verify(
                msg,
                &signature,
            ).is_ok(),
            Err(_) => false,
        }
    }
}

/// Generates a fresh key pair of `bits` bits: the PKCS#8 DER private key and
/// the DER SubjectPublicKeyInfo public key.
pub(crate) fn new_key_pair(bits: usize) -> (r: Option<(Vec<u8>, Vec<u8>)>)
    requires
        bits % 8 == 0,
        1024 <= bits <= 4096,
    ensures
        r is Some,
        r matches Some((private_der, public_der)) ==> is_key_pair(
            private_der@,
            public_der@,
            (bits / 8) as nat,
        ) && private_der@.len() > 100 && public_der@.len() > 100,
{
    match random_private_key_pkcs8(bits) {
        Some(private_der) => key_pair_from_private_key(private_der),
        None => None,
    }
}

/// The key pair of a PKCS#8 DER private key: the key itself and its DER
/// SubjectPublicKeyInfo public key, which must parse again. It is built for
/// every private key of at most 16 MiB that parses and whose public key
/// parses, and for no other.
pub(crate) fn key_pair_from_private_key(private_der: Vec<u8>) -> (r: Option<(Vec<u8>, Vec<u8>)>)
    ensures
        pkcs8_rsa_private_key_parses(private_der@) && private_der@.len() <= 0x0100_0000
            && spki_rsa_public_key_parses(rsa_public_key_der(private_der@)) ==> r is Some,
        !pkcs8_rsa_private_key_parses(private_der@) ==> r is None,
        !spki_rsa_public_key_parses(rsa_public_key_der(private_der@)) ==> r is None,
        r matches Some((p, q)) ==> {
            &&& p@ == private_der@
            &&& q@ == rsa_public_key_der(private_der@)
            &&& spki_rsa_public_key_parses(q@)
            &&& forall|msg: Seq<u8>|
                #[trigger] rsa_pkcs1v15_sha256_signature(private_der@, msg) matches Some(sig)
                    ==> rsa_pkcs1v15_sha256_verifies(q@, msg, sig)
        },
{
    let signer = match RsaSigningKey::from_pkcs8_der(private_der.as_slice()) {
        Some(k) => k,
        None => return None,
    };
    let public_der = match signer.public_key_der() {
        Some(p) => p,
        None => return None,
    };
    if RsaVerifyingKey::from_public_key_der(public_der.as_slice()).is_none() {
        return None;
    }
    Some((private_der, public_der))
}

} // verus!
