//! Generating RSA key pairs for signing.
use vstd::prelude::*;

use crate::crypto::{is_key_pair, new_key_pair};
use crate::error::JarError;

verus! {

/// Generates a 2048-bit RSA key pair: the private key in PKCS#8 DER form and
/// the public key in DER SubjectPublicKeyInfo form. Every signature made
/// with the private key is 256 bytes long and accepted by the public key.
/// Which key is generated depends on the operating system's random source.
pub fn generate_key_pair() -> (r: Result<(Vec<u8>, Vec<u8>), JarError>)
    ensures
        r is Ok,
        r matches Ok((private_key, public_key)) ==> is_key_pair(private_key@, public_key@, 256)
            && private_key@.len() > 100 && public_key@.len() > 100,
{
    match new_key_pair(2048) {
        Some(pair) => Ok(pair),
        None => Err(JarError::KeyGenerationFailed),
    }
}

/// Generates signing credentials: the key pair of `generate_key_pair`.
pub fn generate_signing_credentials() -> (r: Result<(Vec<u8>, Vec<u8>), JarError>)
    ensures
        r is Ok,
        r matches Ok((private_key, public_key)) ==> is_key_pair(private_key@, public_key@, 256)
            && private_key@.len() > 100 && public_key@.len() > 100,
{
    generate_key_pair()
}

} // verus!
