//! Signing and inspection of JAR archives.
//!
//! A JAR is signed by listing the SHA-256 digest of every file outside
//! `META-INF/` in `META-INF/MANIFEST.MF`, describing the manifest in the
//! signature file `META-INF/SIGNATURE.SF`, and storing the RSA PKCS#1 v1.5
//! signature of that file in `META-INF/SIGNATURE.RSA`.
pub mod archive;
pub mod crypto;
pub mod error;
pub mod inspect;
pub mod keys;
pub mod laws;
pub mod manifest;
pub mod names;
pub mod signing;
pub mod text;

pub use error::JarError;
pub use inspect::{check_signature, extract_public_key, extract_signature_bytes, is_signed, verify};
pub use keys::{generate_key_pair, generate_signing_credentials};
pub use signing::{sign_bytes, sign_bytes_with_cert_chain};
