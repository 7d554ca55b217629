//! The errors of the library. An index names the archive entry concerned.
use vstd::prelude::*;

verus! {

#[derive(Debug, Clone, Copy, PartialEq, Eq, Structural)]
pub enum JarError {
    /// The private key is not an RSA key in PKCS#8 DER form.
    InvalidKey,
    /// The bytes are not a ZIP archive.
    InvalidArchive,
    /// The archive entry cannot be opened.
    EntryUnavailable(usize),
    /// The archive entry's content cannot be read.
    EntryReadFailed(usize),
    /// The RSA signing operation failed.
    SigningFailed,
    /// The copy of the archive entry cannot be started in the signed archive.
    EntryStartFailed(usize),
    /// The archive entry cannot be copied into the signed archive.
    EntryCopyFailed(usize),
    /// The `META-INF/` directory entry cannot be created.
    MetaInfDirFailed,
    /// `META-INF/MANIFEST.MF` cannot be created.
    ManifestStartFailed,
    /// `META-INF/MANIFEST.MF` cannot be written.
    ManifestWriteFailed,
    /// `META-INF/SIGNATURE.SF` cannot be created.
    SignatureFileStartFailed,
    /// `META-INF/SIGNATURE.SF` cannot be written.
    SignatureFileWriteFailed,
    /// `META-INF/SIGNATURE.RSA` cannot be created.
    SignatureBlockStartFailed,
    /// `META-INF/SIGNATURE.RSA` cannot be written.
    SignatureBlockWriteFailed,
    /// The signed archive cannot be finished.
    FinishFailed,
    /// The archive holds no `META-INF/*.SF` file.
    MissingSignatureFile,
    /// The archive holds no `META-INF/*.RSA` or `META-INF/*.DSA` file.
    MissingSignatureBlock,
    /// The public key is not an RSA key in DER SubjectPublicKeyInfo form.
    InvalidPublicKey,
    /// A key pair could not be generated or encoded.
    KeyGenerationFailed,
}

} // verus!
