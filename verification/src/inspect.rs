//! Inspecting JARs: whether they are signed, their signature block, and the
//! check of their signature against a public key.
use vstd::prelude::*;

use crate::archive::{
    archive_len, entry_content, entry_header, open_archive, zip_archive_opens, zip_archive_source,
    zip_entry_content, zip_entry_count, zip_entry_name, zip_entry_opens,
};
use crate::crypto::{
    rsa_pkcs1v15_sha256_verifies, sha256, sha256_digest, spki_rsa_public_key_parses,
    RsaVerifyingKey,
};
use crate::error::JarError;
use crate::names::{
    is_signature, is_signature_block, is_signature_block_name, is_signature_file,
    is_signature_file_name, is_signature_name,
};

verus! {

/// Scanning the first `n` entries for a signature file or block: `Ok(true)`
/// once one is found, `Ok(false)` while none is, or the error met first.
pub open spec fn signed_scan(jar: Seq<u8>, n: nat) -> Result<bool, JarError>
    decreases n,
{
    if n == 0 {
        Ok(false)
    } else {
        let i = n - 1;
        match signed_scan(jar, i as nat) {
            Ok(false) => if !zip_entry_opens(jar, i) {
                Err(JarError::EntryUnavailable(i as usize))
            } else {
                Ok(is_signature_name(zip_entry_name(jar, i)))
            },
            other => other,
        }
    }
}

/// What `is_signed` answers for `jar`.
pub open spec fn is_signed_result(jar: Seq<u8>) -> Result<bool, JarError> {
    if !zip_archive_opens(jar) {
        Err(JarError::InvalidArchive)
    } else {
        signed_scan(jar, zip_entry_count(jar))
    }
}

/// Scanning the first `n` entries for the first signature file or block:
/// `Ok(Some(content))` once one is found and read, `Ok(None)` while none is,
/// or the error met first.
pub open spec fn signature_scan(jar: Seq<u8>, n: nat) -> Result<Option<Seq<u8>>, JarError>
    decreases n,
{
    if n == 0 {
        Ok(None)
    } else {
        let i = n - 1;
        match signature_scan(jar, i as nat) {
            Ok(None) => if !zip_entry_opens(jar, i) {
                Err(JarError::EntryUnavailable(i as usize))
            } else if is_signature_name(zip_entry_name(jar, i)) {
                match zip_entry_content(jar, i) {
                    None => Err(JarError::EntryReadFailed(i as usize)),
                    Some(c) => Ok(Some(c)),
                }
            } else {
                Ok(None)
            },
            other => other,
        }
    }
}

/// What `extract_signature_bytes` answers for `jar`.
pub open spec fn signature_bytes_result(jar: Seq<u8>) -> Result<Option<Seq<u8>>, JarError> {
    if !zip_archive_opens(jar) {
        Err(JarError::InvalidArchive)
    } else {
        signature_scan(jar, zip_entry_count(jar))
    }
}

/// Scanning the first `n` entries for the contents of the last signature
/// file and of the last signature block, or the error met first.
pub open spec fn signature_material_scan(jar: Seq<u8>, n: nat) -> Result<
    (Option<Seq<u8>>, Option<Seq<u8>>),
    JarError,
>
    decreases n,
{
    if n == 0 {
        Ok((None, None))
    } else {
        let i = n - 1;
        match signature_material_scan(jar, i as nat) {
            Err(e) => Err(e),
            Ok((sf, block)) => if !zip_entry_opens(jar, i) {
                Err(JarError::EntryUnavailable(i as usize))
            } else if is_signature_file_name(zip_entry_name(jar, i)) {
                match zip_entry_content(jar, i) {
                    None => Err(JarError::EntryReadFailed(i as usize)),
                    Some(c) => Ok((Some(c), block)),
                }
            } else if is_signature_block_name(zip_entry_name(jar, i)) {
                match zip_entry_content(jar, i) {
                    None => Err(JarError::EntryReadFailed(i as usize)),
                    Some(c) => Ok((sf, Some(c))),
                }
            } else {
                Ok((sf, block))
            },
        }
    }
}

/// The check of a signature file and block against a public key: a block
/// too short to hold a 256-byte signature is not a valid signature; otherwise
/// its first 256 bytes must be the RSA signature of the SHA-256 digest of the
/// signature file.
pub open spec fn signature_check(sf: Seq<u8>, block: Seq<u8>, public_key: Seq<u8>) -> Result<
    bool,
    JarError,
> {
    if !spki_rsa_public_key_parses(public_key) {
        Err(JarError::InvalidPublicKey)
    } else if block.len() < 256 {
        Ok(false)
    } else {
        Ok(rsa_pkcs1v15_sha256_verifies(public_key, sha256_digest(sf), block.subrange(0, 256)))
    }
}

/// What `verify` answers for `jar` and `public_key`.
pub open spec fn verify_result(jar: Seq<u8>, public_key: Seq<u8>) -> Result<bool, JarError> {
    if !zip_archive_opens(jar) {
        Err(JarError::InvalidArchive)
    } else {
        match signature_material_scan(jar, zip_entry_count(jar)) {
            Err(e) => Err(e),
            Ok((None, _)) => Err(JarError::MissingSignatureFile),
            Ok((Some(_), None)) => Err(JarError::MissingSignatureBlock),
            Ok((Some(sf), Some(block))) => signature_check(sf, block, public_key),
        }
    }
}

/// Scanning the first `n` entries as `extract_public_key` does: `Ok(true)`
/// once a signature block of more than 100 bytes ends the scan, `Ok(false)`
/// while none has, or the error met first.
pub open spec fn public_key_scan(jar: Seq<u8>, n: nat) -> Result<bool, JarError>
    decreases n,
{
    if n == 0 {
        Ok(false)
    } else {
        let i = n - 1;
        match public_key_scan(jar, i as nat) {
            Ok(false) => if !zip_entry_opens(jar, i) {
                Err(JarError::EntryUnavailable(i as usize))
            } else if is_signature_block_name(zip_entry_name(jar, i)) {
                match zip_entry_content(jar, i) {
                    None => Err(JarError::EntryReadFailed(i as usize)),
                    Some(c) => Ok(c.len() > 100),
                }
            } else {
                Ok(false)
            },
            other => other,
        }
    }
}

/// What `extract_public_key` answers for `jar`: no key is ever extracted,
/// but the archive is read as far as the scan goes.
pub open spec fn public_key_result(jar: Seq<u8>) -> Result<Option<Seq<u8>>, JarError> {
    if !zip_archive_opens(jar) {
        Err(JarError::InvalidArchive)
    } else {
        match public_key_scan(jar, zip_entry_count(jar)) {
            Err(e) => Err(e),
            Ok(_) => Ok(None),
        }
    }
}

proof fn lemma_signed_scan_settled(jar: Seq<u8>, k: nat, m: nat)
    requires
        k <= m,
        signed_scan(jar, k) != Ok::<bool, JarError>(false),
    ensures
        signed_scan(jar, m) == signed_scan(jar, k),
    decreases m - k,
{
    if k < m {
        lemma_signed_scan_settled(jar, k, (m - 1) as nat);
    }
}

proof fn lemma_signature_scan_settled(jar: Seq<u8>, k: nat, m: nat)
    requires
        k <= m,
        signature_scan(jar, k) != Ok::<Option<Seq<u8>>, JarError>(None),
    ensures
        signature_scan(jar, m) == signature_scan(jar, k),
    decreases m - k,
{
    if k < m {
        lemma_signature_scan_settled(jar, k, (m - 1) as nat);
    }
}

proof fn lemma_material_scan_settled(jar: Seq<u8>, k: nat, m: nat)
    requires
        k <= m,
        signature_material_scan(jar, k) is Err,
    ensures
        signature_material_scan(jar, m) == signature_material_scan(jar, k),
    decreases m - k,
{
    if k < m {
        lemma_material_scan_settled(jar, k, (m - 1) as nat);
    }
}

proof fn lemma_public_key_scan_settled(jar: Seq<u8>, k: nat, m: nat)
    requires
        k <= m,
        public_key_scan(jar, k) != Ok::<bool, JarError>(false),
    ensures
        public_key_scan(jar, m) == public_key_scan(jar, k),
    decreases m - k,
{
    if k < m {
        lemma_public_key_scan_settled(jar, k, (m - 1) as nat);
    }
}

/// Whether the JAR holds a signature file or block (`META-INF/*.SF`,
/// `META-INF/*.RSA` or `META-INF/*.DSA`).
pub fn is_signed(jar_bytes: &[u8]) -> (r: Result<bool, JarError>)
    ensures
        r == is_signed_result(jar_bytes@),
{
    let mut archive = match open_archive(vstd::slice::slice_to_vec(jar_bytes)) {
        Some(a) => a,
        None => return Err(JarError::InvalidArchive),
    };
    let ghost jar = jar_bytes@;
    let n = archive_len(&archive);
    let mut i: usize = 0;
    while i < n
        invariant
            i <= n,
            n == zip_entry_count(jar),
            zip_archive_opens(jar),
            jar == jar_bytes@,
            zip_archive_source(archive) == jar,
            signed_scan(jar, i as nat) == Ok::<bool, JarError>(false),
        decreases n - i,
    {
        let header = match entry_header(&mut archive, i) {
            Some(h) => h,
            None => {
                proof {
                    lemma_signed_scan_settled(jar, (i + 1) as nat, n as nat);
                }
                return Err(JarError::EntryUnavailable(i));
            },
        };
        if is_signature(header.name.as_str()) {
            proof {
                lemma_signed_scan_settled(jar, (i + 1) as nat, n as nat);
            }
            return Ok(true);
        }
        i = i + 1;
    }
    Ok(false)
}

/// The content of the first signature file or block of the JAR, if any.
pub fn extract_signature_bytes(signed_jar_bytes: &[u8]) -> (r: Result<Option<Vec<u8>>, JarError>)
    ensures
        match r {
            Ok(Some(v)) => signature_bytes_result(signed_jar_bytes@) == Ok::<
                Option<Seq<u8>>,
                JarError,
            >(Some(v@)),
            Ok(None) => signature_bytes_result(signed_jar_bytes@) == Ok::<
                Option<Seq<u8>>,
                JarError,
            >(None),
            Err(e) => signature_bytes_result(signed_jar_bytes@) == Err::<
                Option<Seq<u8>>,
                JarError,
            >(e),
        },
{
    let mut archive = match open_archive(vstd::slice::slice_to_vec(signed_jar_bytes)) {
        Some(a) => a,
        None => return Err(JarError::InvalidArchive),
    };
    let ghost jar = signed_jar_bytes@;
    let n = archive_len(&archive);
    let mut i: usize = 0;
    while i < n
        invariant
            i <= n,
            n == zip_entry_count(jar),
            zip_archive_opens(jar),
            jar == signed_jar_bytes@,
            zip_archive_source(archive) == jar,
            signature_scan(jar, i as nat) == Ok::<Option<Seq<u8>>, JarError>(None),
        decreases n - i,
    {
        let header = match entry_header(&mut archive, i) {
            Some(h) => h,
            None => {
                proof {
                    lemma_signature_scan_settled(jar, (i + 1) as nat, n as nat);
                }
                return Err(JarError::EntryUnavailable(i));
            },
        };
        if is_signature(header.name.as_str()) {
            proof {
                lemma_signature_scan_settled(jar, (i + 1) as nat, n as nat);
            }
            return match entry_content(&mut archive, i) {
                Some(c) => Ok(Some(c)),
                None => Err(JarError::EntryReadFailed(i)),
            };
        }
        i = i + 1;
    }
    Ok(None)
}

/// Checks the JAR's signature against an RSA public key in DER
/// SubjectPublicKeyInfo form.
///
/// The last `META-INF/*.SF` file and the last `META-INF/*.RSA` or
/// `META-INF/*.DSA` block are used. The answer is `true` when the block's
/// first 256 bytes are the RSA PKCS#1 v1.5 signature of the SHA-256 digest of
/// the signature file, and `false` otherwise, a block shorter than 256 bytes
/// included.
pub fn verify(jar_bytes: &[u8], public_key_bytes: &[u8]) -> (r: Result<bool, JarError>)
    ensures
        r == verify_result(jar_bytes@, public_key_bytes@),
{
    let mut archive = match open_archive(vstd::slice::slice_to_vec(jar_bytes)) {
        Some(a) => a,
        None => return Err(JarError::InvalidArchive),
    };
    let ghost jar = jar_bytes@;
    let n = archive_len(&archive);
    let mut sf_content: Option<Vec<u8>> = None;
    let mut block_content: Option<Vec<u8>> = None;
    let mut i: usize = 0;
    while i < n
        invariant
            i <= n,
            n == zip_entry_count(jar),
            zip_archive_opens(jar),
            jar == jar_bytes@,
            zip_archive_source(archive) == jar,
            signature_material_scan(jar, i as nat) matches Ok((sf, block)) && (match sf_content {
                Some(v) => sf == Some(v@),
                None => sf is None,
            }) && (match block_content {
                Some(v) => block == Some(v@),
                None => block is None,
            }),
        decreases n - i,
    {
        let header = match entry_header(&mut archive, i) {
            Some(h) => h,
            None => {
                proof {
                    lemma_material_scan_settled(jar, (i + 1) as nat, n as nat);
                }
                return Err(JarError::EntryUnavailable(i));
            },
        };
        if is_signature_file(header.name.as_str()) {
            match entry_content(&mut archive, i) {
                Some(c) => {
                    sf_content = Some(c);
                },
                None => {
                    proof {
                        lemma_material_scan_settled(jar, (i + 1) as nat, n as nat);
                    }
                    return Err(JarError::EntryReadFailed(i));
                },
            }
        } else if is_signature_block(header.name.as_str()) {
            match entry_content(&mut archive, i) {
                Some(c) => {
                    block_content = Some(c);
                },
                None => {
                    proof {
                        lemma_material_scan_settled(jar, (i + 1) as nat, n as nat);
                    }
                    return Err(JarError::EntryReadFailed(i));
                },
            }
        }
        i = i + 1;
    }
    let sf_bytes = match sf_content {
        Some(v) => v,
        None => return Err(JarError::MissingSignatureFile),
    };
    let block_bytes = match block_content {
        Some(v) => v,
        None => return Err(JarError::MissingSignatureBlock),
    };
    check_signature(sf_bytes.as_slice(), block_bytes.as_slice(), public_key_bytes)
}

/// Checks a signature file and signature block against a public key: the
/// answer is whether the block's first 256 bytes are the RSA PKCS#1 v1.5
/// signature of the SHA-256 digest of the signature file, and `false` for a
/// block shorter than that.
pub fn check_signature(sf: &[u8], block: &[u8], public_key_bytes: &[u8]) -> (r: Result<
    bool,
    JarError,
>)
    ensures
        r == signature_check(sf@, block@, public_key_bytes@),
{
    let key = match RsaVerifyingKey::from_public_key_der(public_key_bytes) {
        Some(k) => k,
        None => return Err(JarError::InvalidPublicKey),
    };
    if block.len() < 256 {
        return Ok(false);
    }
    let digest = sha256(sf);
    let signature = vstd::slice::slice_subrange(block, 0, 256);
    Ok(key.verify(digest.as_slice(), signature))
}

/// Looks for the public key in the JAR's signature block. Extracting it is
/// not supported: the answer is `Ok(None)` unless reading the archive fails.
pub fn extract_public_key(jar_bytes: &[u8]) -> (r: Result<Option<Vec<u8>>, JarError>)
    ensures
        match r {
            Ok(Some(_)) => false,
            Ok(None) => public_key_result(jar_bytes@) == Ok::<Option<Seq<u8>>, JarError>(None),
            Err(e) => public_key_result(jar_bytes@) == Err::<Option<Seq<u8>>, JarError>(e),
        },
{
    let mut archive = match open_archive(vstd::slice::slice_to_vec(jar_bytes)) {
        Some(a) => a,
        None => return Err(JarError::InvalidArchive),
    };
    let ghost jar = jar_bytes@;
    let n = archive_len(&archive);
    let mut i: usize = 0;
    while i < n
        invariant
            i <= n,
            n == zip_entry_count(jar),
            zip_archive_opens(jar),
            jar == jar_bytes@,
            zip_archive_source(archive) == jar,
            public_key_scan(jar, i as nat) == Ok::<bool, JarError>(false),
        decreases n - i,
    {
        let header = match entry_header(&mut archive, i) {
            Some(h) => h,
            None => {
                proof {
                    lemma_public_key_scan_settled(jar, (i + 1) as nat, n as nat);
                }
                return Err(JarError::EntryUnavailable(i));
            },
        };
        if is_signature_block(header.name.as_str()) {
            let content = match entry_content(&mut archive, i) {
                Some(c) => c,
                None => {
                    proof {
                        lemma_public_key_scan_settled(jar, (i + 1) as nat, n as nat);
                    }
                    return Err(JarError::EntryReadFailed(i));
                },
            };
            if content.len() > 100 {
                proof {
                    lemma_public_key_scan_settled(jar, (i + 1) as nat, n as nat);
                }
                return Ok(None);
            }
        }
        i = i + 1;
    }
    Ok(None)
}

} // verus!
