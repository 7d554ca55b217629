//! Signing a JAR: digests of its files, the manifest and signature file,
//! the RSA signature block, and the signed archive that holds them.
use vstd::prelude::*;
use vstd::utf8::encode_utf8;

use crate::archive::{
    archive_fully_readable, archive_len, archive_listing, entries_size, entry_content,
    entry_header, entry_names, entry_names_distinct, jar_writer_entries, open_archive,
    writer_capacity, writer_finish, writer_new, writer_start_entry, writer_write,
    zip_archive_opens, zip_archive_source, zip_entry_compression, zip_entry_content,
    zip_entry_count, zip_entry_name, zip_entry_opens, JarWriter,
};
use crate::crypto::{
    base64_encode, base64_standard, pkcs8_rsa_private_key_parses, rsa_pkcs1v15_sha256_signature,
    sha256, sha256_digest, RsaSigningKey,
};
use crate::error::JarError;
use crate::manifest::{
    digests_view, manifest_for, manifest_text, signature_file_for, signature_file_text, FileDigest,
};
use crate::names::{is_meta_inf, is_meta_inf_name, is_replaced, is_replaced_on_override};
use crate::text::str_equals;

verus! {

/// An entry of an archive: its name and its content.
pub type EntrySpec = (Seq<char>, Seq<u8>);

/// The digests of the files outside `META-INF/` among the first `n` entries
/// of `jar`, in archive order, or the error met first while computing them.
pub open spec fn file_digests_upto(jar: Seq<u8>, n: nat) -> Result<
    Seq<(Seq<char>, Seq<char>)>,
    JarError,
>
    decreases n,
{
    if n == 0 {
        Ok(Seq::empty())
    } else {
        let i = n - 1;
        match file_digests_upto(jar, i as nat) {
            Err(e) => Err(e),
            Ok(d) => if !zip_entry_opens(jar, i) {
                Err(JarError::EntryUnavailable(i as usize))
            } else if is_meta_inf_name(zip_entry_name(jar, i)) {
                Ok(d)
            } else {
                match zip_entry_content(jar, i) {
                    None => Err(JarError::EntryReadFailed(i as usize)),
                    Some(c) => Ok(
                        d.push((zip_entry_name(jar, i), base64_standard(sha256_digest(c)))),
                    ),
                }
            },
        }
    }
}

/// The digests of all files of `jar` outside `META-INF/`.
pub open spec fn file_digests(jar: Seq<u8>) -> Result<Seq<(Seq<char>, Seq<char>)>, JarError> {
    file_digests_upto(jar, zip_entry_count(jar))
}

/// The bytes of the manifest, of the signature file and of the signature
/// block that signing `jar` with `key` produces, or the error met first.
pub open spec fn signature_files(jar: Seq<u8>, key: Seq<u8>) -> Result<
    (Seq<u8>, Seq<u8>, Seq<u8>),
    JarError,
> {
    if !pkcs8_rsa_private_key_parses(key) {
        Err(JarError::InvalidKey)
    } else if !zip_archive_opens(jar) {
        Err(JarError::InvalidArchive)
    } else {
        match file_digests(jar) {
            Err(e) => Err(e),
            Ok(d) => {
                let manifest = encode_utf8(manifest_text(d));
                let sf = encode_utf8(signature_file_text(manifest, d));
                match rsa_pkcs1v15_sha256_signature(key, sha256_digest(sf)) {
                    None => Err(JarError::SigningFailed),
                    Some(sig) => Ok((manifest, sf, sig)),
                }
            },
        }
    }
}

/// Whether signing keeps an entry of this name: everything unless
/// `override_signature` asks to drop earlier signature files.
pub open spec fn keeps_entry(name: Seq<char>, override_signature: bool) -> bool {
    !(override_signature && is_replaced_on_override(name))
}

/// The entries among the first `n` of `jar` that signing copies, with their
/// contents, or the copy error met first.
pub open spec fn kept_entries_upto(jar: Seq<u8>, override_signature: bool, n: nat) -> Result<
    Seq<EntrySpec>,
    JarError,
>
    decreases n,
{
    if n == 0 {
        Ok(Seq::empty())
    } else {
        let i = n - 1;
        match kept_entries_upto(jar, override_signature, i as nat) {
            Err(e) => Err(e),
            Ok(k) => if !keeps_entry(zip_entry_name(jar, i), override_signature) {
                Ok(k)
            } else {
                match zip_entry_content(jar, i) {
                    None => Err(JarError::EntryCopyFailed(i as usize)),
                    Some(c) => Ok(k.push((zip_entry_name(jar, i), c))),
                }
            },
        }
    }
}

/// The entries of `jar` that signing copies.
pub open spec fn kept_entries(jar: Seq<u8>, override_signature: bool) -> Result<
    Seq<EntrySpec>,
    JarError,
> {
    kept_entries_upto(jar, override_signature, zip_entry_count(jar))
}

/// Whether `jar` has an entry named `META-INF/`.
pub open spec fn has_meta_inf_dir(jar: Seq<u8>) -> bool {
    exists|i: int| 0 <= i < zip_entry_count(jar) && zip_entry_name(jar, i) == "META-INF/"@
}

/// The `META-INF/` directory entry that signing adds where `jar` lacks one.
pub open spec fn added_dir_entries(jar: Seq<u8>) -> Seq<EntrySpec> {
    if has_meta_inf_dir(jar) {
        Seq::empty()
    } else {
        seq![("META-INF/"@, Seq::<u8>::empty())]
    }
}

/// The three files that signing adds after everything else.
pub open spec fn added_signature_entries(manifest: Seq<u8>, sf: Seq<u8>, sig: Seq<u8>) -> Seq<
    EntrySpec,
> {
    seq![
        ("META-INF/MANIFEST.MF"@, manifest),
        ("META-INF/SIGNATURE.SF"@, sf),
        ("META-INF/SIGNATURE.RSA"@, sig),
    ]
}

/// The entries of the archive that signing `jar` with `key` produces.
pub open spec fn signed_entries(jar: Seq<u8>, key: Seq<u8>, override_signature: bool) -> Result<
    Seq<EntrySpec>,
    JarError,
> {
    match signature_files(jar, key) {
        Err(e) => Err(e),
        Ok((manifest, sf, sig)) => match kept_entries(jar, override_signature) {
            Err(e) => Err(e),
            Ok(k) => Ok(k + added_dir_entries(jar) + added_signature_entries(manifest, sf, sig)),
        },
    }
}

/// An error that can only arise while the signed archive is being written.
pub open spec fn is_writing_error(e: JarError) -> bool {
    match e {
        JarError::EntryStartFailed(_) => true,
        JarError::EntryCopyFailed(_) => true,
        JarError::MetaInfDirFailed => true,
        JarError::ManifestStartFailed => true,
        JarError::ManifestWriteFailed => true,
        JarError::SignatureFileStartFailed => true,
        JarError::SignatureFileWriteFailed => true,
        JarError::SignatureBlockStartFailed => true,
        JarError::SignatureBlockWriteFailed => true,
        JarError::FinishFailed => true,
        _ => false,
    }
}

/// A copied entry takes the name of one of the three files that signing adds.
pub open spec fn kept_name_collides(jar: Seq<u8>, override_signature: bool) -> bool {
    kept_entries(jar, override_signature) matches Ok(k) && {
        ||| entry_names(k).contains("META-INF/MANIFEST.MF"@)
        ||| entry_names(k).contains("META-INF/SIGNATURE.SF"@)
        ||| entry_names(k).contains("META-INF/SIGNATURE.RSA"@)
    }
}

/// Every entry that signing copies uses a compression method that the
/// writer can produce again: `Stored` (0) or `Deflated` (8).
pub open spec fn kept_compressions_writable(jar: Seq<u8>, override_signature: bool) -> bool {
    forall|i: int|
        0 <= i < zip_entry_count(jar) && keeps_entry(zip_entry_name(jar, i), override_signature)
            ==> #[trigger] zip_entry_compression(jar, i) == 0 || zip_entry_compression(jar, i) == 8
}

/// Every name in a list of entries takes at most 65535 bytes.
pub open spec fn names_fit(entries: Seq<EntrySpec>) -> bool {
    forall|j: int| 0 <= j < entries.len() ==> encode_utf8(#[trigger] entries[j].0).len() <= 0xFFFF
}

/// Signing `jar` with `key` computes its entries, and the writer can write
/// them: no copied entry takes the name of an added file, every copied entry
/// is stored or deflated, every name fits in a ZIP header and the archive
/// stays within the writer's capacity.
pub open spec fn signing_can_write(jar: Seq<u8>, key: Seq<u8>, override_signature: bool) -> bool {
    &&& signed_entries(jar, key, override_signature) is Ok
    &&& !kept_name_collides(jar, override_signature)
    &&& kept_compressions_writable(jar, override_signature)
    &&& names_fit(signed_entries(jar, key, override_signature)->Ok_0)
    &&& entries_size(signed_entries(jar, key, override_signature)->Ok_0) <= writer_capacity()
}

proof fn lemma_entries_size_push(es: Seq<EntrySpec>, e: EntrySpec)
    ensures
        entries_size(es.push(e)) == entries_size(es) + encode_utf8(e.0).len() + e.1.len() + 64,
{
    assert(es.push(e).drop_last() =~= es);
}

proof fn lemma_entries_size_prefix(es: Seq<EntrySpec>, m: int)
    requires
        0 <= m <= es.len(),
    ensures
        0 <= entries_size(es.subrange(0, m)) <= entries_size(es),
    decreases es.len(),
{
    if m < es.len() {
        lemma_entries_size_prefix(es.drop_last(), m);
        assert(es.drop_last().subrange(0, m) =~= es.subrange(0, m));
    } else {
        assert(es.subrange(0, m) =~= es);
        if es.len() > 0 {
            lemma_entries_size_prefix(es.drop_last(), m - 1);
            assert(es.drop_last().subrange(0, m - 1) =~= es.drop_last());
        }
    }
}

proof fn lemma_kept_prefix(jar: Seq<u8>, o: bool, i: nat, n: nat)
    requires
        i <= n,
        kept_entries_upto(jar, o, n) is Ok,
    ensures
        kept_entries_upto(jar, o, i) is Ok,
        kept_entries_upto(jar, o, i)->Ok_0.len() <= kept_entries_upto(jar, o, n)->Ok_0.len(),
        kept_entries_upto(jar, o, i)->Ok_0 =~= kept_entries_upto(jar, o, n)->Ok_0.subrange(
            0,
            kept_entries_upto(jar, o, i)->Ok_0.len() as int,
        ),
    decreases n,
{
    if i < n {
        lemma_kept_prefix(jar, o, i, (n - 1) as nat);
        assert(kept_entries_upto(jar, o, (n - 1) as nat) is Ok);
    }
}

proof fn lemma_names_fit_concat(a: Seq<EntrySpec>, b: Seq<EntrySpec>)
    requires
        names_fit(a),
        names_fit(b),
    ensures
        names_fit(a + b),
{
    assert forall|j: int| 0 <= j < (a + b).len() implies encode_utf8(#[trigger] (a + b)[j].0).len()
        <= 0xFFFF by {
        if j < a.len() {
            assert((a + b)[j] == a[j]);
        } else {
            assert((a + b)[j] == b[j - a.len()]);
        }
    }
}

proof fn lemma_names_split(a: Seq<EntrySpec>, b: Seq<EntrySpec>, x: Seq<char>)
    requires
        entry_names(a + b).contains(x),
    ensures
        entry_names(a).contains(x) || entry_names(b).contains(x),
{
    let j = choose|j: int| 0 <= j < entry_names(a + b).len() && entry_names(a + b)[j] == x;
    if j < a.len() {
        assert(entry_names(a)[j] == x);
    } else {
        assert(entry_names(b)[j - a.len()] == x);
    }
}

/// Computes the digests of the files outside `META-INF/`.
fn compute_file_digests(archive: &mut zip::ZipArchive<std::io::Cursor<Vec<u8>>>) -> (r: Result<
    Vec<FileDigest>,
    JarError,
>)
    requires
        zip_archive_opens(zip_archive_source(*old(archive))),
    ensures
        zip_archive_source(*final(archive)) == zip_archive_source(*old(archive)),
        match r {
            Ok(d) => file_digests(zip_archive_source(*old(archive))) == Ok::<
                Seq<(Seq<char>, Seq<char>)>,
                JarError,
            >(digests_view(d@)),
            Err(e) => file_digests(zip_archive_source(*old(archive))) == Err::<
                Seq<(Seq<char>, Seq<char>)>,
                JarError,
            >(e),
        },
{
    let ghost jar = zip_archive_source(*archive);
    let n = archive_len(archive);
    let mut digests: Vec<FileDigest> = Vec::new();
    let mut i: usize = 0;
    assert(digests_view(digests@) =~= Seq::<(Seq<char>, Seq<char>)>::empty());
    while i < n
        invariant
            i <= n,
            n == zip_entry_count(jar),
            jar == zip_archive_source(*old(archive)),
            zip_archive_source(*archive) == jar,
            file_digests_upto(jar, i as nat) == Ok::<Seq<(Seq<char>, Seq<char>)>, JarError>(
                digests_view(digests@),
            ),
        decreases n - i,
    {
        let header = match entry_header(archive, i) {
            Some(h) => h,
            None => {
                proof {
                    lemma_digest_error_persists(jar, (i + 1) as nat, n as nat);
                }
                return Err(JarError::EntryUnavailable(i));
            },
        };
        if !is_meta_inf(header.name.as_str()) {
            let content = match entry_content(archive, i) {
                Some(c) => c,
                None => {
                    proof {
                        lemma_digest_error_persists(jar, (i + 1) as nat, n as nat);
                    }
                    return Err(JarError::EntryReadFailed(i));
                },
            };
            let hash = sha256(content.as_slice());
            let digest = base64_encode(hash.as_slice());
            let ghost before = digests@;
            digests.push(FileDigest { name: header.name, digest });
            assert(digests_view(digests@) =~= digests_view(before).push(
                (zip_entry_name(jar, i as int), base64_standard(sha256_digest(content@))),
            ));
        }
        i = i + 1;
    }
    Ok(digests)
}

proof fn lemma_digest_error_persists(jar: Seq<u8>, k: nat, m: nat)
    requires
        k <= m,
        file_digests_upto(jar, k) is Err,
    ensures
        file_digests_upto(jar, m) == file_digests_upto(jar, k),
    decreases m - k,
{
    if k < m {
        lemma_digest_error_persists(jar, k, (m - 1) as nat);
    }
}

/// Whether the archive has an entry named `META-INF/`.
fn find_meta_inf_dir(archive: &mut zip::ZipArchive<std::io::Cursor<Vec<u8>>>) -> (r: Result<
    bool,
    JarError,
>)
    requires
        forall|i: int|
            0 <= i < zip_entry_count(zip_archive_source(*old(archive))) ==> #[trigger] zip_entry_opens(
                zip_archive_source(*old(archive)),
                i,
            ),
    ensures
        zip_archive_source(*final(archive)) == zip_archive_source(*old(archive)),
        r == Ok::<bool, JarError>(has_meta_inf_dir(zip_archive_source(*old(archive)))),
{
    let ghost jar = zip_archive_source(*archive);
    let n = archive_len(archive);
    let mut i: usize = 0;
    while i < n
        invariant
            i <= n,
            n == zip_entry_count(jar),
            jar == zip_archive_source(*old(archive)),
            zip_archive_source(*archive) == jar,
            forall|j: int| 0 <= j < n ==> #[trigger] zip_entry_opens(jar, j),
            forall|j: int| 0 <= j < i ==> zip_entry_name(jar, j) != "META-INF/"@,
        decreases n - i,
    {
        let header = match entry_header(archive, i) {
            Some(h) => h,
            None => {
                assert(zip_entry_opens(jar, i as int));
                return Err(JarError::EntryUnavailable(i));
            },
        };
        if str_equals(header.name.as_str(), "META-INF/") {
            return Ok(true);
        }
        i = i + 1;
    }
    Ok(false)
}

proof fn lemma_digests_open_all(jar: Seq<u8>, n: nat)
    requires
        file_digests_upto(jar, n) is Ok,
    ensures
        forall|i: int| 0 <= i < n ==> #[trigger] zip_entry_opens(jar, i),
    decreases n,
{
    if n > 0 {
        lemma_digests_open_all(jar, (n - 1) as nat);
    }
}

/// The writer can take all entries that signing copies from `jar`: they
/// exist, their names are distinct, fit in a ZIP header and are stored or
/// deflated, and they stay within the writer's capacity.
pub open spec fn kept_entries_writable(jar: Seq<u8>, override_signature: bool) -> bool {
    &&& kept_entries(jar, override_signature) is Ok
    &&& entry_names_distinct(jar)
    &&& kept_compressions_writable(jar, override_signature)
    &&& names_fit(kept_entries(jar, override_signature)->Ok_0)
    &&& entries_size(kept_entries(jar, override_signature)->Ok_0) <= writer_capacity()
}

/// Copies the kept entries into the writer, reporting progress.
fn copy_kept_entries<F: FnMut(String, bool)>(
    archive: &mut zip::ZipArchive<std::io::Cursor<Vec<u8>>>,
    writer: &mut JarWriter,
    override_signature: bool,
    progress: &mut F,
) -> (r: Result<(), JarError>)
    requires
        jar_writer_entries(*old(writer)) == Seq::<EntrySpec>::empty(),
        forall|n: String, d: bool| call_requires(*old(progress), (n, d)),
        forall|i: int|
            0 <= i < zip_entry_count(zip_archive_source(*old(archive))) ==> #[trigger] zip_entry_opens(
                zip_archive_source(*old(archive)),
                i,
            ),
    ensures
        zip_archive_source(*final(archive)) == zip_archive_source(*old(archive)),
        r matches Err(e) ==> is_writing_error(e),
        r is Ok ==> kept_entries(zip_archive_source(*old(archive)), override_signature) == Ok::<
            Seq<EntrySpec>,
            JarError,
        >(jar_writer_entries(*final(writer))),
        r is Ok ==> forall|m: int|
            0 <= m < jar_writer_entries(*final(writer)).len() ==> exists|j: int|
                0 <= j < zip_entry_count(zip_archive_source(*old(archive)))
                    && #[trigger] zip_entry_name(zip_archive_source(*old(archive)), j)
                    == (#[trigger] jar_writer_entries(*final(writer))[m]).0,
        kept_entries(zip_archive_source(*old(archive)), override_signature) is Err ==> r is Err,
        kept_entries_writable(zip_archive_source(*old(archive)), override_signature) ==> r is Ok,
        r is Ok ==> kept_compressions_writable(zip_archive_source(*old(archive)), override_signature)
            && names_fit(jar_writer_entries(*final(writer))),
{
    let ghost jar = zip_archive_source(*archive);
    let ghost good = kept_entries_writable(jar, override_signature);
    let n = archive_len(archive);
    let mut i: usize = 0;
    while i < n
        invariant
            i <= n,
            n == zip_entry_count(jar),
            jar == zip_archive_source(*old(archive)),
            zip_archive_source(*archive) == jar,
            good == kept_entries_writable(jar, override_signature),
            kept_entries_upto(jar, override_signature, i as nat) == Ok::<
                Seq<EntrySpec>,
                JarError,
            >(jar_writer_entries(*writer)),
            forall|m: int|
                0 <= m < jar_writer_entries(*writer).len() ==> exists|j: int|
                    0 <= j < i && #[trigger] zip_entry_name(jar, j) == (
                    #[trigger] jar_writer_entries(*writer)[m]).0,
            forall|n: String, d: bool| call_requires(*progress, (n, d)),
            forall|j: int| 0 <= j < n ==> #[trigger] zip_entry_opens(jar, j),
            forall|j: int|
                0 <= j < i && keeps_entry(zip_entry_name(jar, j), override_signature)
                    ==> #[trigger] zip_entry_compression(jar, j) == 0 || zip_entry_compression(
                    jar,
                    j,
                ) == 8,
            names_fit(jar_writer_entries(*writer)),
        decreases n - i,
    {
        let header = match entry_header(archive, i) {
            Some(h) => h,
            None => {
                assert(zip_entry_opens(jar, i as int));
                return Err(JarError::EntryUnavailable(i));
            },
        };
        let name = header.name;
        let ghost before = jar_writer_entries(*writer);
        if override_signature && is_replaced(name.as_str()) {
            i = i + 1;
            continue;
        }
        proof {
            if good {
                lemma_kept_prefix(jar, override_signature, (i + 1) as nat, n as nat);
                let k = kept_entries(jar, override_signature)->Ok_0;
                let next = kept_entries_upto(jar, override_signature, (i + 1) as nat)->Ok_0;
                let c = zip_entry_content(jar, i as int)->0;
                assert(next == before.push((name@, c)));
                assert(next[before.len() as int] == k[before.len() as int]);
                lemma_entries_size_prefix(k, next.len() as int);
                lemma_entries_size_push(before, (name@, c));
                lemma_entries_size_push(before, (name@, Seq::<u8>::empty()));
                lemma_entries_size_prefix(before, before.len() as int);
                assert(before.subrange(0, before.len() as int) =~= before);
            }
        }
        progress(name.clone(), false);
        let permissions: u32 = match header.unix_mode {
            Some(mode) => mode,
            None => 0o644,
        };
        if name.as_str().as_bytes().len() > 0xFFFF {
            return Err(JarError::EntryStartFailed(i));
        }
        proof {
            if good && entry_names(before).contains(name@) {
                let m = choose|m: int| 0 <= m < before.len() && entry_names(before)[m] == name@;
                assert(before[m].0 == name@);
                let j = choose|j: int| 0 <= j < i && zip_entry_name(jar, j) == before[m].0;
                assert(zip_entry_name(jar, j) != zip_entry_name(jar, i as int));
            }
        }
        if !writer_start_entry(writer, name.as_str(), Some(header.compression), Some(permissions)) {
            return Err(JarError::EntryStartFailed(i));
        }
        let content = match entry_content(archive, i) {
            Some(c) => c,
            None => return Err(JarError::EntryCopyFailed(i)),
        };
        let ghost started = jar_writer_entries(*writer);
        assert(started.drop_last() =~= before);
        if !writer_write(writer, content.as_slice()) {
            return Err(JarError::EntryCopyFailed(i));
        }
        assert(jar_writer_entries(*writer) =~= started.drop_last().push((name@, content@)));
        proof {
            let w = jar_writer_entries(*writer);
            assert forall|m: int| 0 <= m < w.len() implies exists|j: int|
                0 <= j < i + 1 && #[trigger] zip_entry_name(jar, j) == (#[trigger] w[m]).0 by {
                if m < before.len() {
                    assert(w[m] == before[m]);
                    let j = choose|j: int| 0 <= j < i && zip_entry_name(jar, j) == before[m].0;
                    assert(zip_entry_name(jar, j) == w[m].0);
                } else {
                    assert(zip_entry_name(jar, i as int) == w[m].0);
                }
            }
        }
        progress(name.clone(), true);
        i = i + 1;
    }
    Ok(())
}

proof fn lemma_names_extend(a: Seq<EntrySpec>, b: Seq<EntrySpec>, x: Seq<char>)
    requires
        entry_names(a).contains(x),
    ensures
        entry_names(a + b).contains(x),
{
    let j = choose|j: int| 0 <= j < entry_names(a).len() && entry_names(a)[j] == x;
    assert(entry_names(a + b)[j] == x);
}

/// Starts a stored entry and writes `data` into it.
fn write_entry(
    writer: &mut JarWriter,
    name: &str,
    data: &[u8],
    start_error: JarError,
    write_error: JarError,
) -> (r: Result<(), JarError>)
    ensures
        r is Ok ==> jar_writer_entries(*final(writer)) == jar_writer_entries(*old(writer)).push(
            (name@, data@),
        ),
        r matches Err(e) ==> e == start_error || e == write_error,
        entry_names(jar_writer_entries(*old(writer))).contains(name@) ==> r == Err::<
            (),
            JarError,
        >(start_error),
        !entry_names(jar_writer_entries(*old(writer))).contains(name@) && encode_utf8(name@).len()
            <= 0xFFFF && entries_size(jar_writer_entries(*old(writer)).push((name@, data@)))
            <= writer_capacity() ==> r is Ok,
        r is Ok ==> encode_utf8(name@).len() <= 0xFFFF,
{
    if name.as_bytes().len() > 0xFFFF {
        return Err(start_error);
    }
    proof {
        let old_entries = jar_writer_entries(*old(writer));
        lemma_entries_size_push(old_entries, (name@, data@));
        lemma_entries_size_push(old_entries, (name@, Seq::<u8>::empty()));
    }
    if !writer_start_entry(writer, name, Some(0u16), None) {
        return Err(start_error);
    }
    proof {
        let old_entries = jar_writer_entries(*old(writer));
        lemma_entries_size_prefix(old_entries, old_entries.len() as int);
        assert(old_entries.subrange(0, old_entries.len() as int) =~= old_entries);
    }
    if !writer_write(writer, data) {
        return Err(write_error);
    }
    proof {
        let old_entries = jar_writer_entries(*old(writer));
        assert(old_entries.push((name@, Seq::<u8>::empty())).update(
            old_entries.len() as int,
            (name@, Seq::<u8>::empty() + data@),
        ) =~= old_entries.push((name@, data@)));
    }
    Ok(())
}

/// Under the conditions of `signing_can_write`, the writer takes each of
/// the three files that signing adds after the copied entries.
proof fn lemma_added_files_writable(
    all: Seq<EntrySpec>,
    kept: Seq<EntrySpec>,
    dirs: Seq<EntrySpec>,
    manifest: Seq<u8>,
    sf: Seq<u8>,
    sig: Seq<u8>,
)
    requires
        dirs.len() == 0 || dirs == seq![("META-INF/"@, Seq::<u8>::empty())],
        all == kept + dirs + added_signature_entries(manifest, sf, sig),
        names_fit(all),
        entries_size(all) <= writer_capacity(),
        !entry_names(kept).contains("META-INF/MANIFEST.MF"@),
        !entry_names(kept).contains("META-INF/SIGNATURE.SF"@),
        !entry_names(kept).contains("META-INF/SIGNATURE.RSA"@),
    ensures
        ({
            let w0 = kept + dirs;
            let w1 = w0.push(("META-INF/MANIFEST.MF"@, manifest));
            let w2 = w1.push(("META-INF/SIGNATURE.SF"@, sf));
            &&& !entry_names(w0).contains("META-INF/MANIFEST.MF"@)
            &&& encode_utf8("META-INF/MANIFEST.MF"@).len() <= 0xFFFF
            &&& entries_size(w1) <= writer_capacity()
            &&& !entry_names(w1).contains("META-INF/SIGNATURE.SF"@)
            &&& encode_utf8("META-INF/SIGNATURE.SF"@).len() <= 0xFFFF
            &&& entries_size(w2) <= writer_capacity()
            &&& !entry_names(w2).contains("META-INF/SIGNATURE.RSA"@)
            &&& encode_utf8("META-INF/SIGNATURE.RSA"@).len() <= 0xFFFF
            &&& entries_size(w2.push(("META-INF/SIGNATURE.RSA"@, sig))) <= writer_capacity()
        }),
{
    reveal_strlit("META-INF/");
    reveal_strlit("META-INF/MANIFEST.MF");
    reveal_strlit("META-INF/SIGNATURE.SF");
    reveal_strlit("META-INF/SIGNATURE.RSA");
    let manifest_name = "META-INF/MANIFEST.MF"@;
    let sf_name = "META-INF/SIGNATURE.SF"@;
    let rsa_name = "META-INF/SIGNATURE.RSA"@;
    let w0 = kept + dirs;
    let w1 = w0.push((manifest_name, manifest));
    let w2 = w1.push((sf_name, sf));
    let wl = w0.len() as int;
    let m_entry = seq![(manifest_name, manifest)];
    let s_entry = seq![(sf_name, sf)];
    assert(all =~= w2.push((rsa_name, sig)));
    assert(all[wl] == (manifest_name, manifest));
    assert(all[wl + 1] == (sf_name, sf));
    assert(all[wl + 2] == (rsa_name, sig));
    assert(encode_utf8(all[wl].0).len() <= 0xFFFF);
    assert(encode_utf8(all[wl + 1].0).len() <= 0xFFFF);
    assert(encode_utf8(all[wl + 2].0).len() <= 0xFFFF);
    assert(all.subrange(0, wl + 1) =~= w1);
    assert(all.subrange(0, wl + 2) =~= w2);
    lemma_entries_size_prefix(all, wl + 1);
    lemma_entries_size_prefix(all, wl + 2);
    if entry_names(w0).contains(manifest_name) {
        lemma_names_split(kept, dirs, manifest_name);
        if entry_names(dirs).contains(manifest_name) {
            assert(entry_names(dirs)[0] == "META-INF/"@);
        }
    }
    if entry_names(w1).contains(sf_name) {
        assert(w1 =~= kept + (dirs + m_entry));
        lemma_names_split(kept, dirs + m_entry, sf_name);
        if entry_names(dirs + m_entry).contains(sf_name) {
            lemma_names_split(dirs, m_entry, sf_name);
            if entry_names(dirs).contains(sf_name) {
                assert(entry_names(dirs)[0] == "META-INF/"@);
            }
            if entry_names(m_entry).contains(sf_name) {
                assert(entry_names(m_entry)[0] == manifest_name);
            }
        }
    }
    if entry_names(w2).contains(rsa_name) {
        assert(w2 =~= kept + (dirs + m_entry + s_entry));
        lemma_names_split(kept, dirs + m_entry + s_entry, rsa_name);
        if entry_names(dirs + m_entry + s_entry).contains(rsa_name) {
            lemma_names_split(dirs + m_entry, s_entry, rsa_name);
            if entry_names(dirs + m_entry).contains(rsa_name) {
                lemma_names_split(dirs, m_entry, rsa_name);
                if entry_names(dirs).contains(rsa_name) {
                    assert(entry_names(dirs)[0] == "META-INF/"@);
                }
                if entry_names(m_entry).contains(rsa_name) {
                    assert(entry_names(m_entry)[0] == manifest_name);
                }
            }
            if entry_names(s_entry).contains(rsa_name) {
                assert(entry_names(s_entry)[0] == sf_name);
            }
        }
    }
}

/// Signs JAR bytes with an RSA private key given in PKCS#8 DER form.
///
/// The manifest lists the SHA-256 digest of every file outside `META-INF/`;
/// the signature file holds the digests of the manifest, of its main
/// attributes and of every file; the signature block is the RSA PKCS#1 v1.5
/// signature of the signature file's SHA-256 digest. With
/// `override_signature`, earlier signature files and the earlier manifest
/// are dropped. The passcode is not used.
///
/// Signing succeeds whenever the key parses, the archive opens and all its
/// entries can be read, no copied entry takes the name of an added file,
/// every copied entry is stored or deflated, every name fits in a ZIP header
/// and the archive stays within the writer's capacity (`signing_can_write`).
/// On success the input's entry names were distinct, so the manifest lists
/// each file once.
pub fn sign_bytes(
    jar_bytes: &[u8],
    key_bytes: &[u8],
    _pass: &str,
    override_signature: bool,
) -> (r: Result<Vec<u8>, JarError>)
    ensures
        signature_files(jar_bytes@, key_bytes@) matches Err(e) ==> r == Err::<Vec<u8>, JarError>(
            e,
        ),
        signed_entries(jar_bytes@, key_bytes@, override_signature) is Err ==> r is Err,
        kept_name_collides(jar_bytes@, override_signature) ==> r is Err,
        r matches Err(e) ==> signature_files(jar_bytes@, key_bytes@) == Err::<
            (Seq<u8>, Seq<u8>, Seq<u8>),
            JarError,
        >(e) || (signature_files(jar_bytes@, key_bytes@) is Ok && is_writing_error(e)),
        r matches Ok(out) ==> archive_fully_readable(out@) && signed_entries(
            jar_bytes@,
            key_bytes@,
            override_signature,
        ) == Ok::<Seq<EntrySpec>, JarError>(archive_listing(out@)),
        r is Ok ==> entry_names_distinct(jar_bytes@),
        r is Ok ==> kept_compressions_writable(jar_bytes@, override_signature) && names_fit(
            signed_entries(jar_bytes@, key_bytes@, override_signature)->Ok_0,
        ),
        signing_can_write(jar_bytes@, key_bytes@, override_signature) ==> r is Ok,
{
    sign_bytes_with_cert_chain(
        jar_bytes,
        key_bytes,
        None,
        _pass,
        override_signature,
        |_name: String, _done: bool| {},
    )
}

/// Signs JAR bytes as `sign_bytes` does, reporting each copied entry to
/// `progress_callback` before (`false`) and after (`true`) it is copied.
/// The certificate chain is not used.
pub fn sign_bytes_with_cert_chain<F: FnMut(String, bool)>(
    jar_bytes: &[u8],
    key_bytes: &[u8],
    _cert_chain: Option<&[Vec<u8>]>,
    _pass: &str,
    override_signature: bool,
    mut progress_callback: F,
) -> (r: Result<Vec<u8>, JarError>)
    requires
        forall|n: String, d: bool| call_requires(progress_callback, (n, d)),
    ensures
        signature_files(jar_bytes@, key_bytes@) matches Err(e) ==> r == Err::<Vec<u8>, JarError>(
            e,
        ),
        signed_entries(jar_bytes@, key_bytes@, override_signature) is Err ==> r is Err,
        kept_name_collides(jar_bytes@, override_signature) ==> r is Err,
        r matches Err(e) ==> signature_files(jar_bytes@, key_bytes@) == Err::<
            (Seq<u8>, Seq<u8>, Seq<u8>),
            JarError,
        >(e) || (signature_files(jar_bytes@, key_bytes@) is Ok && is_writing_error(e)),
        r matches Ok(out) ==> archive_fully_readable(out@) && signed_entries(
            jar_bytes@,
            key_bytes@,
            override_signature,
        ) == Ok::<Seq<EntrySpec>, JarError>(archive_listing(out@)),
        r is Ok ==> entry_names_distinct(jar_bytes@),
        r is Ok ==> kept_compressions_writable(jar_bytes@, override_signature) && names_fit(
            signed_entries(jar_bytes@, key_bytes@, override_signature)->Ok_0,
        ),
        signing_can_write(jar_bytes@, key_bytes@, override_signature) ==> r is Ok,
{
    let signer = match RsaSigningKey::from_pkcs8_der(key_bytes) {
        Some(k) => k,
        None => return Err(JarError::InvalidKey),
    };
    let mut archive = match open_archive(vstd::slice::slice_to_vec(jar_bytes)) {
        Some(a) => a,
        None => return Err(JarError::InvalidArchive),
    };
    let ghost jar = jar_bytes@;
    let digests = compute_file_digests(&mut archive)?;
    let ghost d = digests_view(digests@);
    proof {
        lemma_digests_open_all(jar, zip_entry_count(jar));
    }
    let manifest = manifest_for(&digests);
    let manifest_bytes = manifest.as_str().as_bytes();
    let sf = signature_file_for(manifest_bytes, &digests);
    let sf_bytes = sf.as_str().as_bytes();
    let sf_digest = sha256(sf_bytes);
    let signature = match signer.sign(sf_digest.as_slice()) {
        Some(s) => s,
        None => return Err(JarError::SigningFailed),
    };
    assert(signature_files(jar, key_bytes@) == Ok::<(Seq<u8>, Seq<u8>, Seq<u8>), JarError>(
        (manifest_bytes@, sf_bytes@, signature@),
    ));
    let ghost can = signing_can_write(jar, key_bytes@, override_signature);
    let ghost all = signed_entries(jar, key_bytes@, override_signature)->Ok_0;
    let ghost manifest_name = "META-INF/MANIFEST.MF"@;
    let ghost sf_name = "META-INF/SIGNATURE.SF"@;
    let ghost rsa_name = "META-INF/SIGNATURE.RSA"@;
    proof {
        if can {
            let k = kept_entries(jar, override_signature)->Ok_0;
            assert(all.subrange(0, k.len() as int) =~= k);
            lemma_entries_size_prefix(all, k.len() as int);
            assert forall|j: int| 0 <= j < k.len() implies encode_utf8(#[trigger] k[j].0).len()
                <= 0xFFFF by {
                assert(k[j] == all[j]);
            }
        }
    }
    let mut writer = writer_new();
    copy_kept_entries(&mut archive, &mut writer, override_signature, &mut progress_callback)?;
    let ghost kept = jar_writer_entries(writer);
    let has_dir = find_meta_inf_dir(&mut archive)?;
    if !has_dir {
        if "META-INF/".as_bytes().len() > 0xFFFF {
            proof {
                if can {
                    assert(!has_meta_inf_dir(jar));
                    assert(all =~= kept + added_dir_entries(jar) + added_signature_entries(
                        manifest_bytes@,
                        sf_bytes@,
                        signature@,
                    ));
                    assert(all[kept.len() as int] == ("META-INF/"@, Seq::<u8>::empty()));
                    assert(encode_utf8(all[kept.len() as int].0).len() <= 0xFFFF);
                }
            }
            return Err(JarError::MetaInfDirFailed);
        }
        proof {
            if can {
                assert(all.subrange(0, kept.len() + 1int) =~= kept.push(
                    ("META-INF/"@, Seq::<u8>::empty()),
                ));
                lemma_entries_size_prefix(all, kept.len() + 1int);
                if entry_names(kept).contains("META-INF/"@) {
                    let m = choose|m: int|
                        0 <= m < kept.len() && entry_names(kept)[m] == "META-INF/"@;
                    assert(kept[m].0 == "META-INF/"@);
                    let j = choose|j: int|
                        0 <= j < zip_entry_count(jar) && zip_entry_name(jar, j) == kept[m].0;
                    assert(has_meta_inf_dir(jar));
                }
            }
        }
        if !writer_start_entry(&mut writer, "META-INF/", None, Some(0o40755)) {
            return Err(JarError::MetaInfDirFailed);
        }
        assert(encode_utf8("META-INF/"@).len() <= 0xFFFF);
    }
    assert(names_fit(added_dir_entries(jar)));
    let ghost with_dir = jar_writer_entries(writer);
    assert(with_dir =~= kept + added_dir_entries(jar));
    proof {
        let dirs = added_dir_entries(jar);
        let m_entry = seq![(manifest_name, manifest_bytes@)];
        let s_entry = seq![(sf_name, sf_bytes@)];
        if entry_names(kept).contains(manifest_name) {
            lemma_names_extend(kept, dirs, manifest_name);
        }
        if entry_names(kept).contains(sf_name) {
            lemma_names_extend(kept, dirs + m_entry, sf_name);
            assert(kept + (dirs + m_entry) =~= with_dir.push((manifest_name, manifest_bytes@)));
        }
        if entry_names(kept).contains(rsa_name) {
            lemma_names_extend(kept, dirs + m_entry + s_entry, rsa_name);
            assert(kept + (dirs + m_entry + s_entry) =~= with_dir.push(
                (manifest_name, manifest_bytes@),
            ).push((sf_name, sf_bytes@)));
        }
        if can {
            assert(all =~= with_dir + added_signature_entries(
                manifest_bytes@,
                sf_bytes@,
                signature@,
            ));
            lemma_added_files_writable(all, kept, dirs, manifest_bytes@, sf_bytes@, signature@);
        }
    }
    write_entry(
        &mut writer,
        "META-INF/MANIFEST.MF",
        manifest_bytes,
        JarError::ManifestStartFailed,
        JarError::ManifestWriteFailed,
    )?;
    write_entry(
        &mut writer,
        "META-INF/SIGNATURE.SF",
        sf_bytes,
        JarError::SignatureFileStartFailed,
        JarError::SignatureFileWriteFailed,
    )?;
    write_entry(
        &mut writer,
        "META-INF/SIGNATURE.RSA",
        signature.as_slice(),
        JarError::SignatureBlockStartFailed,
        JarError::SignatureBlockWriteFailed,
    )?;
    let ghost written = jar_writer_entries(writer);
    assert(written =~= kept + added_dir_entries(jar) + added_signature_entries(
        manifest_bytes@,
        sf_bytes@,
        signature@,
    ));
    proof {
        let added = added_signature_entries(manifest_bytes@, sf_bytes@, signature@);
        assert(names_fit(added));
        lemma_names_fit_concat(kept, added_dir_entries(jar));
        lemma_names_fit_concat(kept + added_dir_entries(jar), added);
    }
    match writer_finish(writer) {
        Some(out) => Ok(out),
        None => Err(JarError::FinishFailed),
    }
}

} // verus!
