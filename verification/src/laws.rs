//! Properties that relate the library's operations to one another.
use vstd::prelude::*;

use crate::archive::{
    archive_fully_readable, archive_listing, entry_names_distinct, zip_archive_opens, zip_entry_content, zip_entry_count, zip_entry_name,
    zip_entry_opens,
};
use crate::crypto::{
    is_key_pair, rsa_pkcs1v15_sha256_signature, rsa_pkcs1v15_sha256_verifies, sha256_digest,
    spki_rsa_public_key_parses,
};
use crate::text::{ascii_lowercase, has_prefix, has_suffix};
use crate::inspect::{
    is_signed_result, signature_bytes_result, signature_check, signature_material_scan,
    signature_scan, signed_scan, verify_result,
};
use crate::names::{
    is_replaced_on_override, is_signature_block_name, is_signature_file_name,
    is_signature_name,
};
use crate::signing::{
    added_dir_entries, added_signature_entries, file_digests, file_digests_upto, keeps_entry,
    kept_entries, kept_entries_upto, signature_files, signed_entries, EntrySpec,
};

verus! {

/// `out` is what signing `jar` with `key` may return: an archive whose
/// entries can all be read back and are those of `signed_entries`.
pub open spec fn is_signed_form(
    jar: Seq<u8>,
    key: Seq<u8>,
    override_signature: bool,
    out: Seq<u8>,
) -> bool {
    &&& archive_fully_readable(out)
    &&& signed_entries(jar, key, override_signature) == Ok::<Seq<EntrySpec>, crate::error::JarError>(
        archive_listing(out),
    )
}

/// The first `n` entries can be opened and read.
pub open spec fn entries_readable(jar: Seq<u8>, n: int) -> bool {
    forall|i: int|
        #![trigger zip_entry_opens(jar, i)]
        #![trigger zip_entry_content(jar, i)]
        0 <= i < n ==> zip_entry_opens(jar, i) && zip_entry_content(jar, i) is Some
}

proof fn lemma_added_names()
    ensures
        is_signature_file_name("META-INF/SIGNATURE.SF"@),
        is_signature_block_name("META-INF/SIGNATURE.RSA"@),
        !is_signature_file_name("META-INF/SIGNATURE.RSA"@),
{
    reveal_strlit("META-INF/SIGNATURE.SF");
    reveal_strlit("META-INF/SIGNATURE.RSA");
    reveal_strlit("META-INF/");
    reveal_strlit(".SF");
    reveal_strlit(".RSA");
    assert("META-INF/SIGNATURE.SF"@.subrange(0, 9) =~= "META-INF/"@);
    assert("META-INF/SIGNATURE.SF"@.subrange(18, 21) =~= ".SF"@);
    assert("META-INF/SIGNATURE.RSA"@.subrange(0, 9) =~= "META-INF/"@);
    assert("META-INF/SIGNATURE.RSA"@.subrange(18, 22) =~= ".RSA"@);
    assert("META-INF/SIGNATURE.RSA"@.subrange(19, 22)[0] != ".SF"@[0]);
}

/// The layout of a signed archive: its last two entries are the signature
/// file and the signature block made for it.
proof fn lemma_signed_layout(jar: Seq<u8>, key: Seq<u8>, o: bool, out: Seq<u8>)
    requires
        is_signed_form(jar, key, o, out),
    ensures
        zip_entry_count(out) >= 3,
        signature_files(jar, key) matches Ok((m, sf, sig)) && {
            let n = zip_entry_count(out) as int;
            &&& zip_entry_name(out, n - 2) == "META-INF/SIGNATURE.SF"@
            &&& zip_entry_content(out, n - 2) == Some(sf)
            &&& zip_entry_name(out, n - 1) == "META-INF/SIGNATURE.RSA"@
            &&& zip_entry_content(out, n - 1) == Some(sig)
            &&& rsa_pkcs1v15_sha256_signature(key, sha256_digest(sf)) == Some(sig)
        },
{
    let (m, sf, sig) = signature_files(jar, key)->Ok_0;
    let k = kept_entries(jar, o)->Ok_0;
    let all = k + added_dir_entries(jar) + added_signature_entries(m, sf, sig);
    let listing = archive_listing(out);
    assert(listing == all);
    let n = zip_entry_count(out) as int;
    assert(listing.len() == n);
    assert(all[all.len() - 2] == ("META-INF/SIGNATURE.SF"@, sf));
    assert(all[all.len() - 1] == ("META-INF/SIGNATURE.RSA"@, sig));
    assert(listing[n - 2] == (zip_entry_name(out, n - 2), zip_entry_content(out, n - 2)->0));
    assert(listing[n - 1] == (zip_entry_name(out, n - 1), zip_entry_content(out, n - 1)->0));
    assert(zip_entry_content(out, n - 2) is Some);
    assert(zip_entry_content(out, n - 1) is Some);
}

proof fn lemma_signed_scan_finds(jar: Seq<u8>, n: nat)
    requires
        n <= zip_entry_count(jar),
        forall|i: int| 0 <= i < n ==> #[trigger] zip_entry_opens(jar, i),
    ensures
        signed_scan(jar, n) == Ok::<bool, crate::error::JarError>(
            exists|i: int| 0 <= i < n && #[trigger] is_signature_name(zip_entry_name(jar, i)),
        ),
    decreases n,
{
    if n > 0 {
        lemma_signed_scan_finds(jar, (n - 1) as nat);
        assert(zip_entry_opens(jar, n - 1));
        if exists|i: int| 0 <= i < n && #[trigger] is_signature_name(zip_entry_name(jar, i)) {
            let i = choose|i: int| 0 <= i < n && #[trigger] is_signature_name(zip_entry_name(jar, i));
            if i < n - 1 {
                assert(exists|j: int|
                    0 <= j < n - 1 && #[trigger] is_signature_name(zip_entry_name(jar, j)));
            }
        }
    }
}

/// A signed JAR is reported as signed.
pub proof fn law_signed_jar_is_signed(jar: Seq<u8>, key: Seq<u8>, o: bool, out: Seq<u8>)
    requires
        is_signed_form(jar, key, o, out),
    ensures
        is_signed_result(out) == Ok::<bool, crate::error::JarError>(true),
{
    lemma_signed_layout(jar, key, o, out);
    lemma_added_names();
    let n = zip_entry_count(out);
    assert forall|i: int| 0 <= i < n implies #[trigger] zip_entry_opens(out, i) by {}
    lemma_signed_scan_finds(out, n);
    assert(is_signature_name(zip_entry_name(out, n - 2)));
}

proof fn lemma_signature_scan_readable(jar: Seq<u8>, n: nat)
    requires
        n <= zip_entry_count(jar),
        entries_readable(jar, n as int),
    ensures
        signature_scan(jar, n) matches Ok(found) && (found is Some <==> exists|i: int|
            0 <= i < n && #[trigger] is_signature_name(zip_entry_name(jar, i))),
    decreases n,
{
    if n > 0 {
        lemma_signature_scan_readable(jar, (n - 1) as nat);
        assert(zip_entry_opens(jar, n - 1));
        if exists|i: int| 0 <= i < n && #[trigger] is_signature_name(zip_entry_name(jar, i)) {
            let i = choose|i: int| 0 <= i < n && #[trigger] is_signature_name(zip_entry_name(jar, i));
            if i < n - 1 {
                assert(exists|j: int|
                    0 <= j < n - 1 && #[trigger] is_signature_name(zip_entry_name(jar, j)));
            }
        }
    }
}

/// Extracting the signature bytes of a signed JAR finds some.
pub proof fn law_signed_jar_has_signature_bytes(jar: Seq<u8>, key: Seq<u8>, o: bool, out: Seq<u8>)
    requires
        is_signed_form(jar, key, o, out),
    ensures
        signature_bytes_result(out) matches Ok(found) && found is Some,
{
    lemma_signed_layout(jar, key, o, out);
    lemma_added_names();
    let n = zip_entry_count(out);
    assert(entries_readable(out, n as int));
    lemma_signature_scan_readable(out, n);
    assert(is_signature_name(zip_entry_name(out, n - 2)));
}

proof fn lemma_material_scan_readable(jar: Seq<u8>, n: nat)
    requires
        n <= zip_entry_count(jar),
        entries_readable(jar, n as int),
    ensures
        signature_material_scan(jar, n) is Ok,
    decreases n,
{
    if n > 0 {
        lemma_material_scan_readable(jar, (n - 1) as nat);
        assert(zip_entry_opens(jar, n - 1));
    }
}

/// A JAR signed with the private key of a key pair verifies under its public
/// key (keys whose signatures are 256 bytes long, as generated).
pub proof fn law_signed_jar_verifies(
    jar: Seq<u8>,
    key: Seq<u8>,
    public_key: Seq<u8>,
    o: bool,
    out: Seq<u8>,
)
    requires
        is_key_pair(key, public_key, 256),
        is_signed_form(jar, key, o, out),
    ensures
        verify_result(out, public_key) == Ok::<bool, crate::error::JarError>(true),
{
    lemma_signed_layout(jar, key, o, out);
    lemma_added_names();
    let (m, sf, sig) = signature_files(jar, key)->Ok_0;
    let n = zip_entry_count(out);
    assert(entries_readable(out, n as int));
    lemma_material_scan_readable(out, (n - 2) as nat);
    let before = signature_material_scan(out, (n - 2) as nat)->Ok_0;
    assert(zip_entry_opens(out, n - 2));
    assert(zip_entry_opens(out, n - 1));
    assert(signature_material_scan(out, (n - 1) as nat) == Ok::<
        (Option<Seq<u8>>, Option<Seq<u8>>),
        crate::error::JarError,
    >((Some(sf), before.1)));
    assert(signature_material_scan(out, n) == Ok::<
        (Option<Seq<u8>>, Option<Seq<u8>>),
        crate::error::JarError,
    >((Some(sf), Some(sig))));
    assert(rsa_pkcs1v15_sha256_signature(key, sha256_digest(sf)) == Some(sig));
    assert(sig.subrange(0, 256) =~= sig);
    assert(signature_check(sf, sig, public_key) == Ok::<bool, crate::error::JarError>(true));
}

proof fn lemma_kept_contains(jar: Seq<u8>, o: bool, n: nat, i: int)
    requires
        0 <= i < n,
        kept_entries_upto(jar, o, n) is Ok,
        keeps_entry(zip_entry_name(jar, i), o),
    ensures
        zip_entry_content(jar, i) is Some,
        kept_entries_upto(jar, o, n)->Ok_0.contains(
            (zip_entry_name(jar, i), zip_entry_content(jar, i)->0),
        ),
    decreases n,
{
    let prev = kept_entries_upto(jar, o, (n - 1) as nat);
    if i < n - 1 {
        assert(prev is Ok);
        lemma_kept_contains(jar, o, (n - 1) as nat, i);
        let k = prev->Ok_0;
        let e = (zip_entry_name(jar, i), zip_entry_content(jar, i)->0);
        let j = choose|j: int| 0 <= j < k.len() && k[j] == e;
        let now = kept_entries_upto(jar, o, n)->Ok_0;
        assert(now == k || now == k.push((zip_entry_name(jar, n - 1), zip_entry_content(jar, n - 1)->0)));
        assert(now[j] == e);
    } else {
        let k = prev->Ok_0;
        let now = kept_entries_upto(jar, o, n)->Ok_0;
        assert(now[k.len() as int] == (zip_entry_name(jar, i), zip_entry_content(jar, i)->0));
    }
}

/// Signing keeps every file outside `META-INF/`, with its content unchanged.
pub proof fn law_signing_keeps_files(
    jar: Seq<u8>,
    key: Seq<u8>,
    o: bool,
    out: Seq<u8>,
    i: int,
)
    requires
        is_signed_form(jar, key, o, out),
        0 <= i < zip_entry_count(jar),
        !has_prefix(zip_entry_name(jar, i), "META-INF/"@),
    ensures
        zip_entry_content(jar, i) is Some,
        exists|j: int|
            0 <= j < zip_entry_count(out) && zip_entry_name(out, j) == zip_entry_name(jar, i)
                && #[trigger] zip_entry_content(out, j) == zip_entry_content(jar, i),
{
    let (m, sf, sig) = signature_files(jar, key)->Ok_0;
    assert(kept_entries(jar, o) is Ok);
    let k = kept_entries(jar, o)->Ok_0;
    assert(keeps_entry(zip_entry_name(jar, i), o));
    lemma_kept_contains(jar, o, zip_entry_count(jar), i);
    let e = (zip_entry_name(jar, i), zip_entry_content(jar, i)->0);
    let j = choose|j: int| 0 <= j < k.len() && k[j] == e;
    let all = k + added_dir_entries(jar) + added_signature_entries(m, sf, sig);
    let listing = archive_listing(out);
    assert(listing == all);
    assert(all.len() == k.len() + added_dir_entries(jar).len() + 3);
    assert(listing.len() == zip_entry_count(out));
    assert(0 <= j < listing.len());
    assert(all[j] == e);
    assert(listing[j] == (zip_entry_name(out, j), zip_entry_content(out, j)->0));
    assert(zip_entry_opens(out, j) && zip_entry_content(out, j) is Some);
}

proof fn lemma_digests_cover(jar: Seq<u8>, n: nat, i: int)
    requires
        0 <= i < n,
        file_digests_upto(jar, n) is Ok,
        !has_prefix(zip_entry_name(jar, i), "META-INF/"@),
    ensures
        zip_entry_content(jar, i) is Some,
        file_digests_upto(jar, n)->Ok_0.contains(
            (
                zip_entry_name(jar, i),
                crate::crypto::base64_standard(sha256_digest(zip_entry_content(jar, i)->0)),
            ),
        ),
    decreases n,
{
    let prev = file_digests_upto(jar, (n - 1) as nat);
    assert(prev is Ok);
    let d = prev->Ok_0;
    let now = file_digests_upto(jar, n)->Ok_0;
    let e = (
        zip_entry_name(jar, i),
        crate::crypto::base64_standard(sha256_digest(zip_entry_content(jar, i)->0)),
    );
    if i < n - 1 {
        lemma_digests_cover(jar, (n - 1) as nat, i);
        let j = choose|j: int| 0 <= j < d.len() && d[j] == e;
        assert(now[j] == e);
    } else {
        assert(now[d.len() as int] == e);
    }
}

proof fn lemma_digests_sound(jar: Seq<u8>, n: nat, j: int)
    requires
        file_digests_upto(jar, n) is Ok,
        0 <= j < file_digests_upto(jar, n)->Ok_0.len(),
    ensures
        exists|i: int|
            0 <= i < n && !has_prefix(zip_entry_name(jar, i), "META-INF/"@) && #[trigger] zip_entry_content(
                jar,
                i,
            ) is Some && file_digests_upto(jar, n)->Ok_0[j] == (
                zip_entry_name(jar, i),
                crate::crypto::base64_standard(sha256_digest(zip_entry_content(jar, i)->0)),
            ),
    decreases n,
{
    let prev = file_digests_upto(jar, (n - 1) as nat);
    assert(prev is Ok);
    let d = prev->Ok_0;
    let now = file_digests_upto(jar, n)->Ok_0;
    if j < d.len() {
        lemma_digests_sound(jar, (n - 1) as nat, j);
        let i = choose|i: int|
            0 <= i < n - 1 && !has_prefix(zip_entry_name(jar, i), "META-INF/"@) && #[trigger] zip_entry_content(
                jar,
                i,
            ) is Some && d[j] == (
                zip_entry_name(jar, i),
                crate::crypto::base64_standard(sha256_digest(zip_entry_content(jar, i)->0)),
            );
        assert(now[j] == d[j]);
        assert(zip_entry_content(jar, i) is Some);
    } else {
        assert(zip_entry_content(jar, n - 1) is Some);
    }
}

/// The manifest lists exactly the files outside `META-INF/`, each with the
/// Base64 text of the SHA-256 digest of its content.
pub proof fn law_manifest_lists_files(jar: Seq<u8>)
    requires
        file_digests(jar) is Ok,
    ensures
        forall|i: int|
            0 <= i < zip_entry_count(jar) && !has_prefix(#[trigger] zip_entry_name(jar, i), "META-INF/"@)
                ==> zip_entry_content(jar, i) is Some && file_digests(jar)->Ok_0.contains(
                (
                    zip_entry_name(jar, i),
                    crate::crypto::base64_standard(sha256_digest(zip_entry_content(jar, i)->0)),
                ),
            ),
        forall|j: int|
            #![trigger file_digests(jar)->Ok_0[j]]
            0 <= j < file_digests(jar)->Ok_0.len() ==> exists|i: int|
                0 <= i < zip_entry_count(jar) && !has_prefix(zip_entry_name(jar, i), "META-INF/"@)
                    && #[trigger] zip_entry_content(jar, i) is Some && file_digests(jar)->Ok_0[j]
                    == (
                    zip_entry_name(jar, i),
                    crate::crypto::base64_standard(sha256_digest(zip_entry_content(jar, i)->0)),
                ),
{
    assert forall|i: int|
        0 <= i < zip_entry_count(jar) && !has_prefix(#[trigger] zip_entry_name(jar, i), "META-INF/"@)
            implies zip_entry_content(jar, i) is Some && file_digests(jar)->Ok_0.contains(
            (
                zip_entry_name(jar, i),
                crate::crypto::base64_standard(sha256_digest(zip_entry_content(jar, i)->0)),
            ),
        ) by {
        lemma_digests_cover(jar, zip_entry_count(jar), i);
    }
    assert forall|j: int|
        #![trigger file_digests(jar)->Ok_0[j]]
        0 <= j < file_digests(jar)->Ok_0.len() implies exists|i: int|
        0 <= i < zip_entry_count(jar) && !has_prefix(zip_entry_name(jar, i), "META-INF/"@)
            && #[trigger] zip_entry_content(jar, i) is Some && file_digests(jar)->Ok_0[j] == (
            zip_entry_name(jar, i),
            crate::crypto::base64_standard(sha256_digest(zip_entry_content(jar, i)->0)),
        ) by {
        lemma_digests_sound(jar, zip_entry_count(jar), j);
    }
}

proof fn lemma_scans_agree(jar: Seq<u8>, n: nat)
    ensures
        signed_scan(jar, n) == Ok::<bool, crate::error::JarError>(false) <==> signature_scan(jar, n)
            == Ok::<Option<Seq<u8>>, crate::error::JarError>(None),
        signature_scan(jar, n) matches Ok(found) && found is Some ==> signed_scan(jar, n) == Ok::<
            bool,
            crate::error::JarError,
        >(true),
    decreases n,
{
    if n > 0 {
        lemma_scans_agree(jar, (n - 1) as nat);
    }
}

/// `is_signed` and `extract_signature_bytes` agree: a JAR reported unsigned
/// has no signature bytes, one without signature bytes is reported unsigned,
/// and one whose signature bytes are found is reported signed.
pub proof fn law_signed_iff_signature_bytes(jar: Seq<u8>)
    ensures
        is_signed_result(jar) == Ok::<bool, crate::error::JarError>(false) <==> signature_bytes_result(
            jar,
        ) == Ok::<Option<Seq<u8>>, crate::error::JarError>(None),
        signature_bytes_result(jar) matches Ok(found) && found is Some ==> is_signed_result(jar)
            == Ok::<bool, crate::error::JarError>(true),
{
    lemma_scans_agree(jar, zip_entry_count(jar));
}

proof fn lemma_dir_not_replaced()
    ensures
        !is_replaced_on_override("META-INF/"@),
{
    reveal_strlit("META-INF/");
    reveal_strlit(".sf");
    reveal_strlit(".rsa");
    reveal_strlit(".dsa");
    reveal_strlit(".ec");
    reveal_strlit("meta-inf/manifest.mf");
    let lower = crate::text::ascii_lowercase("META-INF/"@);
    assert(lower[8] == '/');
    assert(lower.len() == 9);
    assert(lower.subrange(6, 9)[2] != ".sf"@[2]);
    assert(lower.subrange(5, 9)[3] != ".rsa"@[3]);
    assert(lower.subrange(5, 9)[3] != ".dsa"@[3]);
    assert(lower.subrange(7, 9)[1] != ".ec"@[1]);
    assert(lower.len() != "meta-inf/manifest.mf"@.len());
}

proof fn lemma_kept_all_kept(jar: Seq<u8>, o: bool, n: nat)
    requires
        kept_entries_upto(jar, o, n) is Ok,
    ensures
        forall|j: int|
            0 <= j < kept_entries_upto(jar, o, n)->Ok_0.len() ==> keeps_entry(
                #[trigger] kept_entries_upto(jar, o, n)->Ok_0[j].0,
                o,
            ),
    decreases n,
{
    if n > 0 {
        lemma_kept_all_kept(jar, o, (n - 1) as nat);
        let k = kept_entries_upto(jar, o, (n - 1) as nat)->Ok_0;
        let now = kept_entries_upto(jar, o, n)->Ok_0;
        assert forall|j: int| 0 <= j < now.len() implies keeps_entry(#[trigger] now[j].0, o) by {
            if j < k.len() {
                assert(now[j] == k[j]);
            }
        }
    }
}

/// Signing with `override_signature` drops every earlier signature file,
/// signature block and manifest: the only entries of the signed archive
/// whose names mark one are the three files that signing adds at its end.
pub proof fn law_override_drops_old_signatures(jar: Seq<u8>, key: Seq<u8>, out: Seq<u8>)
    requires
        is_signed_form(jar, key, true, out),
    ensures
        forall|j: int|
            0 <= j < zip_entry_count(out) - 3 ==> !(has_prefix(
                #[trigger] zip_entry_name(out, j),
                "META-INF/"@,
            ) && (has_suffix(ascii_lowercase(zip_entry_name(out, j)), ".sf"@) || has_suffix(
                ascii_lowercase(zip_entry_name(out, j)),
                ".rsa"@,
            ) || has_suffix(ascii_lowercase(zip_entry_name(out, j)), ".dsa"@) || has_suffix(
                ascii_lowercase(zip_entry_name(out, j)),
                ".ec"@,
            ) || ascii_lowercase(zip_entry_name(out, j)) == "meta-inf/manifest.mf"@)),
{
    let (m, sf, sig) = signature_files(jar, key)->Ok_0;
    let k = kept_entries(jar, true)->Ok_0;
    let all = k + added_dir_entries(jar) + added_signature_entries(m, sf, sig);
    let listing = archive_listing(out);
    assert(listing == all);
    lemma_kept_all_kept(jar, true, zip_entry_count(jar));
    lemma_dir_not_replaced();
    assert forall|j: int| 0 <= j < zip_entry_count(out) - 3 implies !is_replaced_on_override(
        #[trigger] zip_entry_name(out, j),
    ) by {
        assert(listing[j].0 == zip_entry_name(out, j));
        if j < k.len() {
            assert(all[j] == k[j]);
            assert(keeps_entry(k[j].0, true));
        } else {
            assert(all[j] == added_dir_entries(jar)[j - k.len()]);
        }
    }
}

proof fn lemma_digest_names_distinct(jar: Seq<u8>, n: nat)
    requires
        n <= zip_entry_count(jar),
        entry_names_distinct(jar),
        file_digests_upto(jar, n) is Ok,
    ensures
        forall|a: int, b: int|
            0 <= a < b < file_digests_upto(jar, n)->Ok_0.len() ==> #[trigger] file_digests_upto(
                jar,
                n,
            )->Ok_0[a].0 != #[trigger] file_digests_upto(jar, n)->Ok_0[b].0,
    decreases n,
{
    if n > 0 {
        let m = (n - 1) as nat;
        lemma_digest_names_distinct(jar, m);
        let d = file_digests_upto(jar, m)->Ok_0;
        let now = file_digests_upto(jar, n)->Ok_0;
        assert forall|a: int, b: int| 0 <= a < b < now.len() implies #[trigger] now[a].0
            != #[trigger] now[b].0 by {
            if b < d.len() {
                assert(now[a] == d[a] && now[b] == d[b]);
            } else {
                lemma_digests_sound(jar, m, a);
                let i = choose|i: int|
                    0 <= i < m && !has_prefix(zip_entry_name(jar, i), "META-INF/"@)
                        && #[trigger] zip_entry_content(jar, i) is Some && d[a] == (
                        zip_entry_name(jar, i),
                        crate::crypto::base64_standard(
                            sha256_digest(zip_entry_content(jar, i)->0),
                        ),
                    );
                assert(now[a] == d[a]);
                assert(now[b].0 == zip_entry_name(jar, m as int));
                assert(zip_entry_name(jar, i) != zip_entry_name(jar, m as int));
            }
        }
    }
}

/// Each file appears once in the manifest: in an archive whose entry names
/// are distinct, the names listed with digests are distinct.
pub proof fn law_manifest_names_distinct(jar: Seq<u8>)
    requires
        entry_names_distinct(jar),
        file_digests(jar) is Ok,
    ensures
        forall|a: int, b: int|
            0 <= a < b < file_digests(jar)->Ok_0.len() ==> #[trigger] file_digests(jar)->Ok_0[a].0
                != #[trigger] file_digests(jar)->Ok_0[b].0,
{
    lemma_digest_names_distinct(jar, zip_entry_count(jar));
}

/// A name that is `META-INF/` followed by anything and ending in `.SF`,
/// `.RSA` or `.DSA`, written out on the literals.
spec fn literal_signature_name(name: Seq<char>) -> bool {
    has_prefix(name, "META-INF/"@) && (has_suffix(name, ".SF"@) || has_suffix(name, ".RSA"@)
        || has_suffix(name, ".DSA"@))
}

/// `META-INF/*.SF`, written out on the literals.
spec fn literal_sf_name(name: Seq<char>) -> bool {
    has_prefix(name, "META-INF/"@) && has_suffix(name, ".SF"@)
}

/// `META-INF/*.RSA` or `META-INF/*.DSA`, written out on the literals.
spec fn literal_block_name(name: Seq<char>) -> bool {
    has_prefix(name, "META-INF/"@) && (has_suffix(name, ".RSA"@) || has_suffix(name, ".DSA"@))
}

proof fn lemma_signature_names_literal(name: Seq<char>)
    ensures
        is_signature_name(name) == literal_signature_name(name),
        is_signature_file_name(name) == literal_sf_name(name),
        is_signature_block_name(name) == literal_block_name(name),
{
}

proof fn lemma_signed_scan_literal(jar: Seq<u8>, n: nat)
    ensures
        signed_scan(jar, n) == Ok::<bool, crate::error::JarError>(true) ==> exists|i: int|
            0 <= i < n && literal_signature_name(#[trigger] zip_entry_name(jar, i)),
        signed_scan(jar, n) == Ok::<bool, crate::error::JarError>(false) ==> forall|i: int|
            0 <= i < n ==> !literal_signature_name(#[trigger] zip_entry_name(jar, i)),
        (forall|i: int| 0 <= i < n ==> #[trigger] zip_entry_opens(jar, i)) ==> signed_scan(
            jar,
            n,
        ) is Ok,
    decreases n,
{
    if n > 0 {
        lemma_signed_scan_literal(jar, (n - 1) as nat);
        lemma_signature_names_literal(zip_entry_name(jar, n - 1));
        if (forall|i: int| 0 <= i < n ==> #[trigger] zip_entry_opens(jar, i)) {
            assert(zip_entry_opens(jar, n - 1));
            assert(forall|i: int| 0 <= i < n - 1 ==> #[trigger] zip_entry_opens(jar, i));
        }
    }
}

/// `is_signed` answers `true` exactly when the archive holds an entry named
/// `META-INF/…` ending in `.SF`, `.RSA` or `.DSA`, and `false` exactly when
/// it holds none; it answers whenever the archive and all its entries open.
pub proof fn law_is_signed_means_signature_entry(jar: Seq<u8>)
    ensures
        is_signed_result(jar) matches Ok(signed) ==> (signed <==> exists|i: int|
            0 <= i < zip_entry_count(jar) && #[trigger] has_prefix(
                zip_entry_name(jar, i),
                "META-INF/"@,
            ) && (has_suffix(zip_entry_name(jar, i), ".SF"@) || has_suffix(
                zip_entry_name(jar, i),
                ".RSA"@,
            ) || has_suffix(zip_entry_name(jar, i), ".DSA"@))),
        zip_archive_opens(jar) && (forall|i: int|
            0 <= i < zip_entry_count(jar) ==> #[trigger] zip_entry_opens(jar, i))
            ==> is_signed_result(jar) is Ok,
{
    lemma_signed_scan_literal(jar, zip_entry_count(jar));
    if is_signed_result(jar) == Ok::<bool, crate::error::JarError>(true) {
        let i = choose|i: int|
            0 <= i < zip_entry_count(jar) && literal_signature_name(
                #[trigger] zip_entry_name(jar, i),
            );
        assert(has_prefix(zip_entry_name(jar, i), "META-INF/"@));
    }
    if is_signed_result(jar) == Ok::<bool, crate::error::JarError>(false) {
        assert forall|i: int|
            0 <= i < zip_entry_count(jar) && #[trigger] has_prefix(
                zip_entry_name(jar, i),
                "META-INF/"@,
            ) implies !(has_suffix(zip_entry_name(jar, i), ".SF"@) || has_suffix(
            zip_entry_name(jar, i),
            ".RSA"@,
        ) || has_suffix(zip_entry_name(jar, i), ".DSA"@)) by {
            assert(!literal_signature_name(zip_entry_name(jar, i)));
        }
    }
}

proof fn lemma_signature_scan_literal(jar: Seq<u8>, n: nat)
    ensures
        signature_scan(jar, n) matches Ok(Some(v)) ==> exists|i: int|
            0 <= i < n && literal_signature_name(#[trigger] zip_entry_name(jar, i))
                && zip_entry_content(jar, i) == Some(v) && forall|k: int|
                0 <= k < i ==> !literal_signature_name(#[trigger] zip_entry_name(jar, k)),
        signature_scan(jar, n) == Ok::<Option<Seq<u8>>, crate::error::JarError>(None) ==> forall|
            i: int,
        | 0 <= i < n ==> !literal_signature_name(#[trigger] zip_entry_name(jar, i)),
    decreases n,
{
    if n > 0 {
        lemma_signature_scan_literal(jar, (n - 1) as nat);
        lemma_signature_names_literal(zip_entry_name(jar, n - 1));
        if signature_scan(jar, (n - 1) as nat) == Ok::<Option<Seq<u8>>, crate::error::JarError>(
            None,
        ) {
            if let Ok(Some(v)) = signature_scan(jar, n) {
                assert(literal_signature_name(zip_entry_name(jar, n - 1)));
                assert(zip_entry_content(jar, n - 1) == Some(v));
            }
        }
    }
}

/// `extract_signature_bytes` gives the complete content of the first entry
/// named `META-INF/…` ending in `.SF`, `.RSA` or `.DSA`, and `None` only
/// where no entry has such a name.
pub proof fn law_signature_bytes_are_first_signature_entry(jar: Seq<u8>)
    ensures
        signature_bytes_result(jar) matches Ok(Some(v)) ==> exists|i: int|
            0 <= i < zip_entry_count(jar) && #[trigger] zip_entry_content(jar, i) == Some(v)
                && has_prefix(zip_entry_name(jar, i), "META-INF/"@) && (has_suffix(
                zip_entry_name(jar, i),
                ".SF"@,
            ) || has_suffix(zip_entry_name(jar, i), ".RSA"@) || has_suffix(
                zip_entry_name(jar, i),
                ".DSA"@,
            )) && forall|k: int|
                0 <= k < i ==> !(has_prefix(#[trigger] zip_entry_name(jar, k), "META-INF/"@) && (
                has_suffix(zip_entry_name(jar, k), ".SF"@) || has_suffix(
                    zip_entry_name(jar, k),
                    ".RSA"@,
                ) || has_suffix(zip_entry_name(jar, k), ".DSA"@))),
        signature_bytes_result(jar) == Ok::<Option<Seq<u8>>, crate::error::JarError>(None)
            ==> forall|i: int|
            0 <= i < zip_entry_count(jar) ==> !(has_prefix(
                #[trigger] zip_entry_name(jar, i),
                "META-INF/"@,
            ) && (has_suffix(zip_entry_name(jar, i), ".SF"@) || has_suffix(
                zip_entry_name(jar, i),
                ".RSA"@,
            ) || has_suffix(zip_entry_name(jar, i), ".DSA"@))),
{
    lemma_signature_scan_literal(jar, zip_entry_count(jar));
    if let Ok(Some(v)) = signature_bytes_result(jar) {
        let i = choose|i: int|
            0 <= i < zip_entry_count(jar) && literal_signature_name(
                #[trigger] zip_entry_name(jar, i),
            ) && zip_entry_content(jar, i) == Some(v) && forall|k: int|
                0 <= k < i ==> !literal_signature_name(#[trigger] zip_entry_name(jar, k));
        assert(zip_entry_content(jar, i) == Some(v));
    }
}

proof fn lemma_sf_not_block(name: Seq<char>)
    ensures
        !(has_suffix(name, ".SF"@) && (has_suffix(name, ".RSA"@) || has_suffix(name, ".DSA"@))),
{
    reveal_strlit(".SF");
    reveal_strlit(".RSA");
    reveal_strlit(".DSA");
    if has_suffix(name, ".SF"@) && (has_suffix(name, ".RSA"@) || has_suffix(name, ".DSA"@)) {
        let n = name.len() as int;
        assert(name.subrange(n - 3, n)[2] == 'F');
        assert(name[n - 1] == 'F');
        assert(name.subrange(n - 4, n)[3] == 'A');
    }
}

proof fn lemma_material_scan_literal(jar: Seq<u8>, n: nat)
    ensures
        signature_material_scan(jar, n) matches Ok((sf, block)) ==> {
            &&& sf matches Some(x) ==> exists|i: int|
                0 <= i < n && literal_sf_name(#[trigger] zip_entry_name(jar, i))
                    && zip_entry_content(jar, i) == Some(x) && forall|k: int|
                    i < k < n ==> !literal_sf_name(#[trigger] zip_entry_name(jar, k))
            &&& block matches Some(x) ==> exists|j: int|
                0 <= j < n && literal_block_name(#[trigger] zip_entry_name(jar, j))
                    && zip_entry_content(jar, j) == Some(x) && forall|k: int|
                    j < k < n ==> !literal_block_name(#[trigger] zip_entry_name(jar, k))
        },
    decreases n,
{
    if n > 0 {
        let m = (n - 1) as nat;
        lemma_material_scan_literal(jar, m);
        let name = zip_entry_name(jar, m as int);
        lemma_signature_names_literal(name);
        lemma_sf_not_block(name);
        if let Ok((sf, block)) = signature_material_scan(jar, n) {
            let (psf, pblock) = signature_material_scan(jar, m)->Ok_0;
            if literal_sf_name(name) {
                assert(!literal_block_name(name));
                assert(sf == Some(zip_entry_content(jar, m as int)->0));
                assert(block == pblock);
                if let Some(x) = block {
                    let j = choose|j: int|
                        0 <= j < m && literal_block_name(#[trigger] zip_entry_name(jar, j))
                            && zip_entry_content(jar, j) == Some(x) && forall|k: int|
                            j < k < m ==> !literal_block_name(#[trigger] zip_entry_name(jar, k));
                    assert(zip_entry_content(jar, j) == Some(x));
                }
            } else if literal_block_name(name) {
                assert(block == Some(zip_entry_content(jar, m as int)->0));
                assert(sf == psf);
                if let Some(x) = sf {
                    let i = choose|i: int|
                        0 <= i < m && literal_sf_name(#[trigger] zip_entry_name(jar, i))
                            && zip_entry_content(jar, i) == Some(x) && forall|k: int|
                            i < k < m ==> !literal_sf_name(#[trigger] zip_entry_name(jar, k));
                    assert(zip_entry_content(jar, i) == Some(x));
                }
            } else {
                assert(sf == psf && block == pblock);
                if let Some(x) = sf {
                    let i = choose|i: int|
                        0 <= i < m && literal_sf_name(#[trigger] zip_entry_name(jar, i))
                            && zip_entry_content(jar, i) == Some(x) && forall|k: int|
                            i < k < m ==> !literal_sf_name(#[trigger] zip_entry_name(jar, k));
                    assert(zip_entry_content(jar, i) == Some(x));
                }
                if let Some(x) = block {
                    let j = choose|j: int|
                        0 <= j < m && literal_block_name(#[trigger] zip_entry_name(jar, j))
                            && zip_entry_content(jar, j) == Some(x) && forall|k: int|
                            j < k < m ==> !literal_block_name(#[trigger] zip_entry_name(jar, k));
                    assert(zip_entry_content(jar, j) == Some(x));
                }
            }
        }
    }
}

/// The check of a signature: `true` exactly when the public key parses, the
/// block holds at least 256 bytes and its first 256 bytes are a valid RSA
/// PKCS#1 v1.5 signature of the SHA-256 digest of the signature file under
/// that key; `false` for every other parsing key; an error only for a key
/// that does not parse.
pub proof fn law_signature_check_is_rsa_verification(sf: Seq<u8>, block: Seq<u8>, pk: Seq<u8>)
    ensures
        signature_check(sf, block, pk) == Ok::<bool, crate::error::JarError>(true) <==> (
        spki_rsa_public_key_parses(pk) && block.len() >= 256 && rsa_pkcs1v15_sha256_verifies(
            pk,
            sha256_digest(sf),
            block.subrange(0, 256),
        )),
        signature_check(sf, block, pk) is Err <==> !spki_rsa_public_key_parses(pk),
{
}

/// `verify` answers `true` only where the last entry named `META-INF/…SF`
/// and the last named `META-INF/…RSA` or `…DSA` exist and the first 256 bytes
/// of the latter are a valid RSA signature, under the given key, of the
/// SHA-256 digest of the former.
pub proof fn law_verify_true_means_valid_signature(jar: Seq<u8>, pk: Seq<u8>)
    requires
        verify_result(jar, pk) == Ok::<bool, crate::error::JarError>(true),
    ensures
        exists|i: int, j: int|
            0 <= i < zip_entry_count(jar) && 0 <= j < zip_entry_count(jar) && has_prefix(
                #[trigger] zip_entry_name(jar, i),
                "META-INF/"@,
            ) && has_suffix(zip_entry_name(jar, i), ".SF"@) && has_prefix(
                #[trigger] zip_entry_name(jar, j),
                "META-INF/"@,
            ) && (has_suffix(zip_entry_name(jar, j), ".RSA"@) || has_suffix(
                zip_entry_name(jar, j),
                ".DSA"@,
            )) && zip_entry_content(jar, i) is Some && zip_entry_content(jar, j) is Some
                && zip_entry_content(jar, j)->0.len() >= 256 && rsa_pkcs1v15_sha256_verifies(
                pk,
                sha256_digest(zip_entry_content(jar, i)->0),
                zip_entry_content(jar, j)->0.subrange(0, 256),
            ) && (forall|k: int|
                i < k < zip_entry_count(jar) ==> !(has_prefix(
                    #[trigger] zip_entry_name(jar, k),
                    "META-INF/"@,
                ) && has_suffix(zip_entry_name(jar, k), ".SF"@))) && (forall|k: int|
                j < k < zip_entry_count(jar) ==> !(has_prefix(
                    #[trigger] zip_entry_name(jar, k),
                    "META-INF/"@,
                ) && (has_suffix(zip_entry_name(jar, k), ".RSA"@) || has_suffix(
                    zip_entry_name(jar, k),
                    ".DSA"@,
                )))),
{
    let n = zip_entry_count(jar);
    lemma_material_scan_literal(jar, n);
    let (sf, block) = signature_material_scan(jar, n)->Ok_0;
    let x = sf->0;
    let y = block->0;
    let i = choose|i: int|
        0 <= i < n && literal_sf_name(#[trigger] zip_entry_name(jar, i)) && zip_entry_content(
            jar,
            i,
        ) == Some(x) && forall|k: int| i < k < n ==> !literal_sf_name(#[trigger] zip_entry_name(jar, k));
    let j = choose|j: int|
        0 <= j < n && literal_block_name(#[trigger] zip_entry_name(jar, j)) && zip_entry_content(
            jar,
            j,
        ) == Some(y) && forall|k: int|
            j < k < n ==> !literal_block_name(#[trigger] zip_entry_name(jar, k));
    assert(has_prefix(zip_entry_name(jar, i), "META-INF/"@));
    assert(has_prefix(zip_entry_name(jar, j), "META-INF/"@));
}

/// Signing keeps every entry that it is not asked to replace, with its
/// content: without `override_signature` every entry of the input; with it,
/// every entry except those in `META-INF/` whose ASCII-lower-cased name ends
/// in `.sf`, `.rsa`, `.dsa` or `.ec` or is `meta-inf/manifest.mf`.
pub proof fn law_signing_keeps_unreplaced_entries(
    jar: Seq<u8>,
    key: Seq<u8>,
    o: bool,
    out: Seq<u8>,
    i: int,
)
    requires
        is_signed_form(jar, key, o, out),
        0 <= i < zip_entry_count(jar),
        o ==> !(has_prefix(zip_entry_name(jar, i), "META-INF/"@) && (has_suffix(
            ascii_lowercase(zip_entry_name(jar, i)),
            ".sf"@,
        ) || has_suffix(ascii_lowercase(zip_entry_name(jar, i)), ".rsa"@) || has_suffix(
            ascii_lowercase(zip_entry_name(jar, i)),
            ".dsa"@,
        ) || has_suffix(ascii_lowercase(zip_entry_name(jar, i)), ".ec"@) || ascii_lowercase(
            zip_entry_name(jar, i),
        ) == "meta-inf/manifest.mf"@)),
    ensures
        zip_entry_content(jar, i) is Some,
        exists|j: int|
            0 <= j < zip_entry_count(out) && zip_entry_name(out, j) == zip_entry_name(jar, i)
                && #[trigger] zip_entry_content(out, j) == zip_entry_content(jar, i),
{
    let (m, sf, sig) = signature_files(jar, key)->Ok_0;
    assert(kept_entries(jar, o) is Ok);
    let k = kept_entries(jar, o)->Ok_0;
    assert(keeps_entry(zip_entry_name(jar, i), o));
    lemma_kept_contains(jar, o, zip_entry_count(jar), i);
    let e = (zip_entry_name(jar, i), zip_entry_content(jar, i)->0);
    let j = choose|j: int| 0 <= j < k.len() && k[j] == e;
    let all = k + added_dir_entries(jar) + added_signature_entries(m, sf, sig);
    let listing = archive_listing(out);
    assert(listing == all);
    assert(all.len() == k.len() + added_dir_entries(jar).len() + 3);
    assert(listing.len() == zip_entry_count(out));
    assert(all[j] == e);
    assert(listing[j] == (zip_entry_name(out, j), zip_entry_content(out, j)->0));
    assert(zip_entry_opens(out, j) && zip_entry_content(out, j) is Some);
}

} // verus!
