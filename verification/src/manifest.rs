//! The text of `META-INF/MANIFEST.MF` and of the signature file `.SF`.
use vstd::prelude::*;
use vstd::string::StringExecFns;

use crate::crypto::{base64_encode, base64_standard, sha256, sha256_digest};

verus! {

/// One file of the archive and the Base64 text of its SHA-256 digest.
pub struct FileDigest {
    pub name: String,
    pub digest: String,
}

/// The (name, digest) pairs of a list of file digests.
pub open spec fn digests_view(d: Seq<FileDigest>) -> Seq<(Seq<char>, Seq<char>)> {
    Seq::new(d.len(), |i: int| (d[i].name@, d[i].digest@))
}

/// The section of one file: its name and its digest, then a blank line.
pub open spec fn file_section(name: Seq<char>, digest: Seq<char>) -> Seq<char> {
    "Name: "@ + name + "\r\n"@ + "SHA-256-Digest: "@ + digest + "\r\n"@ + "\r\n"@
}

/// The sections of all files, in order.
pub open spec fn file_sections(digests: Seq<(Seq<char>, Seq<char>)>) -> Seq<char>
    decreases digests.len(),
{
    if digests.len() == 0 {
        Seq::empty()
    } else {
        file_sections(digests.drop_last()) + file_section(digests.last().0, digests.last().1)
    }
}

/// The manifest: the main attributes, a blank line, then the file sections.
pub open spec fn manifest_text(digests: Seq<(Seq<char>, Seq<char>)>) -> Seq<char> {
    "Manifest-Version: 1.0\r\n"@ + "Created-By: jarsigned\r\n"@ + "\r\n"@ + file_sections(digests)
}

/// A CR LF CR LF sequence starts at byte `i`.
pub open spec fn blank_line_at(b: Seq<u8>, i: int) -> bool {
    0 <= i && i + 4 <= b.len() && b[i] == 13 && b[i + 1] == 10 && b[i + 2] == 13 && b[i + 3]
        == 10
}

/// The first position at or after `i` where a CR LF CR LF sequence starts,
/// or the length of `b` where there is none (`str::find`).
pub open spec fn first_blank_line_from(b: Seq<u8>, i: int) -> int
    decreases b.len() - i,
{
    if i < 0 || i + 4 > b.len() {
        b.len() as int
    } else if blank_line_at(b, i) {
        i
    } else {
        first_blank_line_from(b, i + 1)
    }
}

/// The main-attributes block of a manifest: the bytes before its first blank line.
pub open spec fn main_attributes(manifest: Seq<u8>) -> Seq<u8> {
    manifest.subrange(0, first_blank_line_from(manifest, 0))
}

/// The signature file: digests of the whole manifest and of its main
/// attributes, a blank line, then the file sections.
pub open spec fn signature_file_text(
    manifest: Seq<u8>,
    digests: Seq<(Seq<char>, Seq<char>)>,
) -> Seq<char> {
    "Signature-Version: 1.0\r\n"@ + "SHA-256-Digest-Manifest: "@ + base64_standard(
        sha256_digest(manifest),
    ) + "\r\n"@ + "SHA-256-Digest-Manifest-Main-Attributes: "@ + base64_standard(
        sha256_digest(main_attributes(manifest)),
    ) + "\r\n"@ + "Signed-By: jarsigned\r\n"@ + "\r\n"@ + file_sections(digests)
}

/// Appends the sections of `digests` to `text`.
fn append_file_sections(text: &mut String, digests: &Vec<FileDigest>)
    ensures
        final(text)@ == old(text)@ + file_sections(digests_view(digests@)),
{
    let ghost start = text@;
    let ghost all = digests_view(digests@);
    let mut i: usize = 0;
    assert(all.take(0) =~= Seq::<(Seq<char>, Seq<char>)>::empty());
    while i < digests.len()
        invariant
            i <= digests.len(),
            all == digests_view(digests@),
            text@ == start + file_sections(all.take(i as int)),
        decreases digests.len() - i,
    {
        let entry = &digests[i];
        text.append("Name: ");
        text.append(entry.name.as_str());
        text.append("\r\n");
        text.append("SHA-256-Digest: ");
        text.append(entry.digest.as_str());
        text.append("\r\n");
        text.append("\r\n");
        proof {
            let prefix = all.take(i as int + 1);
            assert(prefix.drop_last() =~= all.take(i as int));
            assert(prefix.last() == (entry.name@, entry.digest@));
            assert(text@ =~= start + file_sections(prefix));
        }
        i = i + 1;
    }
    assert(all.take(digests.len() as int) =~= all);
}

/// Builds the manifest for the given file digests.
pub fn manifest_for(digests: &Vec<FileDigest>) -> (r: String)
    ensures
        r@ == manifest_text(digests_view(digests@)),
{
    let mut text = String::new();
    text.append("Manifest-Version: 1.0\r\n");
    text.append("Created-By: jarsigned\r\n");
    text.append("\r\n");
    append_file_sections(&mut text, digests);
    assert(text@ =~= manifest_text(digests_view(digests@)));
    text
}

/// The position of the first CR LF CR LF in `b`, or its length.
pub fn find_blank_line(b: &[u8]) -> (r: usize)
    ensures
        r == first_blank_line_from(b@, 0),
        r <= b@.len(),
{
    let n = b.len();
    let mut i: usize = 0;
    while n >= 4 && i <= n - 4
        invariant
            n == b@.len(),
            i <= n,
            first_blank_line_from(b@, 0) == first_blank_line_from(b@, i as int),
        decreases n - i,
    {
        if b[i] == 13 && b[i + 1] == 10 && b[i + 2] == 13 && b[i + 3] == 10 {
            return i;
        }
        i = i + 1;
    }
    n
}

/// Builds the signature file for a manifest (given as its bytes) and the
/// file digests it lists.
pub fn signature_file_for(manifest: &[u8], digests: &Vec<FileDigest>) -> (r: String)
    ensures
        r@ == signature_file_text(manifest@, digests_view(digests@)),
{
    let manifest_digest = sha256(manifest);
    let end = find_blank_line(manifest);
    let main = vstd::slice::slice_subrange(manifest, 0, end);
    let main_digest = sha256(main);
    let mut text = String::new();
    text.append("Signature-Version: 1.0\r\n");
    text.append("SHA-256-Digest-Manifest: ");
    let encoded = base64_encode(manifest_digest.as_slice());
    text.append(encoded.as_str());
    text.append("\r\n");
    text.append("SHA-256-Digest-Manifest-Main-Attributes: ");
    let encoded_main = base64_encode(main_digest.as_slice());
    text.append(encoded_main.as_str());
    text.append("\r\n");
    text.append("Signed-By: jarsigned\r\n");
    text.append("\r\n");
    append_file_sections(&mut text, digests);
    assert(main@ =~= main_attributes(manifest@));
    assert(text@ =~= signature_file_text(manifest@, digests_view(digests@)));
    text
}

} // verus!
