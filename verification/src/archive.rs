//! ZIP archives read from and written to memory, through the `zip` crate.
//!
//! An archive held in memory is described by names over its bytes: whether
//! it opens, how many entries it has, and each entry's name, Unix mode and
//! decompressed content. An archive being written is described by the entries
//! written so far.
use vstd::prelude::*;
use vstd::utf8::encode_utf8;

use std::io::{Cursor, Read, Write};
use zip::write::SimpleFileOptions;
use zip::{CompressionMethod, ZipArchive, ZipWriter};

verus! {

#[verifier::external_type_specification]
#[verifier::external_body]
#[verifier::reject_recursive_types(T)]
pub struct ExCursor<T>(Cursor<T>);

#[verifier::external_type_specification]
#[verifier::external_body]
#[verifier::reject_recursive_types(R)]
pub struct ExZipArchive<R>(ZipArchive<R>);

/// Whether `ZipArchive::new` accepts the bytes as a ZIP archive.
pub uninterp spec fn zip_archive_opens(bytes: Seq<u8>) -> bool;

/// The bytes that an open archive was read from.
pub uninterp spec fn zip_archive_source(archive: ZipArchive<Cursor<Vec<u8>>>) -> Seq<u8>;

/// The number of entries (`ZipArchive::len`) of the archive in `bytes`.
pub uninterp spec fn zip_entry_count(bytes: Seq<u8>) -> nat;

/// Whether `ZipArchive::by_index` succeeds on entry `index`.
pub uninterp spec fn zip_entry_opens(bytes: Seq<u8>, index: int) -> bool;

/// The name (`ZipFile::name`) of entry `index`.
pub uninterp spec fn zip_entry_name(bytes: Seq<u8>, index: int) -> Seq<char>;

/// The number of the compression method (`ZipFile::compression`, as
/// `CompressionMethod::to_u16` gives it) of entry `index`.
pub uninterp spec fn zip_entry_compression(bytes: Seq<u8>, index: int) -> u16;

/// The Unix mode (`ZipFile::unix_mode`) of entry `index`.
pub uninterp spec fn zip_entry_unix_mode(bytes: Seq<u8>, index: int) -> Option<u32>;

/// The decompressed content of entry `index` (`ZipArchive::by_index`, then
/// reading to the end), or `None` where opening or reading the entry fails.
pub uninterp spec fn zip_entry_content(bytes: Seq<u8>, index: int) -> Option<Seq<u8>>;

/// The entries (name and data) written so far into a ZIP writer.
pub uninterp spec fn jar_writer_entries(writer: JarWriter) -> Seq<(Seq<char>, Seq<u8>)>;

/// Whether the writer has an entry open for data: one was started and no
/// write into it has failed since.
pub uninterp spec fn jar_writer_in_entry(writer: JarWriter) -> bool;

/// The archive opens and every one of its entries can be opened and read.
pub open spec fn archive_fully_readable(bytes: Seq<u8>) -> bool {
    &&& zip_archive_opens(bytes)
    &&& forall|i: int|
        #![trigger zip_entry_opens(bytes, i)]
        #![trigger zip_entry_content(bytes, i)]
        0 <= i < zip_entry_count(bytes) ==> zip_entry_opens(bytes, i) && zip_entry_content(
            bytes,
            i,
        ) is Some
}

/// The names and contents of all entries, in archive order.
pub open spec fn archive_listing(bytes: Seq<u8>) -> Seq<(Seq<char>, Seq<u8>)> {
    Seq::new(
        zip_entry_count(bytes),
        |i: int| (zip_entry_name(bytes, i), zip_entry_content(bytes, i)->0),
    )
}

/// No two entries of the archive share a name.
pub open spec fn entry_names_distinct(bytes: Seq<u8>) -> bool {
    forall|i: int, j: int|
        0 <= i < j < zip_entry_count(bytes) ==> #[trigger] zip_entry_name(bytes, i)
            != #[trigger] zip_entry_name(bytes, j)
}

/// The space that a list of entries takes in an archive, counted
/// generously: its names, its data and 64 bytes of headers per entry.
pub open spec fn entries_size(entries: Seq<(Seq<char>, Seq<u8>)>) -> int
    decreases entries.len(),
{
    if entries.len() == 0 {
        0
    } else {
        entries_size(entries.drop_last()) + encode_utf8(entries.last().0).len()
            + entries.last().1.len() + 64
    }
}

/// The bound on `entries_size` under which every entry, its headers and the
/// central directory stay below 4 GiB, the size beyond which the writer
/// refuses entries that were not opened for large files.
pub open spec fn writer_capacity() -> int {
    0xC000_0000
}

/// The names in a list of entries.
pub open spec fn entry_names(entries: Seq<(Seq<char>, Seq<u8>)>) -> Seq<Seq<char>> {
    Seq::new(entries.len(), |i: int| entries[i].0)
}

/// The fields of an archive entry that signing needs to copy it.
pub struct EntryHeader {
    pub name: String,
    pub compression: u16,
    pub unix_mode: Option<u32>,
}

/// Opens an in-memory archive with `ZipArchive::new`.
/// Trusted: it opens exactly when the named predicate holds of the bytes, it
/// remembers the bytes, and (the entries being kept in a map keyed by name)
/// no two entries share a name.
#[verifier::external_body]
pub(crate) fn open_archive(bytes: Vec<u8>) -> (r: Option<ZipArchive<Cursor<Vec<u8>>>>)
    ensures
        r is Some == zip_archive_opens(bytes@),
        r matches Some(a) ==> zip_archive_source(a) == bytes@,
        r matches Some(a) ==> entry_names_distinct(zip_archive_source(a)),
{
    ZipArchive::new(Cursor::new(bytes)).ok()
}

/// The number of entries, by `ZipArchive::len`.
#[verifier::external_body]
pub(crate) fn archive_len(archive: &ZipArchive<Cursor<Vec<u8>>>) -> (r: usize)
    ensures
        r == zip_entry_count(zip_archive_source(*archive)),
{
    archive.len()
}

/// Opens entry `index` with `ZipArchive::by_index` and reads its name,
/// compression method and Unix mode.
/// Trusted: it succeeds exactly when the named predicate holds, and the
/// name, compression method and mode are the named ones. The archive's bytes
/// do not change.
#[verifier::external_body]
#[allow(deprecated)]
pub(crate) fn entry_header(archive: &mut ZipArchive<Cursor<Vec<u8>>>, index: usize) -> (r: Option<
    EntryHeader,
>)
    ensures
        zip_archive_source(*final(archive)) == zip_archive_source(*old(archive)),
        r is Some == zip_entry_opens(zip_archive_source(*old(archive)), index as int),
        r matches Some(h) ==> h.name@ == zip_entry_name(
            zip_archive_source(*old(archive)),
            index as int,
        ) && h.unix_mode == zip_entry_unix_mode(zip_archive_source(*old(archive)), index as int)
            && h.compression == zip_entry_compression(zip_archive_source(*old(archive)), index as int),
{
    match archive.by_index(index) {
        Ok(file) => Some(
            EntryHeader {
                name: file.name().to_string(),
                compression: file.compression().to_u16(),
                unix_mode: file.unix_mode(),
            },
        ),
        Err(_) => None,
    }
}

/// Opens entry `index` with `ZipArchive::by_index` and reads it to the end
/// (`Read::read_to_end`, which checks the CRC).
/// Trusted: the result is the named content. The archive's bytes do not change.
#[verifier::external_body]
pub(crate) fn entry_content(archive: &mut ZipArchive<Cursor<Vec<u8>>>, index: usize) -> (r: Option<
    Vec<u8>,
>)
    ensures
        zip_archive_source(*final(archive)) == zip_archive_source(*old(archive)),
        r is Some == zip_entry_content(zip_archive_source(*old(archive)), index as int) is Some,
        r matches Some(v) ==> zip_entry_content(zip_archive_source(*old(archive)), index as int)
            == Some(v@),
{
    match archive.by_index(index) {
        Ok(mut file) => {
            let mut content = Vec::new();
            match file.read_to_end(&mut content) {
                Ok(_) => Some(content),
                Err(_) => None,
            }
        },
        Err(_) => None,
    }
}

/// A `zip::ZipWriter` writing into memory, described by
/// `jar_writer_entries` and `jar_writer_in_entry`. It is held in a struct of
/// its own because Verus does not take a declaration of `ZipWriter`, whose
/// parameter is bound by `Write + Seek`.
#[verifier::external_body]
pub struct JarWriter {
    inner: ZipWriter<Cursor<Vec<u8>>>,
}

/// A fresh writer, by `ZipWriter::new`. Trusted: nothing is written yet and
/// no entry is open.
#[verifier::external_body]
pub(crate) fn writer_new() -> (r: JarWriter)
    ensures
        jar_writer_entries(r) == Seq::<(Seq<char>, Seq<u8>)>::empty(),
        !jar_writer_in_entry(r),
{
    JarWriter { inner: ZipWriter::new(Cursor::new(Vec::new())) }
}

/// Starts a new entry with `ZipWriter::start_file`; the options are the
/// default ones with the compression method of the given number
/// (`CompressionMethod::from_u16`) and the given Unix permissions, where
/// these are given.
/// Trusted: on success the new, empty entry follows the earlier ones and is
/// open for data; a name that was already written is refused. The call
/// succeeds for a new name
/// when the method is the default one, `Stored` (0) or `Deflated` (8) (the
/// writer can produce no other) and the archive stays within
/// `writer_capacity`: then no entry and no header offset reaches the 4 GiB
/// that the writer allows without the large-file option, since deflating
/// adds far less than a third to any data. Any other method number is
/// refused: of the methods built here, `Deflate64` and `Lzma` can only be
/// read, and the rest are unsupported. A name longer than 65535 bytes makes
/// the writer panic; it is not admitted.
#[verifier::external_body]
#[allow(deprecated)]
pub(crate) fn writer_start_entry(
    writer: &mut JarWriter,
    name: &str,
    compression: Option<u16>,
    permissions: Option<u32>,
) -> (r: bool)
    requires
        encode_utf8(name@).len() <= 0xFFFF,
    ensures
        r ==> jar_writer_entries(*final(writer)) == jar_writer_entries(*old(writer)).push(
            (name@, Seq::<u8>::empty()),
        ),
        r ==> jar_writer_in_entry(*final(writer)),
        entry_names(jar_writer_entries(*old(writer))).contains(name@) ==> !r,
        !entry_names(jar_writer_entries(*old(writer))).contains(name@) && (compression is None
            || compression == Some(0u16) || compression == Some(8u16)) && entries_size(
            jar_writer_entries(*old(writer)).push((name@, Seq::<u8>::empty())),
        ) <= writer_capacity() ==> r,
        compression matches Some(c) && c != 0u16 && c != 8u16 ==> !r,
{
    let mut options = SimpleFileOptions::default();
    if let Some(method) = compression {
        options = options.compression_method(CompressionMethod::from_u16(method));
    }
    if let Some(mode) = permissions {
        options = options.unix_permissions(mode);
    }
    writer.inner.start_file(name, options).is_ok()
}

/// Writes data into the entry last started, with `Write::write_all`.
/// Trusted: on success the data is appended to that entry, which stays
/// open. While an entry is open, the writer refuses data only where the entry
/// would pass 4 GiB (`ZIP64_BYTES_THR`) without the large-file option.
#[verifier::external_body]
pub(crate) fn writer_write(writer: &mut JarWriter, data: &[u8]) -> (r: bool)
    requires
        jar_writer_entries(*old(writer)).len() > 0,
    ensures
        r ==> jar_writer_entries(*final(writer)) == jar_writer_entries(*old(writer)).update(
            jar_writer_entries(*old(writer)).len() - 1,
            (
                jar_writer_entries(*old(writer)).last().0,
                jar_writer_entries(*old(writer)).last().1 + data@,
            ),
        ),
        r ==> jar_writer_in_entry(*final(writer)),
        jar_writer_in_entry(*old(writer)) && jar_writer_entries(*old(writer)).last().1.len()
            + data@.len() <= 0xFFFF_FFFF ==> r,
{
    writer.inner.write_all(data).is_ok()
}

/// Finishes the archive with `ZipWriter::finish` and hands back its bytes.
/// Trusted: reading the bytes back gives every entry that was written, in
/// the order written, with its name and data. Finishing succeeds when the
/// archive stays within `writer_capacity`, so that the last entry closes
/// below 4 GiB.
#[verifier::external_body]
pub(crate) fn writer_finish(writer: JarWriter) -> (r: Option<Vec<u8>>)
    ensures
        entries_size(jar_writer_entries(writer)) <= writer_capacity() ==> r is Some,
        r matches Some(bytes) ==> archive_fully_readable(bytes@) && archive_listing(bytes@)
            == jar_writer_entries(writer),
{
    match writer.inner.finish() {
        Ok(cursor) => Some(cursor.into_inner()),
        Err(_) => None,
    }
}

} // verus!
