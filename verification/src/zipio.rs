//! The trusted boundary to the `zip` crate.
//!
//! The container is written and read entirely in memory, as a store-mode zip
//! with a pinned timestamp, so the finalized bytes are a function of the
//! entry list alone; that function is named `zip_bytes` here.  Everything
//! else — which entries go in, how they are named, what comes back out — is
//! verified library code built on the contracts below.
//!
//! The writer and archive are held in opaque structs of this crate: their
//! own types cannot be declared to the verifier, because their `Write` and
//! `Seek` bounds are std traits the verifier does not know.

use vstd::prelude::*;
use vstd::utf8::encode_utf8;
use std::io::Read;
use std::io::Write;

verus! {

/// A store-mode zip writer over an in-memory buffer.
#[verifier::external_body]
pub struct MemZipWriter {
    inner: zip::write::ZipWriter<std::io::Cursor<Vec<u8>>>,
}

/// An opened zip archive over in-memory bytes.
#[verifier::external_body]
pub struct MemZipArchive {
    inner: zip::read::ZipArchive<std::io::Cursor<Vec<u8>>>,
}

/// The bytes of the finalized store-mode container holding exactly these
/// (name, data) entries, in order.
pub uninterp spec fn zip_bytes(entries: Seq<(Seq<char>, Seq<u8>)>) -> Seq<u8>;

/// The (name, data) entries started and fully written on a zip writer so
/// far, in order.
pub uninterp spec fn writer_entries(w: MemZipWriter) -> Seq<(Seq<char>, Seq<u8>)>;

/// The (name, data) entries of an opened archive, in index order.
pub uninterp spec fn archive_entries(a: MemZipArchive) -> Seq<(Seq<char>, Seq<u8>)>;

/// What the zip crate exposes for given container bytes: the entry list, in
/// index order, or nothing when the bytes do not parse as a container.
pub uninterp spec fn zip_parsed(bytes: Seq<u8>) -> Option<Seq<(Seq<char>, Seq<u8>)>>;

/// Whether every entry of an opened archive reads back without error, as
/// every archive that the writer finalized does.
pub uninterp spec fn archive_ok(a: MemZipArchive) -> bool;

/// An entry list that the container format can represent: distinct names
/// that fit the format's 16-bit name-length field, entry data within the
/// 32-bit size limit of a plain (non-zip64) entry, and an entry count within
/// the format's 32-bit range.
pub open spec fn zip_wf_entries(es: Seq<(Seq<char>, Seq<u8>)>) -> bool {
    &&& es.len() <= 0xFFFF_FFFF
    &&& (forall|i: int, j: int| 0 <= i < j < es.len() ==> es[i].0 != es[j].0)
    &&& (forall|i: int| 0 <= i < es.len() ==> encode_utf8(#[trigger] es[i].0).len() <= 0xFFFF)
    &&& (forall|i: int| 0 <= i < es.len() ==> (#[trigger] es[i].1).len() <= 0xFFFF_FFFF)
}

/// Relies on `zip::ZipWriter::new`: a writer over a fresh in-memory buffer
/// holds no entries.
#[verifier::external_body]
pub(crate) fn zip_writer_new() -> (w: MemZipWriter)
    ensures
        writer_entries(w) == Seq::<(Seq<char>, Seq<u8>)>::empty(),
{
    MemZipWriter { inner: zip::write::ZipWriter::new(std::io::Cursor::new(Vec::new())) }
}

/// Relies on `zip::ZipWriter::start_file` and `std::io::Write::write_all`:
/// on success, one more store-mode entry with a pinned timestamp holds
/// exactly these bytes under exactly this name.  A name that repeats an
/// earlier entry's or overflows the format's 16-bit name-length field is
/// refused, as is entry data past the 32-bit size limit — and those are the
/// only ways adding an entry to an in-memory buffer can fail, so a fresh,
/// fitting entry always goes in.
#[verifier::external_body]
pub(crate) fn zip_writer_add(w: &mut MemZipWriter, name: &str, data: &Vec<u8>) -> (r: Result<
    (),
    String,
>)
    ensures
        r is Ok ==> writer_entries(*final(w)) == writer_entries(*old(w)).push((name@, data@)),
        r is Ok ==> forall|i: int| 0 <= i < writer_entries(*old(w)).len()
            ==> (#[trigger] writer_entries(*old(w))[i]).0 != name@,
        r is Ok ==> encode_utf8(name@).len() <= 0xFFFF && data@.len() <= 0xFFFF_FFFF,
        ((forall|i: int| 0 <= i < writer_entries(*old(w)).len()
            ==> (#[trigger] writer_entries(*old(w))[i]).0 != name@) && encode_utf8(name@).len()
            <= 0xFFFF && data@.len() <= 0xFFFF_FFFF) ==> r is Ok,
{
    let options = zip::write::SimpleFileOptions::default().compression_method(
        zip::CompressionMethod::Stored,
    ).last_modified_time(zip::DateTime::default());
    if let Err(e) = w.inner.start_file(name, options) {
        return Err(format!("failed to start entry: {}", e));
    }
    w.inner.write_all(data).map_err(|e| format!("failed to write entry: {}", e))
}

/// Relies on `zip::ZipWriter::finish`: the finalized container bytes are a
/// function of the entry list alone, named `zip_bytes`.  Finalizing only
/// writes the central directory to the in-memory buffer, which cannot fail.
#[verifier::external_body]
pub(crate) fn zip_writer_finish(w: MemZipWriter) -> (r: Result<Vec<u8>, String>)
    ensures
        r is Ok,
        r matches Ok(bytes) ==> bytes@ == zip_bytes(writer_entries(w)),
{
    match w.inner.finish() {
        Ok(cursor) => Ok(cursor.into_inner()),
        Err(e) => Err(format!("failed to finalize container: {}", e)),
    }
}

/// Relies on `zip::ZipArchive::new`: in-memory bytes parse deterministically
/// — opening succeeds exactly when they parse, yielding the parsed entries —
/// and bytes that the writer finalized for a representable entry list parse
/// back to exactly those entries, every one readable.
#[verifier::external_body]
pub(crate) fn zip_archive_open(bytes: Vec<u8>) -> (r: Result<MemZipArchive, String>)
    ensures
        r is Ok <==> zip_parsed(bytes@) is Some,
        r matches Ok(a) ==> zip_parsed(bytes@) == Option::Some(archive_entries(a)),
        forall|es: Seq<(Seq<char>, Seq<u8>)>|
            zip_wf_entries(es) && bytes@ == #[trigger] zip_bytes(es) ==> r is Ok,
        r matches Ok(a) ==> forall|es: Seq<(Seq<char>, Seq<u8>)>|
            zip_wf_entries(es) && bytes@ == #[trigger] zip_bytes(es) ==> archive_entries(a) == es
                && archive_ok(a),
{
    match zip::read::ZipArchive::new(std::io::Cursor::new(bytes)) {
        Ok(inner) => Ok(MemZipArchive { inner }),
        Err(e) => Err(format!("failed to read container: {}", e)),
    }
}

/// Relies on `zip::ZipArchive::name_for_index`: the stored name of entry
/// `i`, available without touching the entry's data.
#[verifier::external_body]
pub(crate) fn zip_entry_name(a: &MemZipArchive, i: usize) -> (r: String)
    requires
        i < archive_entries(*a).len(),
    ensures
        r@ == archive_entries(*a)[i as int].0,
{
    match a.inner.name_for_index(i) {
        Some(n) => n.to_string(),
        None => String::new(),
    }
}

/// Relies on `zip::ZipArchive::len`: the number of entries.
#[verifier::external_body]
pub(crate) fn zip_archive_len(a: &MemZipArchive) -> (n: usize)
    ensures
        n == archive_entries(*a).len(),
{
    a.inner.len()
}

/// Relies on `zip::ZipArchive::by_index` and `std::io::Read::read_to_end`:
/// entry `i`'s stored name and full bytes.  Reading alters no entry, and on
/// an archive whose every entry is readable it does not fail.
#[verifier::external_body]
pub(crate) fn zip_read_entry(a: &mut MemZipArchive, i: usize) -> (r: Result<
    (String, Vec<u8>),
    String,
>)
    requires
        i < archive_entries(*old(a)).len(),
    ensures
        archive_entries(*final(a)) == archive_entries(*old(a)),
        archive_ok(*final(a)) == archive_ok(*old(a)),
        archive_ok(*old(a)) ==> r is Ok,
        r matches Ok(p) ==> (p.0@, p.1@) == archive_entries(*old(a))[i as int],
{
    match a.inner.by_index(i) {
        Ok(mut f) => {
            let name = f.name().to_string();
            let mut data = Vec::new();
            match f.read_to_end(&mut data) {
                Ok(_) => Ok((name, data)),
                Err(e) => Err(format!("failed to read entry {}: {}", i, e)),
            }
        },
        Err(e) => Err(format!("failed to read entry {}: {}", i, e)),
    }
}

} // verus!
