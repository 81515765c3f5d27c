//! ZIP archives in memory.
use crate::bytes;
use vstd::prelude::*;

verus! {

/// The archive reader of the `zip` crate.
#[verifier::external_type_specification]
#[verifier::external_body]
#[verifier::reject_recursive_types(R)]
pub struct ExZipArchive<R>(zip::ZipArchive<R>);

/// The reader over bytes in memory of the standard library.
#[verifier::external_type_specification]
#[verifier::external_body]
#[verifier::reject_recursive_types(T)]
pub struct ExCursor<T>(std::io::Cursor<T>);

/// The entries of an archive, in the order of their indices: the name of each, and what
/// there is to read. An entry is `None` where it cannot be opened, `Some(None)` where it can
/// be opened and not be read to its end.
pub uninterp spec fn archive_entries(
    archive: zip::ZipArchive<std::io::Cursor<Vec<u8>>>,
) -> Seq<(Seq<char>, Option<Option<Seq<u8>>>)>;

/// The entries of the archive that bytes hold; `None` where they hold no archive.
pub uninterp spec fn zip_entries(
    data: Seq<u8>,
) -> Option<Seq<(Seq<char>, Option<Option<Seq<u8>>>)>>;

/// No two entries have the same name.
pub open spec fn names_distinct(entries: Seq<(Seq<char>, Option<Option<Seq<u8>>>)>) -> bool {
    forall|i: int, j: int|
        0 <= i < j < entries.len() ==> (#[trigger] entries[i]).0 != (#[trigger] entries[j]).0
}

/// What can be read of an entry.
pub open spec fn readable(entry: (Seq<char>, Option<Option<Seq<u8>>>)) -> Option<Seq<u8>> {
    match entry.1 {
        Some(content) => content,
        None => None,
    }
}

/// Entry `i` has this name.
pub open spec fn is_named(
    entries: Seq<(Seq<char>, Option<Option<Seq<u8>>>)>,
    i: int,
    name: Seq<char>,
) -> bool {
    0 <= i < entries.len() && entries[i].0 == name
}

/// What can be read of the entry with this name.
pub open spec fn content_named(
    entries: Seq<(Seq<char>, Option<Option<Seq<u8>>>)>,
    name: Seq<char>,
) -> Option<Seq<u8>> {
    if exists|i: int| is_named(entries, i, name) {
        readable(entries[choose|i: int| is_named(entries, i, name)])
    } else {
        None
    }
}

/// Calls `zip::ZipArchive::new` on the bytes in memory. Whether they are an archive, and
/// with which entries, depends on the bytes alone. The entries are held in a map by name, so
/// no name occurs twice.
#[verifier::external_body]
pub(crate) fn open_archive(
    data: Vec<u8>,
) -> (r: Option<zip::ZipArchive<std::io::Cursor<Vec<u8>>>>)
    ensures
        match r {
            Some(archive) => zip_entries(data@) == Some(archive_entries(archive))
                && names_distinct(archive_entries(archive)),
            None => zip_entries(data@) is None,
        },
{
    zip::ZipArchive::new(std::io::Cursor::new(data)).ok()
}

/// Calls `zip::ZipArchive::len`: the number of entries.
#[verifier::external_body]
pub(crate) fn entry_count(archive: &zip::ZipArchive<std::io::Cursor<Vec<u8>>>) -> (r: usize)
    ensures
        r == archive_entries(*archive).len(),
{
    archive.len()
}

/// Calls `zip::ZipArchive::by_index` and `name` on the entry: the name, or `None` where the
/// entry cannot be opened. The entries stay as they are.
#[verifier::external_body]
pub(crate) fn entry_name(
    archive: &mut zip::ZipArchive<std::io::Cursor<Vec<u8>>>,
    i: usize,
) -> (r: Option<String>)
    requires
        i < archive_entries(*old(archive)).len(),
    ensures
        archive_entries(*final(archive)) == archive_entries(*old(archive)),
        match r {
            Some(name) => archive_entries(*old(archive))[i as int].1 is Some && name@
                == archive_entries(*old(archive))[i as int].0,
            None => archive_entries(*old(archive))[i as int].1 is None,
        },
{
    archive.by_index(i).ok().map(|entry| entry.name().to_string())
}

/// Calls `zip::ZipArchive::by_index` and reads the entry to its end with
/// `std::io::Read::read_to_end`: its content, or `None` where it cannot be opened or read.
/// The entries stay as they are.
#[verifier::external_body]
pub(crate) fn entry_content(
    archive: &mut zip::ZipArchive<std::io::Cursor<Vec<u8>>>,
    i: usize,
) -> (r: Option<Vec<u8>>)
    requires
        i < archive_entries(*old(archive)).len(),
    ensures
        archive_entries(*final(archive)) == archive_entries(*old(archive)),
        bytes::optional_bytes(r) == readable(archive_entries(*old(archive))[i as int]),
{
    let mut content = Vec::new();
    match archive.by_index(i) {
        Ok(mut entry) => match std::io::Read::read_to_end(&mut entry, &mut content) {
            Ok(_) => Some(content),
            Err(_) => None,
        },
        Err(_) => None,
    }
}

/// Calls `zip::ZipArchive::by_name` and reads the entry to its end with
/// `std::io::Read::read_to_end`: the content of the entry with this name, or `None` where
/// there is none or it cannot be opened or read. The entries stay as they are.
#[verifier::external_body]
pub(crate) fn named_content(
    archive: &mut zip::ZipArchive<std::io::Cursor<Vec<u8>>>,
    name: &str,
) -> (r: Option<Vec<u8>>)
    ensures
        archive_entries(*final(archive)) == archive_entries(*old(archive)),
        bytes::optional_bytes(r) == content_named(archive_entries(*old(archive)), name@),
{
    let mut content = Vec::new();
    match archive.by_name(name) {
        Ok(mut entry) => match std::io::Read::read_to_end(&mut entry, &mut content) {
            Ok(_) => Some(content),
            Err(_) => None,
        },
        Err(_) => None,
    }
}

} // verus!
