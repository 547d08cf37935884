//! Archives in the zip format, read by the `zip` crate.
//!
//! Everything here is taken on trust from that crate: an archive is opened
//! on bytes in memory, and its entries are looked up and unpacked by
//! position. What an archive holds is given a name, `archive_entries`, and
//! each function says over that name what it returns.

use std::io::Cursor;
use std::io::Read;
use vstd::prelude::*;
use zip::read::ZipArchive;
use zip::result::ZipError;

verus! {

/// `zip::read::ZipArchive`: an archive that has been opened. Nothing of
/// its inside is visible here.
#[verifier::external_type_specification]
#[verifier::external_body]
#[verifier::reject_recursive_types(R)]
pub struct ExZipArchive<R>(ZipArchive<R>);

/// `std::io::Cursor`: the reader that the archive is opened on.
#[verifier::external_type_specification]
#[verifier::external_body]
#[verifier::reject_recursive_types(T)]
pub struct ExCursor<T>(Cursor<T>);

/// `zip::result::ZipError`: why the `zip` crate gave up.
#[verifier::external_type_specification]
#[verifier::external_body]
pub struct ExZipError(ZipError);

/// What an archive holds, entry by entry in its own order. The first part
/// of an entry is its path, its unpacked size and its stored size, or `None`
/// where the entry cannot be found in the archive; the second part is its
/// unpacked content, or `None` where the content cannot be read.
pub uninterp spec fn archive_entries(archive: ZipArchive<Cursor<Vec<u8>>>) -> Seq<
    (Option<(Seq<char>, u64, u64)>, Option<Seq<u8>>),
>;

/// What the bytes hold when read as an archive, or `None` where they are
/// not an archive that can be read.
pub uninterp spec fn zip_entries(data: Seq<u8>) -> Option<
    Seq<(Option<(Seq<char>, u64, u64)>, Option<Seq<u8>>)>,
>;

/// `ZipArchive::new` on a cursor over the bytes: reads the central
/// directory. Succeeds exactly where the bytes are an archive that can be
/// read, and the archive then holds what the bytes hold.
#[verifier::external_body]
pub(crate) fn open_archive(data: Vec<u8>) -> (r: Result<ZipArchive<Cursor<Vec<u8>>>, ZipError>)
    ensures
        match r {
            Ok(archive) => zip_entries(data@) == Some(archive_entries(archive)),
            Err(_) => zip_entries(data@) is None,
        },
{
    ZipArchive::new(Cursor::new(data))
}

/// `ZipArchive::len`: the number of entries.
#[verifier::external_body]
pub(crate) fn archive_len(archive: &ZipArchive<Cursor<Vec<u8>>>) -> (n: usize)
    ensures
        n == archive_entries(*archive).len(),
{
    archive.len()
}

/// `ZipArchive::by_index_raw`, then `name`, `size` and `compressed_size` of
/// the entry: looks the entry up without unpacking it. The archive holds
/// afterwards what it held before.
#[verifier::external_body]
pub(crate) fn entry_meta(archive: &mut ZipArchive<Cursor<Vec<u8>>>, index: usize) -> (r: Option<
    (String, u64, u64),
>)
    ensures
        archive_entries(*final(archive)) == archive_entries(*old(archive)),
        index < archive_entries(*old(archive)).len() ==> match r {
            Some(m) => archive_entries(*old(archive))[index as int].0 == Some((m.0@, m.1, m.2)),
            None => archive_entries(*old(archive))[index as int].0 is None,
        },
{
    match archive.by_index_raw(index) {
        Ok(file) => Some((file.name().to_string(), file.size(), file.compressed_size())),
        Err(_) => None,
    }
}

/// `ZipArchive::by_index_decrypt` with an empty password, then
/// `read_to_end`: unpacks the entry and checks it against its checksum. An
/// entry that is not encrypted is read as `by_index` reads it; of one that
/// is, the `zip` crate makes what it can with no password, which as a rule
/// is an error. The archive holds afterwards what it held before.
#[verifier::external_body]
pub(crate) fn entry_data(archive: &mut ZipArchive<Cursor<Vec<u8>>>, index: usize) -> (r: Option<Vec<u8>>)
    ensures
        archive_entries(*final(archive)) == archive_entries(*old(archive)),
        index < archive_entries(*old(archive)).len() ==> match r {
            Some(content) => archive_entries(*old(archive))[index as int].1 == Some(content@),
            None => archive_entries(*old(archive))[index as int].1 is None,
        },
{
    let mut content = Vec::new();
    match archive.by_index_decrypt(index, &[]) {
        Ok(Ok(mut file)) => match file.read_to_end(&mut content) {
            Ok(_) => Some(content),
            Err(_) => None,
        },
        Ok(Err(_)) => None,
        Err(_) => None,
    }
}

/// The text of a `ZipError`, as it displays itself.
#[verifier::external_body]
pub(crate) fn describe(e: &ZipError) -> (s: String) {
    e.to_string()
}

} // verus!
