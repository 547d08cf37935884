//! The scan of an archive: one detail record for every entry, in the
//! archive's own order.
//!
//! The archive is handed in as bytes. What the reader makes of the bytes is
//! not restated here: it has a name, `zip_entries`, and the contracts of the
//! scan say what is made of it.

use std::io::Cursor;
use vstd::prelude::*;
use vstd::string::*;
use zip::read::ZipArchive;
use crate::cliper_info::{detail_record, file_name_of, read_file_name, record_of, record_views,
    CliperInfo, RecordModel};
use crate::digest::{digest_hex, md5_hex};
use crate::encode::{base64_text, can_encode, encode_base64, fits_base64};
use crate::error::CliperError;
use crate::size_data::{checked_summarize, stored_total, SizeData};
use crate::skip::{default_rules, default_skip_rules, is_skipped, rule_views, should_skip, SkipRule};
use crate::zip_reader::{
    archive_entries, archive_len, describe, entry_data, entry_meta, open_archive, zip_entries,
};

verus! {

/// Whether the scan takes a fingerprint of the entry: fingerprints are
/// asked for and no rule marks the entry's file name and stored size.
pub open spec fn wants_hash(
    meta: (Seq<char>, u64, u64),
    need_md5: bool,
    rules: Seq<(Seq<char>, u64)>,
) -> bool {
    need_md5 && !is_skipped(file_name_of(meta.0), meta.2, rules)
}

/// Whether the scan can read all it needs of the entry: where it is, and
/// its content where a fingerprint is taken.
pub open spec fn is_readable(
    entry: (Option<(Seq<char>, u64, u64)>, Option<Seq<u8>>),
    need_md5: bool,
    rules: Seq<(Seq<char>, u64)>,
) -> bool {
    entry.0 matches Some(meta) && (wants_hash(meta, need_md5, rules) ==> entry.1 is Some)
}

/// The record of the entry at position `index`.
pub open spec fn scanned_record(
    index: int,
    entry: (Option<(Seq<char>, u64, u64)>, Option<Seq<u8>>),
    need_md5: bool,
    rules: Seq<(Seq<char>, u64)>,
) -> RecordModel {
    let meta = entry.0->0;
    record_of(
        index as u64,
        meta.0,
        meta.1,
        meta.2,
        if wants_hash(meta, need_md5, rules) {
            Some(md5_hex(entry.1->0))
        } else {
            None
        },
    )
}

/// The records of the entries, in their order.
pub open spec fn scanned_records(
    entries: Seq<(Option<(Seq<char>, u64, u64)>, Option<Seq<u8>>)>,
    need_md5: bool,
    rules: Seq<(Seq<char>, u64)>,
) -> Seq<RecordModel> {
    Seq::new(entries.len(), |i: int| scanned_record(i, entries[i], need_md5, rules))
}

/// What a scan of the entries gives: the records of all of them, or the
/// position of the first that cannot be read.
pub open spec fn scan_of(
    entries: Seq<(Option<(Seq<char>, u64, u64)>, Option<Seq<u8>>)>,
    need_md5: bool,
    rules: Seq<(Seq<char>, u64)>,
) -> Result<Seq<RecordModel>, int> {
    if forall|i: int| 0 <= i < entries.len() ==> is_readable(#[trigger] entries[i], need_md5, rules) {
        Ok(scanned_records(entries, need_md5, rules))
    } else {
        Err(
            choose|i: int|
                0 <= i < entries.len() && !is_readable(#[trigger] entries[i], need_md5, rules)
                    && forall|j: int|
                    0 <= j < i ==> is_readable(#[trigger] entries[j], need_md5, rules),
        )
    }
}

/// Whether `r` is what a scan of the bytes `data` has to give.
pub open spec fn is_scan_of(
    r: Result<Vec<CliperInfo>, CliperError>,
    data: Seq<u8>,
    need_md5: bool,
    rules: Seq<(Seq<char>, u64)>,
) -> bool {
    match zip_entries(data) {
        None => r matches Err(e) && e is ArchiveOpenError,
        Some(entries) => match scan_of(entries, need_md5, rules) {
            Ok(records) => r matches Ok(v) && record_views(v@) == records,
            Err(i) => r matches Err(e) && e == CliperError::ArchiveEntryError(i as usize),
        },
    }
}

/// Scans an archive: one record for every entry, in the archive's order,
/// numbered from zero.
///
/// With `need_md5` every entry gets the fingerprint of its content, except
/// those that `rules` marks as stubs, which are kept without one and whose
/// content is not read. Fails with `ArchiveOpenError` where the bytes are no
/// archive, and with `ArchiveEntryError` and the position of the first entry
/// that cannot be read where there is one; nothing is skipped and no
/// partial scan comes back.
pub fn scan(data: Vec<u8>, need_md5: bool, rules: &Vec<SkipRule>) -> (r: Result<
    Vec<CliperInfo>,
    CliperError,
>)
    ensures
        is_scan_of(r, data@, need_md5, rule_views(rules@)),
{
    let mut archive = match open_archive(data) {
        Ok(archive) => archive,
        Err(e) => {
            return Err(CliperError::ArchiveOpenError(describe(&e)));
        },
    };
    let ghost entries = archive_entries(archive);
    let ghost marks = rule_views(rules@);
    let n = archive_len(&archive);
    let mut out: Vec<CliperInfo> = Vec::new();
    let mut i: usize = 0;
    while i < n
        invariant
            i <= n,
            n == entries.len(),
            archive_entries(archive) == entries,
            zip_entries(data@) == Some(entries),
            marks == rule_views(rules@),
            out@.len() == i,
            forall|k: int| 0 <= k < i ==> is_readable(#[trigger] entries[k], need_md5, marks),
            forall|k: int|
                0 <= k < i ==> (#[trigger] out@[k])@ == scanned_record(
                    k,
                    entries[k],
                    need_md5,
                    marks,
                ),
        decreases n - i,
    {
        let (path, size, download) = match entry_meta(&mut archive, i) {
            Some(meta) => meta,
            None => {
                proof {
                    lemma_first_unreadable(entries, need_md5, marks, i as int);
                }
                return Err(CliperError::ArchiveEntryError(i));
            },
        };
        let mut md5: Option<String> = None;
        if need_md5 {
            let file_name = read_file_name(path.as_str());
            if !should_skip(file_name.as_str(), download, rules) {
                match entry_data(&mut archive, i) {
                    Some(content) => {
                        md5 = Some(digest_hex(&content));
                    },
                    None => {
                        proof {
                            lemma_first_unreadable(entries, need_md5, marks, i as int);
                        }
                        return Err(CliperError::ArchiveEntryError(i));
                    },
                }
            }
        }
        let record = detail_record(i as u64, path, size, download, md5);
        out.push(record);
        i += 1;
    }
    proof {
        assert(record_views(out@) =~= scanned_records(entries, need_md5, marks));
    }
    Ok(out)
}

/// The first entry that cannot be read is what a scan reports.
pub proof fn lemma_first_unreadable(
    entries: Seq<(Option<(Seq<char>, u64, u64)>, Option<Seq<u8>>)>,
    need_md5: bool,
    rules: Seq<(Seq<char>, u64)>,
    at: int,
)
    requires
        0 <= at < entries.len(),
        !is_readable(entries[at], need_md5, rules),
        forall|j: int| 0 <= j < at ==> is_readable(#[trigger] entries[j], need_md5, rules),
    ensures
        scan_of(entries, need_md5, rules) == Err::<Seq<RecordModel>, int>(at),
{
    let found = choose|i: int|
        0 <= i < entries.len() && !is_readable(#[trigger] entries[i], need_md5, rules) && forall|
            j: int,
        |
            0 <= j < i ==> is_readable(#[trigger] entries[j], need_md5, rules);
    assert(found == at) by {
        if found < at {
            assert(is_readable(entries[found], need_md5, rules));
        }
        if at < found {
            assert(is_readable(entries[at], need_md5, rules));
        }
    }
}

/// Scans an archive without taking fingerprints.
pub fn read_detail_info(data: Vec<u8>) -> (r: Result<Vec<CliperInfo>, CliperError>)
    ensures
        is_scan_of(r, data@, false, default_rules()),
{
    let rules = default_skip_rules();
    scan(data, false, &rules)
}

/// Scans an archive and takes the fingerprint of every entry that is not
/// one of the stubs of the Android build tools.
pub fn read_detail_info_with_md5(data: Vec<u8>) -> (r: Result<Vec<CliperInfo>, CliperError>)
    ensures
        is_scan_of(r, data@, true, default_rules()),
{
    let rules = default_skip_rules();
    scan(data, true, &rules)
}

/// Whether `r` is what measuring the archive `data` has to give.
pub open spec fn is_size_of(r: Result<SizeData, CliperError>, filename: Seq<char>, data: Seq<u8>) -> bool {
    match zip_entries(data) {
        None => r matches Err(e) && e is ArchiveOpenError,
        Some(entries) => match scan_of(entries, false, default_rules()) {
            Ok(records) => if stored_total(records) <= u64::MAX {
                r matches Ok(d) && d.file_name@ == filename && d.measures(records)
                    && d.is_consistent()
            } else {
                r matches Err(e) && e is SizeOverflow
            },
            Err(i) => r matches Err(e) && e == CliperError::ArchiveEntryError(i as usize),
        },
    }
}

/// Measures an archive: the stored sizes of its entries, added up by
/// category and in all, under the name given.
///
/// Fails as the scan does, and with `SizeOverflow` where the stored sizes
/// add up to more than a `u64` holds.
pub fn read_size(filename: &str, data: Vec<u8>) -> (r: Result<SizeData, CliperError>)
    ensures
        is_size_of(r, filename@, data@),
{
    let records = match read_detail_info(data) {
        Ok(records) => records,
        Err(e) => {
            return Err(e);
        },
    };
    match checked_summarize(&records) {
        Some(d) => {
            let mut file_info = d;
            file_info.file_name = String::from_str(filename);
            Ok(file_info)
        },
        None => Err(CliperError::SizeOverflow),
    }
}

/// The launcher icon and the manifest of a package.
#[derive(Debug)]
pub struct PackageParts {
    /// The launcher icon in base64; empty where the package has none.
    pub icon: String,
    /// The bytes of the manifest; empty where the package has none.
    pub manifest: Vec<u8>,
}

/// Where a package keeps its launcher icon.
pub open spec fn icon_path() -> Seq<char> {
    "res/drawable-xxxhdpi-v4/ic_launcher.png"@
}

/// Where a package keeps its manifest.
pub open spec fn manifest_path() -> Seq<char> {
    "AndroidManifest.xml"@
}

/// What looking for the entry named `name` gives, when the entries are
/// tried in their order from position `from` on: the content of the first
/// entry of that name, `None` where there is none, or the position of the
/// first entry that cannot be read on the way.
pub open spec fn entry_named_from(
    entries: Seq<(Option<(Seq<char>, u64, u64)>, Option<Seq<u8>>)>,
    name: Seq<char>,
    from: int,
) -> Result<Option<Seq<u8>>, int>
    decreases entries.len() - from,
{
    if from < 0 || from >= entries.len() {
        Ok(None)
    } else {
        match entries[from].0 {
            None => Err(from),
            Some(meta) => if meta.0 == name {
                match entries[from].1 {
                    Some(content) => Ok(Some(content)),
                    None => Err(from),
                }
            } else {
                entry_named_from(entries, name, from + 1)
            },
        }
    }
}

/// The content of the first entry named `name`.
pub open spec fn entry_named(
    entries: Seq<(Option<(Seq<char>, u64, u64)>, Option<Seq<u8>>)>,
    name: Seq<char>,
) -> Result<Option<Seq<u8>>, int> {
    entry_named_from(entries, name, 0)
}

/// The icon as text.
pub open spec fn icon_text(icon: Option<Seq<u8>>) -> Seq<char> {
    match icon {
        Some(content) => base64_text(content),
        None => Seq::empty(),
    }
}

/// Whether `r` is what reading the icon and the manifest out of the
/// archive `data` has to give.
pub open spec fn is_package_of(r: Result<PackageParts, CliperError>, data: Seq<u8>) -> bool {
    match zip_entries(data) {
        None => r matches Err(e) && e is ArchiveOpenError,
        Some(entries) => match entry_named(entries, icon_path()) {
            Err(i) => r matches Err(e) && e == CliperError::ArchiveEntryError(i as usize),
            Ok(icon) => if icon matches Some(content) && !fits_base64(content.len()) {
                r matches Err(e) && e is SizeOverflow
            } else {
                match entry_named(entries, manifest_path()) {
                    Err(i) => r matches Err(e) && e == CliperError::ArchiveEntryError(i as usize),
                    Ok(manifest) => r matches Ok(parts) && parts.icon@ == icon_text(icon)
                        && parts.manifest@ == match manifest {
                        Some(content) => content,
                        None => Seq::empty(),
                    },
                }
            },
        },
    }
}

/// Looks for the first entry of the given name and reads its content.
fn read_entry_named(archive: &mut ZipArchive<Cursor<Vec<u8>>>, name: &str) -> (r: Result<
    Option<Vec<u8>>,
    CliperError,
>)
    ensures
        archive_entries(*final(archive)) == archive_entries(*old(archive)),
        match entry_named(archive_entries(*old(archive)), name@) {
            Ok(Some(content)) => r matches Ok(Some(found)) && found@ == content,
            Ok(None) => r matches Ok(None),
            Err(i) => r matches Err(e) && e == CliperError::ArchiveEntryError(i as usize),
        },
{
    let ghost entries = archive_entries(*archive);
    let n = archive_len(archive);
    let wanted = String::from_str(name);
    let mut i: usize = 0;
    while i < n
        invariant
            i <= n,
            n == entries.len(),
            wanted@ == name@,
            archive_entries(*archive) == entries,
            archive_entries(*old(archive)) == entries,
            entry_named(entries, name@) == entry_named_from(entries, name@, i as int),
        decreases n - i,
    {
        match entry_meta(archive, i) {
            None => {
                return Err(CliperError::ArchiveEntryError(i));
            },
            Some(meta) => {
                if meta.0 == wanted {
                    return match entry_data(archive, i) {
                        Some(content) => Ok(Some(content)),
                        None => Err(CliperError::ArchiveEntryError(i)),
                    };
                }
            },
        }
        i += 1;
    }
    Ok(None)
}

/// Reads the launcher icon and the manifest out of a package.
///
/// The icon comes back in base64, the manifest as its bytes; either is
/// empty where the package has no entry of that name. Fails with
/// `ArchiveOpenError` where the bytes are no archive, with
/// `ArchiveEntryError` and the position of an entry that cannot be read on
/// the way to the one looked for, and with `SizeOverflow` where the icon is
/// too large for its text to be made.
pub fn read_package_parts(data: Vec<u8>) -> (r: Result<PackageParts, CliperError>)
    ensures
        is_package_of(r, data@),
{
    let mut archive = match open_archive(data) {
        Ok(archive) => archive,
        Err(e) => {
            return Err(CliperError::ArchiveOpenError(describe(&e)));
        },
    };
    let icon = match read_entry_named(&mut archive, "res/drawable-xxxhdpi-v4/ic_launcher.png") {
        Ok(Some(content)) => {
            if !can_encode(&content) {
                return Err(CliperError::SizeOverflow);
            }
            encode_base64(&content)
        },
        Ok(None) => String::new(),
        Err(e) => {
            return Err(e);
        },
    };
    let manifest = match read_entry_named(&mut archive, "AndroidManifest.xml") {
        Ok(Some(content)) => content,
        Ok(None) => Vec::new(),
        Err(e) => {
            return Err(e);
        },
    };
    Ok(PackageParts { icon, manifest })
}

} // verus!
