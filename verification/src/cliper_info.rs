//! The detail record of one archive entry, and the fields that are derived
//! from its path.

use vstd::prelude::*;
use vstd::string::*;
use crate::category::{classify, read_type, Category};
use crate::order::BySize;
use crate::text::{
    chars_of, last_index, lemma_last_index, lemma_last_index_of_tail, rfind, slice_of,
};

verus! {

/// What stands after the last `/` of a path; empty where the path has no `/`.
pub open spec fn file_name_of(path: Seq<char>) -> Seq<char> {
    let slash = last_index(path, '/');
    if slash < 0 {
        Seq::empty()
    } else {
        path.subrange(slash + 1, path.len() as int)
    }
}

/// The final segment of a path: what stands after its last `/`, or all of it
/// where it has none.
pub open spec fn last_segment(path: Seq<char>) -> Seq<char> {
    path.subrange(last_index(path, '/') + 1, path.len() as int)
}

/// The final segment from its last `.` on; empty where the segment has no
/// `.` or begins with its only one.
pub open spec fn file_ext_of(path: Seq<char>) -> Seq<char> {
    let segment = last_segment(path);
    let dot = last_index(segment, '.');
    if dot <= 0 {
        Seq::empty()
    } else {
        segment.subrange(dot, segment.len() as int)
    }
}

/// The path without its final segment and the `/` before it; empty where
/// the path has no `/`.
pub open spec fn folder_of(path: Seq<char>) -> Seq<char> {
    let slash = last_index(path, '/');
    if slash < 0 {
        Seq::empty()
    } else {
        path.subrange(0, slash)
    }
}

/// An extension is empty or begins with a dot.
pub proof fn lemma_file_ext_begins_with_dot(path: Seq<char>)
    ensures
        file_ext_of(path).len() > 0 ==> file_ext_of(path)[0] == '.',
{
    lemma_last_index(path, '/');
    lemma_last_index(last_segment(path), '.');
}

/// One archive entry with everything the reports show of it.
#[derive(Debug)]
pub struct CliperInfo {
    /// Position of the entry in the archive, counted from zero.
    pub id: u64,
    /// Archive-internal path, segments separated by `/`.
    pub file_path: String,
    pub name: String,
    /// Size when unpacked.
    pub size: u64,
    /// Size as stored in the archive.
    pub download: u64,
    pub file_type: Category,
    pub file_ext: String,
    pub file_folder: String,
    /// Content fingerprint; `None` where none was computed.
    pub md5: Option<String>,
}

/// What a detail record says, as plain values.
pub struct RecordModel {
    pub id: u64,
    pub file_path: Seq<char>,
    pub name: Seq<char>,
    pub size: u64,
    pub download: u64,
    pub file_type: Category,
    pub file_ext: Seq<char>,
    pub file_folder: Seq<char>,
    pub md5: Option<Seq<char>>,
}

/// The record of the entry at position `id` whose path, sizes and
/// fingerprint are given: the other fields follow from the path.
pub open spec fn record_of(
    id: u64,
    file_path: Seq<char>,
    size: u64,
    download: u64,
    md5: Option<Seq<char>>,
) -> RecordModel {
    RecordModel {
        id,
        file_path,
        name: file_name_of(file_path),
        size,
        download,
        file_type: classify(file_path),
        file_ext: file_ext_of(file_path),
        file_folder: folder_of(file_path),
        md5,
    }
}

impl View for CliperInfo {
    type V = RecordModel;

    open spec fn view(&self) -> RecordModel {
        RecordModel {
            id: self.id,
            file_path: self.file_path@,
            name: self.name@,
            size: self.size,
            download: self.download,
            file_type: self.file_type,
            file_ext: self.file_ext@,
            file_folder: self.file_folder@,
            md5: match self.md5 {
                Some(h) => Some(h@),
                None => None,
            },
        }
    }
}

/// The path of a record, as characters.
pub open spec fn path_of() -> spec_fn(CliperInfo) -> Seq<char> {
    |r: CliperInfo| r.file_path@
}

/// What each record says.
pub open spec fn record_views(v: Seq<CliperInfo>) -> Seq<RecordModel> {
    v.map_values(|r: CliperInfo| r@)
}

impl CliperInfo {
    /// The name, extension, folder and category are those that the path
    /// gives.
    pub open spec fn is_derived(&self) -> bool {
        self@ == record_of(self.id, self.file_path@, self.size, self.download, self@.md5)
    }

    /// The record of an empty path: all sizes zero, no fingerprint.
    pub fn new() -> (r: CliperInfo)
        ensures
            r.id == 0,
            r.file_path@.len() == 0,
            r.name@.len() == 0,
            r.size == 0,
            r.download == 0,
            r.file_type == Category::Other,
            r.file_ext@.len() == 0,
            r.file_folder@.len() == 0,
            r.md5 is None,
    {
        CliperInfo {
            id: 0,
            file_path: String::new(),
            name: String::new(),
            size: 0,
            download: 0,
            file_type: Category::Other,
            file_ext: String::new(),
            file_folder: String::new(),
            md5: None,
        }
    }

    /// A copy that is equal to the record field by field.
    pub fn clone(&self) -> (r: CliperInfo)
        ensures
            r == *self,
    {
        let md5 = match &self.md5 {
            Some(h) => Some(h.clone()),
            None => None,
        };
        CliperInfo {
            id: self.id,
            file_path: self.file_path.clone(),
            name: self.name.clone(),
            size: self.size,
            download: self.download,
            file_type: self.file_type,
            file_ext: self.file_ext.clone(),
            file_folder: self.file_folder.clone(),
            md5,
        }
    }
}

/// Records are ranked by their stored size.
impl BySize for CliperInfo {
    open spec fn size_key(&self) -> u64 {
        self.download
    }

    fn size_key_of(&self) -> (k: u64) {
        self.download
    }
}

/// The file name of a path: what stands after its last `/`.
pub fn read_file_name(name: &str) -> (r: String)
    ensures
        r@ == file_name_of(name@),
{
    let path = chars_of(name);
    let end: usize = path.len();
    match rfind(&path, '/') {
        Some(slash) => slice_of(name, slash + 1, end),
        None => String::new(),
    }
}

/// The extension of a path: its final segment from the last `.` on.
pub fn read_file_ext(name: &str) -> (r: String)
    ensures
        r@ == file_ext_of(name@),
        r@.len() > 0 ==> r@[0] == '.',
{
    let path = chars_of(name);
    let end: usize = path.len();
    let start: usize = match rfind(&path, '/') {
        Some(slash) => slash + 1,
        None => 0,
    };
    proof {
        lemma_last_index_of_tail(name@, '.', start as int);
        lemma_file_ext_begins_with_dot(name@);
    }
    match rfind(&path, '.') {
        Some(dot) => {
            if dot > start {
                assert(last_segment(name@).subrange(dot - start, last_segment(name@).len() as int)
                    =~= name@.subrange(dot as int, name@.len() as int));
                slice_of(name, dot, end)
            } else {
                String::new()
            }
        },
        None => String::new(),
    }
}

/// The folder of a path: what stands before its last `/`.
pub fn read_file_folder(name: &str) -> (r: String)
    ensures
        r@ == folder_of(name@),
{
    let path = chars_of(name);
    match rfind(&path, '/') {
        Some(slash) => slice_of(name, 0, slash),
        None => String::new(),
    }
}

/// Puts the fields of one entry together.
pub fn create_cliper_item(
    id: u64,
    file_path: String,
    name: String,
    size: u64,
    download: u64,
    file_type: Category,
    file_ext: String,
    file_folder: String,
    md5: Option<String>,
) -> (r: CliperInfo)
    ensures
        r == (CliperInfo {
            id,
            file_path,
            name,
            size,
            download,
            file_type,
            file_ext,
            file_folder,
            md5,
        }),
{
    let mut cliper_info = CliperInfo::new();
    cliper_info.id = id;
    cliper_info.file_path = file_path;
    cliper_info.name = name;
    cliper_info.size = size;
    cliper_info.download = download;
    cliper_info.file_type = file_type;
    cliper_info.file_ext = file_ext;
    cliper_info.file_folder = file_folder;
    cliper_info.md5 = md5;
    cliper_info
}

/// The detail record of the entry that stands at position `id` of an
/// archive, with every derived field computed from `file_path`.
pub fn detail_record(id: u64, file_path: String, size: u64, download: u64, md5: Option<String>) -> (r:
    CliperInfo)
    ensures
        r.id == id,
        r.file_path == file_path,
        r.size == size,
        r.download == download,
        r.md5 == md5,
        r.is_derived(),
        r@ == record_of(
            id,
            file_path@,
            size,
            download,
            match md5 {
                Some(h) => Some(h@),
                None => None,
            },
        ),
{
    let name = read_file_name(file_path.as_str());
    let file_ext = read_file_ext(file_path.as_str());
    let file_folder = read_file_folder(file_path.as_str());
    let file_type = read_type(file_path.as_str());
    create_cliper_item(id, file_path, name, size, download, file_type, file_ext, file_folder, md5)
}

} // verus!
