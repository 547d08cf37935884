//! Entries that hold the same content.
//!
//! Records are grouped by their fingerprint. A record without a fingerprint
//! belongs to no group, and a fingerprint that only one record has makes no
//! group either.

use vstd::prelude::*;
use vstd::string::*;
use crate::category::Category;
use crate::cliper_info::{path_of, CliperInfo};
use crate::error::CliperError;
use crate::text::texts;
use crate::order::{
    distinct_by, lemma_filter_distinct, lemma_sort_desc_contains, lemma_sort_desc_distinct,
    lemma_sort_desc_map, size_of, sort_by_size_desc, sort_desc, BySize,
};

verus! {

/// A record as it stands in a group: a detail record that has a
/// fingerprint.
#[derive(Debug)]
pub struct Md5SizeInfo {
    pub id: u64,
    pub file_path: String,
    pub name: String,
    pub size: u64,
    pub download: u64,
    pub file_type: Category,
    pub file_ext: String,
    pub file_folder: String,
    pub md5: String,
}

/// The entries that share one fingerprint.
#[derive(Debug)]
pub struct Md5Group {
    pub md5: String,
    /// The paths of the members, in the order of the scan.
    pub file_names: Vec<String>,
    /// The unpacked sizes of the members, added up.
    pub size: u64,
}

/// What a group says, as plain values.
pub struct GroupModel {
    pub md5: Seq<char>,
    pub file_names: Seq<Seq<char>>,
    pub size: int,
}

impl View for Md5Group {
    type V = GroupModel;

    open spec fn view(&self) -> GroupModel {
        GroupModel { md5: self.md5@, file_names: texts(self.file_names@), size: self.size as int }
    }
}

impl BySize for Md5Group {
    open spec fn size_key(&self) -> u64 {
        self.size
    }

    fn size_key_of(&self) -> (k: u64) {
        self.size
    }
}

/// What a group says, as a function of the group.
pub open spec fn group_view() -> spec_fn(Md5Group) -> GroupModel {
    |g: Md5Group| g@
}

/// What each group says.
pub open spec fn group_views(v: Seq<Md5Group>) -> Seq<GroupModel> {
    v.map_values(group_view())
}

/// The fingerprint of a record, as characters.
pub open spec fn hash_view(r: CliperInfo) -> Option<Seq<char>> {
    match r.md5 {
        Some(h) => Some(h@),
        None => None,
    }
}

/// The fingerprints of `s`, each once, in the order in which the scan first
/// meets them.
pub open spec fn hashes_seen(s: Seq<CliperInfo>) -> Seq<Seq<char>>
    decreases s.len(),
{
    if s.len() == 0 {
        Seq::empty()
    } else {
        let before = hashes_seen(s.drop_last());
        match hash_view(s.last()) {
            Some(h) => if before.contains(h) {
                before
            } else {
                before.push(h)
            },
            None => before,
        }
    }
}

/// Holds of a record whose fingerprint is `h`.
pub open spec fn has_hash(h: Seq<char>) -> spec_fn(CliperInfo) -> bool {
    |r: CliperInfo| hash_view(r) == Some(h)
}

/// The records of `s` whose fingerprint is `h`, in the order of the scan.
pub open spec fn sharing(s: Seq<CliperInfo>, h: Seq<char>) -> Seq<CliperInfo> {
    s.filter(has_hash(h))
}

/// A record as a member of a group.
pub open spec fn size_info() -> spec_fn(CliperInfo) -> Md5SizeInfo {
    |r: CliperInfo|
        Md5SizeInfo {
            id: r.id,
            file_path: r.file_path,
            name: r.name,
            size: r.size,
            download: r.download,
            file_type: r.file_type,
            file_ext: r.file_ext,
            file_folder: r.file_folder,
            md5: r.md5->0,
        }
}

/// The unpacked sizes of the records, added up.
pub open spec fn unpacked_size(s: Seq<CliperInfo>) -> int
    decreases s.len(),
{
    if s.len() == 0 {
        0
    } else {
        unpacked_size(s.drop_last()) + s.last().size
    }
}

/// The group of the fingerprint `h`: the paths of the records that share it
/// and the sum of their unpacked sizes.
pub open spec fn group_of(s: Seq<CliperInfo>, h: Seq<char>) -> GroupModel {
    GroupModel {
        md5: h,
        file_names: sharing(s, h).map_values(path_of()),
        size: unpacked_size(sharing(s, h)),
    }
}

/// Holds of a fingerprint that two records of `s` or more have.
pub open spec fn is_shared(s: Seq<CliperInfo>) -> spec_fn(Seq<char>) -> bool {
    |h: Seq<char>| sharing(s, h).len() >= 2
}

/// The group of a fingerprint, as a function of the fingerprint.
pub open spec fn group_in(s: Seq<CliperInfo>) -> spec_fn(Seq<char>) -> GroupModel {
    |h: Seq<char>| group_of(s, h)
}

/// The size of a group, as a function.
pub open spec fn group_size() -> spec_fn(GroupModel) -> int {
    |g: GroupModel| g.size
}

/// The groups of `s` in the order in which the scan first meets their
/// fingerprints.
pub open spec fn groups_in_scan_order(s: Seq<CliperInfo>) -> Seq<GroupModel> {
    hashes_seen(s).filter(is_shared(s)).map_values(group_in(s))
}

/// The duplicate groups of `s`, largest first; groups of equal size in the
/// order in which the scan first meets their fingerprints.
pub open spec fn duplicate_groups(s: Seq<CliperInfo>) -> Seq<GroupModel> {
    sort_desc(groups_in_scan_order(s), group_size())
}

/// The size of every group fits into a `u64`.
pub open spec fn groups_fit(s: Seq<CliperInfo>) -> bool {
    forall|h: Seq<char>| #[trigger]
        sharing(s, h).len() >= 2 ==> unpacked_size(sharing(s, h)) <= u64::MAX
}

/// A fingerprint is among those seen exactly if some record has it.
pub proof fn lemma_hashes_seen(s: Seq<CliperInfo>, h: Seq<char>)
    ensures
        hashes_seen(s).contains(h) <==> sharing(s, h).len() > 0,
        hashes_seen(s).no_duplicates(),
    decreases s.len(),
{
    reveal(Seq::filter);
    if s.len() > 0 {
        let before = hashes_seen(s.drop_last());
        lemma_hashes_seen(s.drop_last(), h);
        match hash_view(s.last()) {
            Some(x) => {
                if !before.contains(x) {
                    assert(before.push(x)[before.len() as int] == x);
                    if before.contains(h) {
                        let k = choose|k: int| 0 <= k < before.len() && before[k] == h;
                        assert(before.push(x)[k] == h);
                    }
                }
            },
            None => {},
        }
    }
}

/// `groups` has a group for the fingerprint.
pub open spec fn has_group(groups: Seq<GroupModel>, h: Seq<char>) -> bool {
    exists|i: int| 0 <= i < groups.len() && (#[trigger] groups[i]).md5 == h
}

/// Every duplicate group is the group of its fingerprint and has two
/// members or more.
pub proof fn lemma_groups_have_two_members(s: Seq<CliperInfo>, i: int)
    requires
        0 <= i < duplicate_groups(s).len(),
    ensures
        duplicate_groups(s)[i] == group_of(s, duplicate_groups(s)[i].md5),
        sharing(s, duplicate_groups(s)[i].md5).len() >= 2,
        duplicate_groups(s)[i].file_names.len() >= 2,
{
    let g = duplicate_groups(s)[i];
    let shared = hashes_seen(s).filter(is_shared(s));
    assert(duplicate_groups(s).contains(g));
    lemma_sort_desc_contains(groups_in_scan_order(s), group_size(), g);
    let m = choose|m: int| 0 <= m < groups_in_scan_order(s).len() && groups_in_scan_order(s)[m] == g;
    hashes_seen(s).lemma_filter_pred(is_shared(s), m);
    assert(g == group_in(s)(shared[m]));
}

/// A fingerprint has a duplicate group exactly if two records or more have
/// it: every fingerprint that is shared is reported, and none that only one
/// record has.
pub proof fn lemma_groups_are_the_shared_hashes(s: Seq<CliperInfo>, h: Seq<char>)
    ensures
        has_group(duplicate_groups(s), h) <==> sharing(s, h).len() >= 2,
{
    let groups = duplicate_groups(s);
    let shared = hashes_seen(s).filter(is_shared(s));
    if has_group(groups, h) {
        let i = choose|i: int| 0 <= i < groups.len() && (#[trigger] groups[i]).md5 == h;
        lemma_groups_have_two_members(s, i);
    }
    if sharing(s, h).len() >= 2 {
        lemma_hashes_seen(s, h);
        let k = choose|k: int| 0 <= k < hashes_seen(s).len() && hashes_seen(s)[k] == h;
        hashes_seen(s).lemma_filter_contains(is_shared(s), k);
        let m = choose|m: int| 0 <= m < shared.len() && shared[m] == h;
        assert(groups_in_scan_order(s)[m] == group_of(s, h));
        assert(groups_in_scan_order(s).contains(group_of(s, h)));
        lemma_sort_desc_contains(groups_in_scan_order(s), group_size(), group_of(s, h));
        let i = choose|i: int| 0 <= i < groups.len() && groups[i] == group_of(s, h);
        assert(groups[i].md5 == h);
    }
}

/// The fingerprint of a group, as a function.
pub open spec fn group_hash() -> spec_fn(GroupModel) -> Seq<char> {
    |g: GroupModel| g.md5
}

/// No fingerprint has two groups.
pub proof fn lemma_groups_have_distinct_hashes(s: Seq<CliperInfo>)
    ensures
        distinct_by(duplicate_groups(s), group_hash()),
{
    let same = |h: Seq<char>| h;
    lemma_hashes_seen(s, Seq::empty());
    assert(distinct_by(hashes_seen(s), same));
    lemma_filter_distinct(hashes_seen(s), is_shared(s), same);
    lemma_sort_desc_distinct(groups_in_scan_order(s), group_size(), group_hash());
}

/// Whether one of the strings spells out `h`.
pub fn contains_text(v: &Vec<String>, h: &String) -> (b: bool)
    ensures
        b == texts(v@).contains(h@),
{
    let mut i: usize = 0;
    while i < v.len()
        invariant
            i <= v.len(),
            forall|j: int| 0 <= j < i ==> texts(v@)[j] != h@,
        decreases v.len() - i,
    {
        if v[i] == *h {
            assert(texts(v@)[i as int] == h@);
            return true;
        }
        i += 1;
    }
    false
}

/// The fingerprints of a scan, each once, in the order in which the scan
/// first meets them.
pub fn collect_hashes(data: &Vec<CliperInfo>) -> (r: Vec<String>)
    ensures
        texts(r@) == hashes_seen(data@),
{
    let mut out: Vec<String> = Vec::new();
    let mut i: usize = 0;
    assert(texts(out@) =~= hashes_seen(data@.take(0)));
    while i < data.len()
        invariant
            i <= data.len(),
            texts(out@) == hashes_seen(data@.take(i as int)),
        decreases data.len() - i,
    {
        proof {
            assert(data@.take(i + 1).drop_last() =~= data@.take(i as int));
        }
        match &data[i].md5 {
            Some(h) => {
                if !contains_text(&out, h) {
                    let ghost before = out@;
                    out.push(h.clone());
                    assert(texts(out@) =~= texts(before).push(h@));
                }
            },
            None => {},
        }
        i += 1;
    }
    assert(data@.take(data.len() as int) =~= data@);
    out
}

/// The records of a scan that have the fingerprint `h`, as members of its
/// group.
pub fn bucket_of(data: &Vec<CliperInfo>, h: &String) -> (r: Vec<Md5SizeInfo>)
    ensures
        r@ == sharing(data@, h@).map_values(size_info()),
{
    let mut out: Vec<Md5SizeInfo> = Vec::new();
    let mut i: usize = 0;
    proof {
        reveal(Seq::filter);
        assert(out@ =~= sharing(data@.take(0), h@).map_values(size_info()));
    }
    while i < data.len()
        invariant
            i <= data.len(),
            out@ == sharing(data@.take(i as int), h@).map_values(size_info()),
        decreases data.len() - i,
    {
        let record = &data[i];
        proof {
            let seen = data@.take(i as int);
            assert(data@.take(i + 1) =~= seen.push(*record));
            seen.lemma_filter_push(*record, has_hash(h@));
            seen.filter(has_hash(h@)).lemma_push_map_commute(size_info(), *record);
        }
        match &record.md5 {
            Some(m) => {
                if *m == *h {
                    out.push(
                        Md5SizeInfo {
                            id: record.id,
                            file_path: record.file_path.clone(),
                            name: record.name.clone(),
                            size: record.size,
                            download: record.download,
                            file_type: record.file_type,
                            file_ext: record.file_ext.clone(),
                            file_folder: record.file_folder.clone(),
                            md5: m.clone(),
                        },
                    );
                }
            },
            None => {},
        }
        i += 1;
    }
    assert(data@.take(data.len() as int) =~= data@);
    out
}

/// Groups the records of a scan by fingerprint. The result holds one pair
/// for each fingerprint, in the order in which the scan first meets them,
/// and no fingerprint twice; the members of a pair stand in the order of the
/// scan.
pub fn group_by_md5(data: Vec<CliperInfo>) -> (r: Vec<(String, Vec<Md5SizeInfo>)>)
    ensures
        r@.len() == hashes_seen(data@).len(),
        forall|i: int|
            0 <= i < r@.len() ==> (#[trigger] r@[i]).0@ == hashes_seen(data@)[i] && r@[i].1@
                == sharing(data@, hashes_seen(data@)[i]).map_values(size_info()),
{
    let hashes = collect_hashes(&data);
    let mut out: Vec<(String, Vec<Md5SizeInfo>)> = Vec::new();
    let mut i: usize = 0;
    while i < hashes.len()
        invariant
            i <= hashes.len(),
            texts(hashes@) == hashes_seen(data@),
            out@.len() == i,
            forall|k: int|
                0 <= k < i ==> (#[trigger] out@[k]).0@ == hashes_seen(data@)[k] && out@[k].1@
                    == sharing(data@, hashes_seen(data@)[k]).map_values(size_info()),
        decreases hashes.len() - i,
    {
        assert(texts(hashes@)[i as int] == hashes@[i as int]@);
        let members = bucket_of(&data, &hashes[i]);
        out.push((hashes[i].clone(), members));
        i += 1;
    }
    assert(texts(hashes@).len() == hashes@.len());
    out
}

/// The unpacked sizes of the members, added up.
pub open spec fn member_sizes(members: Seq<Md5SizeInfo>) -> int
    decreases members.len(),
{
    if members.len() == 0 {
        0
    } else {
        member_sizes(members.drop_last()) + members.last().size
    }
}

/// The path of a member, as characters.
pub open spec fn member_path() -> spec_fn(Md5SizeInfo) -> Seq<char> {
    |m: Md5SizeInfo| m.file_path@
}

/// The members of a group weigh what their records weigh.
pub proof fn lemma_member_sizes(s: Seq<CliperInfo>)
    ensures
        member_sizes(s.map_values(size_info())) == unpacked_size(s),
    decreases s.len(),
{
    if s.len() > 0 {
        lemma_member_sizes(s.drop_last());
        assert(s.map_values(size_info()).drop_last() =~= s.drop_last().map_values(size_info()));
    }
}

/// The size of a part of a group is no more than that of the whole.
pub proof fn lemma_member_sizes_of_prefix(members: Seq<Md5SizeInfo>, n: int)
    requires
        0 <= n <= members.len(),
    ensures
        0 <= member_sizes(members.take(n)) <= member_sizes(members),
    decreases members.len(),
{
    if members.len() == 0 {
        assert(members.take(n) =~= members);
    } else if n == members.len() {
        assert(members.take(n) =~= members);
        lemma_member_sizes_of_prefix(members.drop_last(), n - 1);
        assert(members.drop_last().take(n - 1) =~= members.drop_last());
    } else {
        lemma_member_sizes_of_prefix(members.drop_last(), n);
        assert(members.drop_last().take(n) =~= members.take(n));
    }
}

/// Adds up the unpacked sizes of the members; `None` where the sum exceeds
/// a `u64`.
pub fn total_size(members: &Vec<Md5SizeInfo>) -> (r: Option<u64>)
    ensures
        r is Some <==> member_sizes(members@) <= u64::MAX,
        r matches Some(n) ==> n == member_sizes(members@),
{
    let mut sum: u64 = 0;
    let mut i: usize = 0;
    while i < members.len()
        invariant
            i <= members.len(),
            sum == member_sizes(members@.take(i as int)),
        decreases members.len() - i,
    {
        proof {
            assert(members@.take(i + 1).drop_last() =~= members@.take(i as int));
            lemma_member_sizes_of_prefix(members@, i + 1);
        }
        match sum.checked_add(members[i].size) {
            Some(n) => {
                sum = n;
            },
            None => {
                return None;
            },
        }
        i += 1;
    }
    assert(members@.take(members.len() as int) =~= members@);
    Some(sum)
}

/// The paths of the members, in their order.
pub fn member_paths(members: &Vec<Md5SizeInfo>) -> (r: Vec<String>)
    ensures
        texts(r@) == members@.map_values(member_path()),
{
    let mut out: Vec<String> = Vec::new();
    let mut i: usize = 0;
    while i < members.len()
        invariant
            i <= members.len(),
            texts(out@) =~= members@.take(i as int).map_values(member_path()),
        decreases members.len() - i,
    {
        let ghost before = out@;
        out.push(members[i].file_path.clone());
        proof {
            assert(texts(out@) =~= texts(before).push(members@[i as int].file_path@));
            assert(members@.take(i + 1).map_values(member_path()) =~= members@.take(
                i as int,
            ).map_values(member_path()).push(members@[i as int].file_path@));
        }
        i += 1;
    }
    assert(members@.take(members.len() as int) =~= members@);
    out
}

/// The duplicate groups of a scan, largest first.
///
/// A group is made for every fingerprint that two records or more have. It
/// names the paths of its members in the order of the scan and gives the
/// sum of their unpacked sizes. Groups of equal size stand in the order in
/// which the scan first meets their fingerprints. Fails with `SizeOverflow`
/// exactly where the size of some group exceeds a `u64`.
pub fn read_same_info(data: Vec<CliperInfo>) -> (r: Result<Vec<Md5Group>, CliperError>)
    ensures
        r is Ok <==> groups_fit(data@),
        match r {
            Ok(groups) => group_views(groups@) == duplicate_groups(data@),
            Err(e) => e is SizeOverflow,
        },
{
    let ghost s = data@;
    let ghost hashes = hashes_seen(s);
    let buckets = group_by_md5(data);
    let mut groups: Vec<Md5Group> = Vec::new();
    let mut i: usize = 0;
    proof {
        reveal(Seq::filter);
        assert(group_views(groups@) =~= hashes.take(0).filter(is_shared(s)).map_values(group_in(s)));
    }
    while i < buckets.len()
        invariant
            i <= buckets.len(),
            s == data@,
            hashes == hashes_seen(s),
            buckets@.len() == hashes.len(),
            forall|k: int|
                0 <= k < buckets@.len() ==> (#[trigger] buckets@[k]).0@ == hashes[k] && buckets@[k].1@
                    == sharing(s, hashes[k]).map_values(size_info()),
            group_views(groups@) == hashes.take(i as int).filter(is_shared(s)).map_values(
                group_in(s),
            ),
            forall|k: int|
                0 <= k < i && sharing(s, #[trigger] hashes[k]).len() >= 2 ==> unpacked_size(
                    sharing(s, hashes[k]),
                ) <= u64::MAX,
        decreases buckets.len() - i,
    {
        let bucket = &buckets[i];
        let ghost h = hashes[i as int];
        proof {
            let seen = hashes.take(i as int);
            assert(hashes.take(i + 1) =~= seen.push(h));
            seen.lemma_filter_push(h, is_shared(s));
            seen.filter(is_shared(s)).lemma_push_map_commute(group_in(s), h);
            lemma_member_sizes(sharing(s, h));
            assert(bucket.0@ == h);
            assert(bucket.1@.len() == sharing(s, h).len());
        }
        if bucket.1.len() >= 2 {
            match total_size(&bucket.1) {
                Some(size) => {
                    let file_names = member_paths(&bucket.1);
                    let group = Md5Group { md5: bucket.0.clone(), file_names, size };
                    proof {
                        assert(bucket.1@.map_values(member_path()) =~= sharing(s, h).map_values(
                            path_of(),
                        ));
                        assert(group@ == group_of(s, h));
                        let before = groups@;
                        assert(group_views(before.push(group)) =~= group_views(before).push(group@));
                    }
                    groups.push(group);
                },
                None => {
                    assert(!groups_fit(s)) by {
                        assert(sharing(s, h).len() >= 2 && unpacked_size(sharing(s, h)) > u64::MAX);
                    }
                    return Err(CliperError::SizeOverflow);
                },
            }
        }
        i += 1;
    }
    let sorted = sort_by_size_desc(groups);
    proof {
        assert(hashes.take(hashes.len() as int) =~= hashes);
        lemma_sort_desc_map(groups@, group_view(), size_of::<Md5Group>(), group_size());
        assert forall|x: Seq<char>| #[trigger] sharing(s, x).len() >= 2 implies unpacked_size(
            sharing(s, x),
        ) <= u64::MAX by {
            lemma_hashes_seen(s, x);
            let k = choose|k: int| 0 <= k < hashes.len() && hashes[k] == x;
            assert(sharing(s, hashes[k]).len() >= 2);
        }
    }
    Ok(sorted)
}

} // verus!
