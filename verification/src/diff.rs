//! Comparison of two scans by path.
//!
//! The path is the only identity that two independently built archives
//! share: a path of the new scan that the old one lacks is an addition, one
//! of the old scan that the new one lacks a removal, and one that both hold
//! with different stored sizes a change. Where a scan holds a path more than
//! once, its first record stands for the path and the later ones are left
//! out.

use vstd::prelude::*;
use vstd::string::*;
use crate::cliper_info::{path_of, CliperInfo};
use crate::order::{
    distinct_by, lemma_filter_distinct, lemma_sort_desc_distinct, size_of, sort_by_size_desc,
    sort_desc,
};

verus! {

/// One path that differs between two scans, with the change of its stored
/// size.
#[derive(Debug)]
pub struct DiffEntry {
    pub info: CliperInfo,
    /// New stored size minus old stored size; an added path counts as
    /// having had size zero, a removed one as having it now.
    pub size_delta: i128,
}

/// The three lists of a comparison.
#[derive(Debug)]
pub struct DiffResult {
    pub added: Vec<DiffEntry>,
    pub removed: Vec<DiffEntry>,
    pub changed: Vec<DiffEntry>,
}

/// The position of the first record of `s` whose path is `path`, or `-1`
/// where `s` has none.
pub open spec fn path_index(s: Seq<CliperInfo>, path: Seq<char>) -> int
    decreases s.len(),
{
    if s.len() == 0 {
        -1
    } else if path_index(s.drop_last(), path) >= 0 {
        path_index(s.drop_last(), path)
    } else if s.last().file_path@ == path {
        s.len() - 1
    } else {
        -1
    }
}

/// The records of `s` without those whose path an earlier record of `s`
/// already has.
pub open spec fn first_of_path(s: Seq<CliperInfo>) -> Seq<CliperInfo>
    decreases s.len(),
{
    if s.len() == 0 {
        s
    } else if path_index(s.drop_last(), s.last().file_path@) >= 0 {
        first_of_path(s.drop_last())
    } else {
        first_of_path(s.drop_last()).push(s.last())
    }
}

/// Holds of a record whose path `others` lacks.
pub open spec fn path_missing_in(others: Seq<CliperInfo>) -> spec_fn(CliperInfo) -> bool {
    |r: CliperInfo| path_index(others, r.file_path@) < 0
}

/// Holds of a record whose path `olds` has with another stored size.
pub open spec fn size_differs_in(olds: Seq<CliperInfo>) -> spec_fn(CliperInfo) -> bool {
    |r: CliperInfo|
        {
            let i = path_index(olds, r.file_path@);
            i >= 0 && olds[i].download != r.download
        }
}

/// The entry of an added record.
pub open spec fn added_entry() -> spec_fn(CliperInfo) -> DiffEntry {
    |r: CliperInfo| DiffEntry { info: r, size_delta: r.download as i128 }
}

/// The entry of a removed record.
pub open spec fn removed_entry() -> spec_fn(CliperInfo) -> DiffEntry {
    |r: CliperInfo| DiffEntry { info: r, size_delta: (-(r.download as int)) as i128 }
}

/// The entry of a record of the new scan whose path `olds` has too.
pub open spec fn changed_entry(olds: Seq<CliperInfo>) -> spec_fn(CliperInfo) -> DiffEntry {
    |r: CliperInfo|
        DiffEntry {
            info: r,
            size_delta: (r.download - olds[path_index(olds, r.file_path@)].download) as i128,
        }
}

/// One record for each path of `s`, largest stored size first.
pub open spec fn ranked(s: Seq<CliperInfo>) -> Seq<CliperInfo> {
    sort_desc(first_of_path(s), size_of::<CliperInfo>())
}

/// The additions: the paths of `news` that `olds` lacks.
pub open spec fn added_of(olds: Seq<CliperInfo>, news: Seq<CliperInfo>) -> Seq<DiffEntry> {
    ranked(news).filter(path_missing_in(olds)).map_values(added_entry())
}

/// The removals: the paths of `olds` that `news` lacks.
pub open spec fn removed_of(olds: Seq<CliperInfo>, news: Seq<CliperInfo>) -> Seq<DiffEntry> {
    ranked(olds).filter(path_missing_in(news)).map_values(removed_entry())
}

/// The changes: the paths that both scans hold with different stored sizes,
/// each with the record of the new scan.
pub open spec fn changed_of(olds: Seq<CliperInfo>, news: Seq<CliperInfo>) -> Seq<DiffEntry> {
    ranked(news).filter(size_differs_in(olds)).map_values(changed_entry(olds))
}

/// What `path_index` finds has the path, and no record before it has.
pub proof fn lemma_path_index(s: Seq<CliperInfo>, path: Seq<char>)
    ensures
        -1 <= path_index(s, path) < s.len(),
        path_index(s, path) >= 0 ==> s[path_index(s, path)].file_path@ == path,
        forall|j: int|
            0 <= j < s.len() && (j < path_index(s, path) || path_index(s, path) < 0)
                ==> s[j].file_path@ != path,
    decreases s.len(),
{
    if s.len() > 0 {
        lemma_path_index(s.drop_last(), path);
        assert forall|j: int|
            0 <= j < s.len() && (j < path_index(s, path) || path_index(s, path) < 0)
                implies s[j].file_path@ != path by {
            if j < s.len() - 1 {
                assert(s.drop_last()[j] == s[j]);
            }
        }
    }
}

/// The first record that has the path is what `path_index` finds.
pub proof fn lemma_path_index_unique(s: Seq<CliperInfo>, path: Seq<char>, i: int)
    requires
        -1 <= i < s.len(),
        i >= 0 ==> s[i].file_path@ == path,
        forall|j: int| 0 <= j < s.len() && (j < i || i < 0) ==> s[j].file_path@ != path,
    ensures
        path_index(s, path) == i,
{
    lemma_path_index(s, path);
}

/// `entries` has an entry for the path.
pub open spec fn lists_path(entries: Seq<DiffEntry>, path: Seq<char>) -> bool {
    exists|i: int| 0 <= i < entries.len() && (#[trigger] entries[i]).info.file_path@ == path
}

/// `first_of_path` keeps of each path the first record and no other.
pub proof fn lemma_first_of_path_contains(s: Seq<CliperInfo>, r: CliperInfo)
    ensures
        first_of_path(s).contains(r) <==> (path_index(s, r.file_path@) >= 0 && s[path_index(
            s,
            r.file_path@,
        )] == r),
    decreases s.len(),
{
    if s.len() > 0 {
        let init = s.drop_last();
        let x = s.last();
        lemma_first_of_path_contains(init, r);
        lemma_path_index(init, r.file_path@);
        lemma_path_index(init, x.file_path@);
        if path_index(init, r.file_path@) >= 0 {
            assert(init[path_index(init, r.file_path@)] == s[path_index(init, r.file_path@)]);
        }
        if path_index(init, x.file_path@) < 0 {
            let kept = first_of_path(init);
            if kept.push(x).contains(r) {
                let k = choose|k: int| 0 <= k < kept.push(x).len() && kept.push(x)[k] == r;
                if k < kept.len() {
                    assert(kept[k] == r);
                }
            }
            if kept.contains(r) {
                let k = choose|k: int| 0 <= k < kept.len() && kept[k] == r;
                assert(kept.push(x)[k] == r);
            }
            if r == x {
                assert(kept.push(x)[kept.len() as int] == r);
            }
        }
    }
}

/// A list made of `ranked(s)` by choosing records and giving each an entry
/// has an entry for a path exactly where `s` has the path and its first
/// record of it was chosen.
pub proof fn lemma_listed_paths(
    s: Seq<CliperInfo>,
    chosen: spec_fn(CliperInfo) -> bool,
    entry: spec_fn(CliperInfo) -> DiffEntry,
    path: Seq<char>,
)
    requires
        forall|r: CliperInfo| (#[trigger] entry(r)).info == r,
    ensures
        lists_path(ranked(s).filter(chosen).map_values(entry), path) <==> (path_index(s, path) >= 0
            && chosen(s[path_index(s, path)])),
{
    let picked = ranked(s).filter(chosen);
    let listed = picked.map_values(entry);
    lemma_path_index(s, path);
    if lists_path(listed, path) {
        let i = choose|i: int| 0 <= i < listed.len() && (#[trigger] listed[i]).info.file_path@ == path;
        let r = picked[i];
        assert(listed[i] == entry(r));
        assert(picked.contains(r));
        ranked(s).lemma_filter_pred(chosen, i);
        ranked(s).lemma_filter_contains_rev(chosen, r);
        crate::order::lemma_sort_desc_contains(first_of_path(s), size_of::<CliperInfo>(), r);
        lemma_first_of_path_contains(s, r);
    }
    if path_index(s, path) >= 0 && chosen(s[path_index(s, path)]) {
        let r = s[path_index(s, path)];
        lemma_first_of_path_contains(s, r);
        crate::order::lemma_sort_desc_contains(first_of_path(s), size_of::<CliperInfo>(), r);
        let k = choose|k: int| 0 <= k < ranked(s).len() && ranked(s)[k] == r;
        ranked(s).lemma_filter_contains(chosen, k);
        let m = choose|m: int| 0 <= m < picked.len() && picked[m] == r;
        assert(listed[m] == entry(r));
    }
}

/// The three lists share no path, and together they hold exactly the paths
/// that one scan has and the other lacks, or that both have with different
/// stored sizes. A path that both scans have with the same stored size, and
/// one that neither has, is in no list.
pub proof fn lemma_diff_partition(olds: Seq<CliperInfo>, news: Seq<CliperInfo>, path: Seq<char>)
    ensures
        lists_path(added_of(olds, news), path) <==> path_index(news, path) >= 0 && path_index(
            olds,
            path,
        ) < 0,
        lists_path(removed_of(olds, news), path) <==> path_index(olds, path) >= 0 && path_index(
            news,
            path,
        ) < 0,
        lists_path(changed_of(olds, news), path) <==> path_index(news, path) >= 0 && path_index(
            olds,
            path,
        ) >= 0 && news[path_index(news, path)].download != olds[path_index(olds, path)].download,
        !(lists_path(added_of(olds, news), path) && lists_path(removed_of(olds, news), path)),
        !(lists_path(added_of(olds, news), path) && lists_path(changed_of(olds, news), path)),
        !(lists_path(removed_of(olds, news), path) && lists_path(changed_of(olds, news), path)),
{
    lemma_path_index(news, path);
    lemma_path_index(olds, path);
    lemma_listed_paths(news, path_missing_in(olds), added_entry(), path);
    lemma_listed_paths(olds, path_missing_in(news), removed_entry(), path);
    lemma_listed_paths(news, size_differs_in(olds), changed_entry(olds), path);
}

/// The path of an entry, as characters.
pub open spec fn entry_path() -> spec_fn(DiffEntry) -> Seq<char> {
    |e: DiffEntry| e.info.file_path@
}

/// `first_of_path` keeps no path twice.
pub proof fn lemma_first_of_path_distinct(s: Seq<CliperInfo>)
    ensures
        distinct_by(first_of_path(s), path_of()),
    decreases s.len(),
{
    if s.len() > 0 {
        let init = s.drop_last();
        let kept = first_of_path(init);
        lemma_first_of_path_distinct(init);
        if path_index(init, s.last().file_path@) < 0 {
            let out = kept.push(s.last());
            assert forall|i: int, j: int| 0 <= i < j < out.len() implies path_of()(out[i])
                != path_of()(out[j]) by {
                if j == kept.len() {
                    assert(kept.contains(kept[i]));
                    lemma_first_of_path_contains(init, kept[i]);
                }
            }
        }
    }
}

/// A list made of `ranked(s)` by choosing records and giving each an entry
/// has no two entries for one path.
pub proof fn lemma_listed_once(
    s: Seq<CliperInfo>,
    chosen: spec_fn(CliperInfo) -> bool,
    entry: spec_fn(CliperInfo) -> DiffEntry,
)
    requires
        forall|r: CliperInfo| (#[trigger] entry(r)).info == r,
    ensures
        distinct_by(ranked(s).filter(chosen).map_values(entry), entry_path()),
{
    lemma_first_of_path_distinct(s);
    lemma_sort_desc_distinct(first_of_path(s), size_of::<CliperInfo>(), path_of());
    lemma_filter_distinct(ranked(s), chosen, path_of());
}

/// No list names a path twice.
pub proof fn lemma_diff_names_each_path_once(olds: Seq<CliperInfo>, news: Seq<CliperInfo>)
    ensures
        distinct_by(added_of(olds, news), entry_path()),
        distinct_by(removed_of(olds, news), entry_path()),
        distinct_by(changed_of(olds, news), entry_path()),
{
    lemma_listed_once(news, path_missing_in(olds), added_entry());
    lemma_listed_once(olds, path_missing_in(news), removed_entry());
    lemma_listed_once(news, size_differs_in(olds), changed_entry(olds));
}

/// The sign of every entry: an addition counts its stored size, a removal
/// the negative of it, and a change the new stored size less the old one,
/// where the old one is that of the first old record of the path.
pub proof fn lemma_diff_deltas(olds: Seq<CliperInfo>, news: Seq<CliperInfo>)
    ensures
        forall|i: int|
            0 <= i < added_of(olds, news).len() ==> (#[trigger] added_of(olds, news)[i]).size_delta
                == added_of(olds, news)[i].info.download,
        forall|i: int|
            0 <= i < removed_of(olds, news).len() ==> (#[trigger] removed_of(
                olds,
                news,
            )[i]).size_delta == -removed_of(olds, news)[i].info.download,
        forall|i: int|
            0 <= i < changed_of(olds, news).len() ==> {
                let e = #[trigger] changed_of(olds, news)[i];
                let k = path_index(olds, e.info.file_path@);
                &&& 0 <= k < olds.len()
                &&& olds[k].download != e.info.download
                &&& e.size_delta == e.info.download - olds[k].download
            },
{
    assert forall|i: int| 0 <= i < changed_of(olds, news).len() implies {
        let e = #[trigger] changed_of(olds, news)[i];
        let k = path_index(olds, e.info.file_path@);
        &&& 0 <= k < olds.len()
        &&& olds[k].download != e.info.download
        &&& e.size_delta == e.info.download - olds[k].download
    } by {
        ranked(news).lemma_filter_pred(size_differs_in(olds), i);
        let r = ranked(news).filter(size_differs_in(olds))[i];
        lemma_path_index(olds, r.file_path@);
    }
}

/// Looks among the first `upto` records of `s` for the first with the given
/// path.
pub fn find_path(s: &Vec<CliperInfo>, upto: usize, path: &String) -> (r: Option<usize>)
    requires
        upto <= s.len(),
    ensures
        match r {
            Some(i) => i == path_index(s@.take(upto as int), path@) && i < upto,
            None => path_index(s@.take(upto as int), path@) == -1,
        },
{
    let mut i: usize = 0;
    while i < upto
        invariant
            i <= upto <= s.len(),
            forall|j: int| 0 <= j < i ==> s@[j].file_path@ != path@,
        decreases upto - i,
    {
        if s[i].file_path == *path {
            proof {
                lemma_path_index_unique(s@.take(upto as int), path@, i as int);
            }
            return Some(i);
        }
        i += 1;
    }
    proof {
        lemma_path_index_unique(s@.take(upto as int), path@, -1);
    }
    None
}

/// Copies the records whose path no earlier record has.
pub fn first_of_each_path(records: &Vec<CliperInfo>) -> (r: Vec<CliperInfo>)
    ensures
        r@ == first_of_path(records@),
{
    let mut out: Vec<CliperInfo> = Vec::new();
    let mut i: usize = 0;
    while i < records.len()
        invariant
            i <= records.len(),
            out@ == first_of_path(records@.take(i as int)),
        decreases records.len() - i,
    {
        proof {
            assert(records@.take(i + 1).drop_last() =~= records@.take(i as int));
        }
        if find_path(records, i, &records[i].file_path).is_none() {
            out.push(records[i].clone());
        }
        i += 1;
    }
    assert(records@.take(records.len() as int) =~= records@);
    out
}

/// Compares the scan of an old archive with that of a new one.
///
/// Each list holds one entry for each of its paths and runs from the
/// largest stored size to the smallest; entries of equal size stand in the
/// order of their scan. A path that both scans hold with the same stored
/// size is in none of the lists.
pub fn diff_files(olds: &Vec<CliperInfo>, news: &Vec<CliperInfo>) -> (r: DiffResult)
    ensures
        r.added@ == added_of(olds@, news@),
        r.removed@ == removed_of(olds@, news@),
        r.changed@ == changed_of(olds@, news@),
{
    let new_ranked = sort_by_size_desc(first_of_each_path(news));
    let old_ranked = sort_by_size_desc(first_of_each_path(olds));
    let mut added: Vec<DiffEntry> = Vec::new();
    let mut changed: Vec<DiffEntry> = Vec::new();
    let mut i: usize = 0;
    proof {
        assert(olds@.take(olds.len() as int) =~= olds@);
        assert(news@.take(news.len() as int) =~= news@);
        reveal(Seq::filter);
    }
    while i < new_ranked.len()
        invariant
            i <= new_ranked.len(),
            olds@.take(olds.len() as int) == olds@,
            added@ == new_ranked@.take(i as int).filter(path_missing_in(olds@)).map_values(
                added_entry(),
            ),
            changed@ == new_ranked@.take(i as int).filter(size_differs_in(olds@)).map_values(
                changed_entry(olds@),
            ),
        decreases new_ranked.len() - i,
    {
        let record = &new_ranked[i];
        proof {
            let seen = new_ranked@.take(i as int);
            assert(new_ranked@.take(i + 1) =~= seen.push(*record));
            seen.lemma_filter_push(*record, path_missing_in(olds@));
            seen.lemma_filter_push(*record, size_differs_in(olds@));
            seen.filter(path_missing_in(olds@)).lemma_push_map_commute(added_entry(), *record);
            seen.filter(size_differs_in(olds@)).lemma_push_map_commute(
                changed_entry(olds@),
                *record,
            );
        }
        match find_path(olds, olds.len(), &record.file_path) {
            None => {
                added.push(DiffEntry { info: record.clone(), size_delta: record.download as i128 });
            },
            Some(k) => {
                if olds[k].download != record.download {
                    changed.push(
                        DiffEntry {
                            info: record.clone(),
                            size_delta: record.download as i128 - olds[k].download as i128,
                        },
                    );
                }
            },
        }
        i += 1;
    }
    let mut removed: Vec<DiffEntry> = Vec::new();
    let mut j: usize = 0;
    while j < old_ranked.len()
        invariant
            j <= old_ranked.len(),
            news@.take(news.len() as int) == news@,
            removed@ == old_ranked@.take(j as int).filter(path_missing_in(news@)).map_values(
                removed_entry(),
            ),
        decreases old_ranked.len() - j,
    {
        let record = &old_ranked[j];
        proof {
            let seen = old_ranked@.take(j as int);
            assert(old_ranked@.take(j + 1) =~= seen.push(*record));
            seen.lemma_filter_push(*record, path_missing_in(news@));
            seen.filter(path_missing_in(news@)).lemma_push_map_commute(removed_entry(), *record);
        }
        if find_path(news, news.len(), &record.file_path).is_none() {
            removed.push(DiffEntry { info: record.clone(), size_delta: -(record.download as i128) });
        }
        j += 1;
    }
    proof {
        assert(new_ranked@.take(new_ranked.len() as int) =~= new_ranked@);
        assert(old_ranked@.take(old_ranked.len() as int) =~= old_ranked@);
    }
    DiffResult { added, removed, changed }
}

/// The changes of size of the entries, added up.
pub open spec fn delta_sum(entries: Seq<DiffEntry>) -> int
    decreases entries.len(),
{
    if entries.len() == 0 {
        0
    } else {
        delta_sum(entries.drop_last()) + entries.last().size_delta
    }
}

/// Adding up the changes one after the other never leaves an `i128`.
pub open spec fn sums_fit(entries: Seq<DiffEntry>) -> bool {
    forall|k: int|
        0 <= k <= entries.len() ==> i128::MIN <= #[trigger] delta_sum(entries.take(k)) <= i128::MAX
}

/// The change of stored size that a list of entries amounts to; `None`
/// where adding them up one after the other leaves an `i128`.
pub fn total_delta(entries: &Vec<DiffEntry>) -> (r: Option<i128>)
    ensures
        r is Some <==> sums_fit(entries@),
        r matches Some(total) ==> total == delta_sum(entries@),
{
    let mut total: i128 = 0;
    let mut i: usize = 0;
    while i < entries.len()
        invariant
            i <= entries.len(),
            total == delta_sum(entries@.take(i as int)),
            forall|k: int|
                0 <= k <= i ==> i128::MIN <= #[trigger] delta_sum(entries@.take(k)) <= i128::MAX,
        decreases entries.len() - i,
    {
        proof {
            assert(entries@.take(i + 1).drop_last() =~= entries@.take(i as int));
        }
        match total.checked_add(entries[i].size_delta) {
            Some(next) => {
                total = next;
            },
            None => {
                assert(!(i128::MIN <= delta_sum(entries@.take(i + 1)) <= i128::MAX));
                return None;
            },
        }
        i += 1;
    }
    assert(entries@.take(entries.len() as int) =~= entries@);
    Some(total)
}

} // verus!
