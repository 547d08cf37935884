//! Stored size by category.

use vstd::prelude::*;
use vstd::string::*;
use crate::category::Category;
use crate::cliper_info::{record_views, CliperInfo, RecordModel};

verus! {

/// The stored sizes of the records of category `c`, added up.
pub open spec fn stored_in(s: Seq<RecordModel>, c: Category) -> int
    decreases s.len(),
{
    if s.len() == 0 {
        0
    } else if s.last().file_type == c {
        stored_in(s.drop_last(), c) + s.last().download
    } else {
        stored_in(s.drop_last(), c)
    }
}

/// The stored sizes of all records, added up.
pub open spec fn stored_total(s: Seq<RecordModel>) -> int
    decreases s.len(),
{
    if s.len() == 0 {
        0
    } else {
        stored_total(s.drop_last()) + s.last().download
    }
}

/// The five categories share the total among them.
pub proof fn lemma_total_is_sum_of_categories(s: Seq<RecordModel>)
    ensures
        stored_total(s) == stored_in(s, Category::Assets) + stored_in(s, Category::Resources)
            + stored_in(s, Category::Code) + stored_in(s, Category::Native) + stored_in(
            s,
            Category::Other,
        ),
        stored_in(s, Category::Assets) >= 0,
        stored_in(s, Category::Resources) >= 0,
        stored_in(s, Category::Code) >= 0,
        stored_in(s, Category::Native) >= 0,
        stored_in(s, Category::Other) >= 0,
    decreases s.len(),
{
    if s.len() > 0 {
        lemma_total_is_sum_of_categories(s.drop_last());
    }
}

/// The total of a part of a scan is no more than that of the whole.
pub proof fn lemma_total_of_prefix(s: Seq<RecordModel>, n: int)
    requires
        0 <= n <= s.len(),
    ensures
        0 <= stored_total(s.take(n)) <= stored_total(s),
    decreases s.len() - n,
{
    if n < s.len() {
        lemma_total_of_prefix(s, n + 1);
        assert(s.take(n + 1).drop_last() =~= s.take(n));
        lemma_total_of_prefix(s.take(n), n);
    } else {
        assert(s.take(n) =~= s);
        lemma_total_is_sum_of_categories(s);
    }
}

/// The stored size of an archive, by category and in all.
#[derive(Debug)]
pub struct SizeData {
    /// The archive that was measured.
    pub file_name: String,
    pub asserts: u64,
    pub res: u64,
    pub code: u64,
    pub native: u64,
    pub others: u64,
    pub all: u64,
}

impl SizeData {
    /// The grand total is the sum of the five categories.
    pub open spec fn is_consistent(&self) -> bool {
        self.all == self.asserts + self.res + self.code + self.native + self.others
    }

    /// The figures are those of the scan `s`.
    pub open spec fn measures(&self, s: Seq<RecordModel>) -> bool {
        &&& self.asserts == stored_in(s, Category::Assets)
        &&& self.res == stored_in(s, Category::Resources)
        &&& self.code == stored_in(s, Category::Code)
        &&& self.native == stored_in(s, Category::Native)
        &&& self.others == stored_in(s, Category::Other)
        &&& self.all == stored_total(s)
    }

    /// The summary of nothing: no name, all figures zero.
    pub fn new() -> (r: SizeData)
        ensures
            r.file_name@.len() == 0,
            r.asserts == 0,
            r.res == 0,
            r.code == 0,
            r.native == 0,
            r.others == 0,
            r.all == 0,
    {
        SizeData {
            file_name: String::new(),
            asserts: 0,
            res: 0,
            code: 0,
            native: 0,
            others: 0,
            all: 0,
        }
    }
}

/// Adds up the stored sizes of a scan by category, if the total fits into a
/// `u64`; `None` if it does not.
pub fn checked_summarize(records: &Vec<CliperInfo>) -> (r: Option<SizeData>)
    ensures
        r is Some <==> stored_total(record_views(records@)) <= u64::MAX,
        r matches Some(d) ==> d.measures(record_views(records@)) && d.is_consistent()
            && d.file_name@.len() == 0,
{
    let mut d = SizeData::new();
    let mut i: usize = 0;
    while i < records.len()
        invariant
            i <= records.len(),
            d.measures(record_views(records@).take(i as int)),
            d.file_name@.len() == 0,
        decreases records.len() - i,
    {
        let record = &records[i];
        proof {
            let all = record_views(records@);
            assert(all.take(i + 1).drop_last() =~= all.take(i as int));
            assert(all.take(i + 1).last() == record@);
            lemma_total_is_sum_of_categories(all.take(i as int));
            lemma_total_of_prefix(all, i + 1);
        }
        match d.all.checked_add(record.download) {
            None => {
                return None;
            },
            Some(all) => {
                d.all = all;
            },
        }
        match record.file_type {
            Category::Assets => {
                d.asserts = d.asserts + record.download;
            },
            Category::Resources => {
                d.res = d.res + record.download;
            },
            Category::Code => {
                d.code = d.code + record.download;
            },
            Category::Native => {
                d.native = d.native + record.download;
            },
            Category::Other => {
                d.others = d.others + record.download;
            },
        }
        i += 1;
    }
    proof {
        let all = record_views(records@);
        assert(all.take(records.len() as int) =~= all);
        lemma_total_is_sum_of_categories(all);
    }
    Some(d)
}

/// Adds up the stored sizes of a scan by category.
pub fn summarize(records: &Vec<CliperInfo>) -> (d: SizeData)
    requires
        stored_total(record_views(records@)) <= u64::MAX,
    ensures
        d.measures(record_views(records@)),
        d.is_consistent(),
        d.file_name@.len() == 0,
{
    checked_summarize(records).unwrap()
}

} // verus!
