//! Selection of detail records by path, size, extension, category and
//! pattern.

use vstd::prelude::*;
use vstd::string::*;
use crate::category::{category_label, Category};
use crate::cliper_info::CliperInfo;
use crate::cmds::DetailOpts;
use crate::error::CliperError;
use crate::order::{size_of, sort_by_size_desc, sort_desc};
use crate::pattern::{compile, describe, is_match, regex_matches, regex_source};
use crate::text::{chars_of, ends_with, has_prefix, has_suffix, starts_with};

verus! {

/// The path criterion: none asked for, or the path begins with it.
pub open spec fn path_allows(info: CliperInfo, opts: DetailOpts) -> bool {
    opts.filter_path@.len() == 0 || has_prefix(info.file_path@, opts.filter_path@)
}

/// The size criterion: none asked for, or the stored size reaches it.
pub open spec fn size_allows(info: CliperInfo, opts: DetailOpts) -> bool {
    opts.filter_size == 0 || info.download >= opts.filter_size
}

/// The extension criterion: none asked for, or the path ends with it.
pub open spec fn ext_allows(info: CliperInfo, opts: DetailOpts) -> bool {
    opts.filter_ext@.len() == 0 || has_suffix(info.file_path@, opts.filter_ext@)
}

/// The category criterion: none asked for, or it names the record's
/// category.
pub open spec fn type_allows(info: CliperInfo, opts: DetailOpts) -> bool {
    opts.filter_type@.len() == 0 || category_label(info.file_type) == opts.filter_type@
}

/// Whether a record meets every criterion of `opts`, where `regex_hit` says
/// whether the pattern of `opts` matches the record's path.
pub open spec fn filter_accepts(info: CliperInfo, opts: DetailOpts, regex_hit: bool) -> bool {
    &&& path_allows(info, opts)
    &&& size_allows(info, opts)
    &&& ext_allows(info, opts)
    &&& type_allows(info, opts)
    &&& (opts.filter_regex@.len() == 0 || regex_hit)
}

/// Whether a record meets every criterion of `opts`, the pattern included.
pub open spec fn selects(opts: DetailOpts, info: CliperInfo) -> bool {
    filter_accepts(info, opts, regex_matches(opts.filter_regex@, info.file_path@))
}

/// The criteria are joined by "and": a record that fails one criterion is
/// rejected, whatever the others say and whatever the pattern does.
pub proof fn lemma_filter_needs_every_criterion(info: CliperInfo, opts: DetailOpts, regex_hit: bool)
    ensures
        !path_allows(info, opts) ==> !filter_accepts(info, opts, regex_hit),
        !size_allows(info, opts) ==> !filter_accepts(info, opts, regex_hit),
        !ext_allows(info, opts) ==> !filter_accepts(info, opts, regex_hit),
        !type_allows(info, opts) ==> !filter_accepts(info, opts, regex_hit),
        opts.filter_regex@.len() > 0 && !regex_hit ==> !filter_accepts(info, opts, regex_hit),
{
}

/// A record of category `Other` never passes a filter that asks for the
/// category `Code`.
pub proof fn lemma_code_filter_rejects_other(info: CliperInfo, opts: DetailOpts, regex_hit: bool)
    requires
        opts.filter_type@ == "Code"@,
        info.file_type == Category::Other,
    ensures
        !filter_accepts(info, opts, regex_hit),
{
    reveal_strlit("Code");
    reveal_strlit("Others");
    assert("Code"@.len() == 4 && "Others"@.len() == 6);
}

/// Decides whether a record meets the criteria, given whether the pattern
/// matched its path.
pub fn filter_decision(info: &CliperInfo, opts: &DetailOpts, regex_hit: bool) -> (b: bool)
    ensures
        b == filter_accepts(*info, *opts, regex_hit),
{
    let path = chars_of(info.file_path.as_str());
    let path_ok = opts.filter_path.as_str().is_empty() || starts_with(
        &path,
        &chars_of(opts.filter_path.as_str()),
    );
    let size_ok = opts.filter_size == 0 || info.download >= opts.filter_size;
    let ext_ok = opts.filter_ext.as_str().is_empty() || ends_with(
        &path,
        &chars_of(opts.filter_ext.as_str()),
    );
    let type_ok = opts.filter_type.as_str().is_empty() || info.file_type.label() == opts.filter_type;
    let regex_ok = opts.filter_regex.as_str().is_empty() || regex_hit;
    path_ok && size_ok && ext_ok && type_ok && regex_ok
}

/// Criteria whose pattern has been compiled.
pub struct Criteria {
    opts: DetailOpts,
    regex: Option<regex::Regex>,
}

impl View for Criteria {
    type V = DetailOpts;

    closed spec fn view(&self) -> DetailOpts {
        self.opts
    }
}

impl Criteria {
    /// The compiled expression stands for the pattern of the options;
    /// where there is none, the pattern is empty.
    #[verifier::type_invariant]
    spec fn compiled(self) -> bool {
        match self.regex {
            Some(re) => regex_source(re) == self.opts.filter_regex@,
            None => self.opts.filter_regex@.len() == 0,
        }
    }

    /// Compiles the pattern of `opts`. Criteria without a pattern are always
    /// accepted; with one, the `regex` crate decides, and what it refuses
    /// comes back as `RegexCompileError`.
    pub fn new(opts: DetailOpts) -> (r: Result<Criteria, CliperError>)
        ensures
            opts.filter_regex@.len() == 0 ==> r is Ok,
            match r {
                Ok(c) => c@ == opts,
                Err(e) => e is RegexCompileError,
            },
    {
        if opts.filter_regex.as_str().is_empty() {
            return Ok(Criteria { opts, regex: None });
        }
        match compile(opts.filter_regex.as_str()) {
            Ok(re) => Ok(Criteria { opts, regex: Some(re) }),
            Err(e) => Err(CliperError::RegexCompileError(describe(&e))),
        }
    }

    /// The criteria as they were asked for.
    pub fn opts(&self) -> (o: &DetailOpts)
        ensures
            *o == self@,
    {
        &self.opts
    }
}

/// Whether a record meets every criterion.
pub fn cliper_filter(info: &CliperInfo, filter: &Criteria) -> (b: bool)
    ensures
        b == selects(filter@, *info),
{
    proof {
        use_type_invariant(filter);
    }
    let regex_hit = match &filter.regex {
        Some(re) => is_match(re, info.file_path.as_str()),
        None => true,
    };
    filter_decision(info, &filter.opts, regex_hit)
}

/// Holds of the records that meet every criterion of `opts`.
pub open spec fn selected_by(opts: DetailOpts) -> spec_fn(CliperInfo) -> bool {
    |r: CliperInfo| selects(opts, r)
}

/// The rows of a detail report: the records that meet the criteria, largest
/// stored size first, records of equal size in the order of the scan.
pub open spec fn detail_rows_of(records: Seq<CliperInfo>, opts: DetailOpts) -> Seq<CliperInfo> {
    sort_desc(records, size_of::<CliperInfo>()).filter(selected_by(opts))
}

/// The rows of a detail report on a scan.
pub fn detail_rows(records: Vec<CliperInfo>, filter: &Criteria) -> (r: Vec<CliperInfo>)
    ensures
        r@ == detail_rows_of(records@, filter@),
{
    let ranked = sort_by_size_desc(records);
    let mut out: Vec<CliperInfo> = Vec::new();
    let mut i: usize = 0;
    proof {
        reveal(Seq::filter);
        assert(out@ =~= ranked@.take(0).filter(selected_by(filter@)));
    }
    while i < ranked.len()
        invariant
            i <= ranked.len(),
            out@ == ranked@.take(i as int).filter(selected_by(filter@)),
        decreases ranked.len() - i,
    {
        proof {
            assert(ranked@.take(i + 1) =~= ranked@.take(i as int).push(ranked@[i as int]));
            ranked@.take(i as int).lemma_filter_push(ranked@[i as int], selected_by(filter@));
        }
        if cliper_filter(&ranked[i], filter) {
            out.push(ranked[i].clone());
        }
        i += 1;
    }
    assert(ranked@.take(ranked.len() as int) =~= ranked@);
    out
}

/// The number of rows that a report of `rows` rows shows under a limit: all
/// of them where the limit is zero or no fewer than the rows, else as many
/// as the limit says.
pub fn shown_rows(limit: usize, rows: usize) -> (n: usize)
    ensures
        n == if limit == 0 || limit >= rows {
            rows
        } else {
            limit
        },
{
    if limit == 0 || limit >= rows {
        rows
    } else {
        limit
    }
}

} // verus!
