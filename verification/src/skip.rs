//! The entries that are not worth a fingerprint.
//!
//! Build tools emit byte-identical stubs: empty images and sounds, a
//! boilerplate XML or JSON file of a fixed size. They are no duplicated
//! content in any useful sense, and they would crowd the duplicate report.
//! A rule names such a stub by the end of its file name and its exact
//! stored size.

use vstd::prelude::*;
use vstd::string::*;
use crate::text::{chars_of, ends_with, has_suffix};

verus! {

/// A file name ending and a stored size that together mark a stub.
#[derive(Debug)]
pub struct SkipRule {
    pub ext: String,
    pub size: u64,
}

impl View for SkipRule {
    type V = (Seq<char>, u64);

    open spec fn view(&self) -> (Seq<char>, u64) {
        (self.ext@, self.size)
    }
}

/// What each rule says.
pub open spec fn rule_views(rules: Seq<SkipRule>) -> Seq<(Seq<char>, u64)> {
    rules.map_values(|r: SkipRule| r@)
}

/// Whether a rule marks the file: its name ends as the rule says and its
/// stored size is exactly the rule's.
pub open spec fn is_skipped(file_name: Seq<char>, download: u64, rules: Seq<(Seq<char>, u64)>) -> bool {
    exists|i: int|
        0 <= i < rules.len() && has_suffix(file_name, (#[trigger] rules[i]).0) && download
            == rules[i].1
}

/// The stubs of the Android build tools.
pub open spec fn default_rules() -> Seq<(Seq<char>, u64)> {
    seq![
        (".webp"@, 0u64),
        (".xml"@, 47u64),
        (".json"@, 2u64),
        (".mp3"@, 0u64),
        (".png"@, 67u64),
        (".9.png"@, 77u64),
        (".jpg"@, 0u64),
    ]
}

/// The stubs of the Android build tools, as rules.
pub fn default_skip_rules() -> (rules: Vec<SkipRule>)
    ensures
        rule_views(rules@) == default_rules(),
{
    let mut rules: Vec<SkipRule> = Vec::new();
    rules.push(SkipRule { ext: String::from_str(".webp"), size: 0 });
    rules.push(SkipRule { ext: String::from_str(".xml"), size: 47 });
    rules.push(SkipRule { ext: String::from_str(".json"), size: 2 });
    rules.push(SkipRule { ext: String::from_str(".mp3"), size: 0 });
    rules.push(SkipRule { ext: String::from_str(".png"), size: 67 });
    rules.push(SkipRule { ext: String::from_str(".9.png"), size: 77 });
    rules.push(SkipRule { ext: String::from_str(".jpg"), size: 0 });
    assert(rule_views(rules@) =~= default_rules());
    rules
}

/// Whether one of the rules marks the file.
pub fn should_skip(file_name: &str, download: u64, rules: &Vec<SkipRule>) -> (b: bool)
    ensures
        b == is_skipped(file_name@, download, rule_views(rules@)),
{
    let name = chars_of(file_name);
    let mut i: usize = 0;
    while i < rules.len()
        invariant
            i <= rules.len(),
            name@ == file_name@,
            forall|j: int|
                0 <= j < i ==> !(has_suffix(file_name@, (#[trigger] rule_views(rules@)[j]).0)
                    && download == rule_views(rules@)[j].1),
        decreases rules.len() - i,
    {
        assert(rule_views(rules@)[i as int] == rules@[i as int]@);
        if download == rules[i].size && ends_with(&name, &chars_of(rules[i].ext.as_str())) {
            return true;
        }
        i += 1;
    }
    false
}

/// Whether the file is one of the stubs of the Android build tools.
pub fn _filter_md5_file(file_name: &str, download: u64) -> (b: bool)
    ensures
        b == is_skipped(file_name@, download, default_rules()),
{
    let rules = default_skip_rules();
    should_skip(file_name, download, &rules)
}

} // verus!
