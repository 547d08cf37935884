//! The five size categories, and the rule that assigns one to every path.

use vstd::prelude::*;
use vstd::string::*;
use crate::text::{chars_of, ends_with, has_prefix, has_suffix, starts_with};

verus! {

/// The coarse bucket that an archive entry is counted under.
#[derive(Clone, Copy, Debug, PartialEq, Eq, Structural)]
pub enum Category {
    Assets,
    Resources,
    Code,
    Native,
    Other,
}

/// The category of an archive-internal path. The rules are tried in this
/// order and the first that applies decides; matching is case-sensitive and
/// looks at the whole path.
pub open spec fn classify(path: Seq<char>) -> Category {
    if has_prefix(path, "assets/"@) || has_prefix(path, "base/assets/"@) {
        Category::Assets
    } else if has_prefix(path, "res/"@) || has_prefix(path, "base/res/"@) || has_suffix(
        path,
        "resources.arsc"@,
    ) {
        Category::Resources
    } else if has_prefix(path, "classes"@) || has_prefix(path, "base/dex/classes"@) {
        Category::Code
    } else if has_prefix(path, "lib/"@) || has_prefix(path, "base/lib"@) {
        Category::Native
    } else {
        Category::Other
    }
}

/// The name under which a category is shown and filtered.
pub open spec fn category_label(c: Category) -> Seq<char> {
    match c {
        Category::Assets => "Assets"@,
        Category::Resources => "Res"@,
        Category::Code => "Code"@,
        Category::Native => "Native"@,
        Category::Other => "Others"@,
    }
}

/// Every path has exactly one category: `classify` is a total function into
/// the five variants, and no two variants coincide.
pub proof fn lemma_classify_total(path: Seq<char>)
    ensures
        classify(path) is Assets || classify(path) is Resources || classify(path) is Code
            || classify(path) is Native || classify(path) is Other,
        !(classify(path) is Assets && classify(path) is Resources),
        !(classify(path) is Assets && classify(path) is Code),
        !(classify(path) is Assets && classify(path) is Native),
        !(classify(path) is Assets && classify(path) is Other),
        !(classify(path) is Resources && classify(path) is Code),
        !(classify(path) is Resources && classify(path) is Native),
        !(classify(path) is Resources && classify(path) is Other),
        !(classify(path) is Code && classify(path) is Native),
        !(classify(path) is Code && classify(path) is Other),
        !(classify(path) is Native && classify(path) is Other),
{
}

/// Classifies an archive-internal path. Never fails.
pub fn read_type(name: &str) -> (c: Category)
    ensures
        c == classify(name@),
{
    let path = chars_of(name);
    if starts_with(&path, &chars_of("assets/")) || starts_with(&path, &chars_of("base/assets/")) {
        Category::Assets
    } else if starts_with(&path, &chars_of("res/")) || starts_with(&path, &chars_of("base/res/"))
        || ends_with(&path, &chars_of("resources.arsc")) {
        Category::Resources
    } else if starts_with(&path, &chars_of("classes")) || starts_with(
        &path,
        &chars_of("base/dex/classes"),
    ) {
        Category::Code
    } else if starts_with(&path, &chars_of("lib/")) || starts_with(&path, &chars_of("base/lib")) {
        Category::Native
    } else {
        Category::Other
    }
}

impl Category {
    /// The name under which this category is shown and filtered.
    pub fn label(&self) -> (s: String)
        ensures
            s@ == category_label(*self),
    {
        match self {
            Category::Assets => String::from_str("Assets"),
            Category::Resources => String::from_str("Res"),
            Category::Code => String::from_str("Code"),
            Category::Native => String::from_str("Native"),
            Category::Other => String::from_str("Others"),
        }
    }
}

} // verus!
