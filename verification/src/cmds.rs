//! The options that a report is asked for with.

use vstd::prelude::*;
use vstd::string::*;

verus! {

/// What every report takes.
#[derive(Debug)]
pub struct CommonOpts {
    pub debug: bool,
    /// Path of the package to analyse.
    pub input: String,
    pub output_csv: bool,
    /// Where exported tables go.
    pub build_path: String,
}

/// The criteria that a detail report selects its records by, and the number
/// of rows it shows. An empty string and a zero size ask for nothing.
#[derive(Debug)]
pub struct DetailOpts {
    /// Records whose path begins with this.
    pub filter_path: String,
    /// Records whose stored size is at least this.
    pub filter_size: u64,
    /// Records whose path ends with this.
    pub filter_ext: String,
    /// Records whose category is shown under this name.
    pub filter_type: String,
    /// Records whose path this regular expression matches.
    pub filter_regex: String,
    /// Rows to show; zero shows all.
    pub limit: usize,
}

/// The reports.
#[derive(Debug)]
pub enum Args {
    /// Stored size by category.
    Summary { common: CommonOpts },
    /// Every record that meets the criteria.
    Detail { common: CommonOpts, detail: DetailOpts },
    /// Entries with the same content.
    Same { common: CommonOpts },
    /// What the package says of itself.
    Info { common: CommonOpts },
    /// What differs from an older package.
    Diff { common: CommonOpts, input_cmp: String },
}

/// The name under which a report is asked for.
pub open spec fn command_name_of(args: Args) -> Seq<char> {
    match args {
        Args::Summary { .. } => "Summary"@,
        Args::Detail { .. } => "Detail"@,
        Args::Same { .. } => "Same"@,
        Args::Info { .. } => "Info"@,
        Args::Diff { .. } => "Diff"@,
    }
}

impl Args {
    /// The options that every report takes.
    pub open spec fn common_of(self) -> CommonOpts {
        match self {
            Args::Summary { common } => common,
            Args::Detail { common, .. } => common,
            Args::Same { common } => common,
            Args::Info { common } => common,
            Args::Diff { common, .. } => common,
        }
    }

    /// The options that every report takes.
    pub fn common(&self) -> (c: &CommonOpts)
        ensures
            *c == self.common_of(),
    {
        match self {
            Args::Summary { common } => common,
            Args::Detail { common, .. } => common,
            Args::Same { common } => common,
            Args::Info { common } => common,
            Args::Diff { common, .. } => common,
        }
    }

    /// The name under which the report is asked for.
    pub fn command_name(&self) -> (s: String)
        ensures
            s@ == command_name_of(*self),
    {
        match self {
            Args::Summary { .. } => String::from_str("Summary"),
            Args::Detail { .. } => String::from_str("Detail"),
            Args::Same { .. } => String::from_str("Same"),
            Args::Info { .. } => String::from_str("Info"),
            Args::Diff { .. } => String::from_str("Diff"),
        }
    }
}

} // verus!
