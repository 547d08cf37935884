//! Where a report reads from and writes to.
//!
//! The working directory and the state of the file system are looked up by
//! the caller; what is decided from them is decided here.

use vstd::prelude::*;
use vstd::string::*;
use crate::cmds::CommonOpts;
use crate::text::{chars_of, ends_with, has_prefix, has_suffix, starts_with};

verus! {

/// `dir`, a `/` and `file`.
pub open spec fn joined(dir: Seq<char>, file: Seq<char>) -> Seq<char> {
    dir + "/"@ + file
}

/// Where a table named `file_name` is exported to.
pub open spec fn output_path_of(build_path: Seq<char>, file_name: Seq<char>, build_dir: Seq<char>) -> Seq<
    char,
> {
    if build_path.len() == 0 {
        joined(build_dir, file_name)
    } else if has_suffix(build_path, ".csv"@) {
        build_path
    } else {
        joined(build_path, file_name)
    }
}

/// The path as given, or below `current_dir` where it begins with a dot.
pub open spec fn absolute_path_of(input: Seq<char>, current_dir: Seq<char>) -> Seq<char> {
    if has_prefix(input, "."@) {
        joined(current_dir, input)
    } else {
        input
    }
}

/// Puts a `/` between a directory and a file.
pub fn join(dir: &str, file: &str) -> (r: String)
    ensures
        r@ == joined(dir@, file@),
{
    String::from_str(dir).concat("/").concat(file)
}

/// Where a table named `file_name` is exported to: into the default build
/// directory where no build path is set, to the build path itself where it
/// names a `.csv` file, and else into the build path.
pub fn output_path(build_path: &str, file_name: &str, build_dir: &str) -> (r: String)
    ensures
        r@ == output_path_of(build_path@, file_name@, build_dir@),
{
    if build_path.is_empty() {
        join(build_dir, file_name)
    } else if ends_with(&chars_of(build_path), &chars_of(".csv")) {
        String::from_str(build_path)
    } else {
        join(build_path, file_name)
    }
}

/// Makes a path that begins with a dot one below the working directory.
pub fn absolute_path(input: &str, current_dir: &str) -> (r: String)
    ensures
        r@ == absolute_path_of(input@, current_dir@),
{
    if starts_with(&chars_of(input), &chars_of(".")) {
        join(current_dir, input)
    } else {
        String::from_str(input)
    }
}

/// Settles the build path of the options: the default build directory
/// where none is set, else the one set, made absolute.
pub fn check_build_path(opts: &mut CommonOpts, build_dir: &str, current_dir: &str)
    ensures
        final(opts).build_path@ == if old(opts).build_path@.len() == 0 {
            build_dir@
        } else {
            absolute_path_of(old(opts).build_path@, current_dir@)
        },
        final(opts).debug == old(opts).debug,
        final(opts).input == old(opts).input,
        final(opts).output_csv == old(opts).output_csv,
{
    if opts.build_path.as_str().is_empty() {
        opts.build_path = String::from_str(build_dir);
    } else {
        opts.build_path = absolute_path(opts.build_path.as_str(), current_dir);
    }
}

/// Why an input file is refused, if it is: for want of a name, or because
/// no file of that name exists.
pub open spec fn input_refusal(filename: Seq<char>, exists: bool) -> Option<Seq<char>> {
    if filename.len() == 0 {
        Some("Input file path is empty"@)
    } else if !exists {
        Some("Input file path not exists"@)
    } else {
        None
    }
}

/// Accepts an input file that has a name and exists, and says why it
/// refuses any other.
pub fn check_input_file(filename: &str, exists: bool) -> (r: Result<(), String>)
    ensures
        match r {
            Ok(_) => input_refusal(filename@, exists) is None,
            Err(why) => input_refusal(filename@, exists) == Some(why@),
        },
{
    if filename.is_empty() {
        return Err(String::from_str("Input file path is empty"));
    }
    if !exists {
        return Err(String::from_str("Input file path not exists"));
    }
    Ok(())
}

} // verus!
