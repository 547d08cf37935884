//! Size analysis of application packages.
//!
//! A package is an archive in the zip format. Its entries are scanned into
//! detail records (`archive`, `cliper_info`), each of which falls into one
//! of five categories by its path (`category`). From a scan come the stored
//! size by category (`size_data`), the records that meet a set of criteria
//! (`filter`), the groups of entries with the same content (`duplicates`,
//! `skip`) and, from two scans, what was added, removed and changed between
//! them (`diff`). What the package says of itself is read from its manifest
//! (`manifest`).
//!
//! The archive reader, the fingerprint, the regular expressions, the XML
//! reader and the text encoding are those of other crates (`zip_reader`,
//! `digest`, `pattern`, `xml_reader`, `encode`). What they return is named,
//! not defined; everything else is proved.

pub mod archive;
pub mod category;
pub mod cliper_info;
pub mod cmds;
pub mod diff;
pub mod digest;
pub mod duplicates;
pub mod encode;
pub mod error;
pub mod filter;
pub mod manifest;
pub mod order;
pub mod paths;
pub mod pattern;
pub mod size_data;
pub mod skip;
pub mod text;
pub mod xml_reader;
pub mod zip_reader;
