//! Small value types shared by the listing, filtering and indexing code.

use vstd::prelude::*;
use vstd::string::*;
use crate::text::{lowercase_of, str_eq, to_lowercase};

verus! {

/// What kind of thing a file-system entry is.
#[derive(Debug, Clone, Copy, PartialEq, Eq, Structural)]
pub enum EntryKind {
    File,
    Dir,
    Symlink,
}

/// One entry of the file system with its metadata.
#[derive(Debug)]
pub struct Entry {
    /// Path of the entry.
    pub path: String,
    /// Last component of the path.
    pub name: String,
    /// Size in bytes; zero for a directory until sizes are summed up.
    pub size: u64,
    /// What kind of thing the entry is.
    pub kind: EntryKind,
    /// When the entry was last modified, in epoch seconds.
    pub mtime: i64,
    /// Permissions in nine letters, where the platform has them.
    pub perms: Option<String>,
    /// Owner, where the platform has one.
    pub owner: Option<String>,
    /// Depth below the root of the walk.
    pub depth: usize,
}

/// The key by which entries are sorted.
#[derive(Debug, Clone, Copy, PartialEq, Eq, Structural)]
pub enum SortKey {
    Name,
    Size,
    Mtime,
    Kind,
}

/// The direction in which entries are sorted.
#[derive(Debug, Clone, Copy, PartialEq, Eq, Structural)]
pub enum SortOrder {
    Asc,
    Desc,
}

/// A column of the listing.
#[derive(Debug, Clone, Copy, PartialEq, Eq, Structural)]
pub enum Column {
    Path,
    Name,
    Size,
    Mtime,
    Kind,
    Perms,
    Owner,
}

/// How a listing is written out.
#[derive(Debug, Clone, Copy, PartialEq, Eq, Structural)]
pub enum OutputFormat {
    Pretty,
    Json,
    Ndjson,
    Csv,
}

/// The column that a lower-case name denotes.
pub open spec fn column_named(name: Seq<char>) -> Option<Column> {
    if name == "path"@ {
        Some(Column::Path)
    } else if name == "name"@ {
        Some(Column::Name)
    } else if name == "size"@ {
        Some(Column::Size)
    } else if name == "mtime"@ {
        Some(Column::Mtime)
    } else if name == "kind"@ {
        Some(Column::Kind)
    } else if name == "perms"@ {
        Some(Column::Perms)
    } else if name == "owner"@ {
        Some(Column::Owner)
    } else {
        None
    }
}

/// The output format that a lower-case name denotes.
pub open spec fn output_format_named(name: Seq<char>) -> Option<OutputFormat> {
    if name == "pretty"@ {
        Some(OutputFormat::Pretty)
    } else if name == "json"@ {
        Some(OutputFormat::Json)
    } else if name == "ndjson"@ {
        Some(OutputFormat::Ndjson)
    } else if name == "csv"@ {
        Some(OutputFormat::Csv)
    } else {
        None
    }
}

impl Column {
    /// The column with exactly this lower-case name.
    pub fn from_lowercase(name: &str) -> (r: Option<Column>)
        ensures
            r == column_named(name@),
    {
        if str_eq(name, "path") {
            Some(Column::Path)
        } else if str_eq(name, "name") {
            Some(Column::Name)
        } else if str_eq(name, "size") {
            Some(Column::Size)
        } else if str_eq(name, "mtime") {
            Some(Column::Mtime)
        } else if str_eq(name, "kind") {
            Some(Column::Kind)
        } else if str_eq(name, "perms") {
            Some(Column::Perms)
        } else if str_eq(name, "owner") {
            Some(Column::Owner)
        } else {
            None
        }
    }

    /// The column that `s` names, whatever the case of its letters.
    pub fn from_str(s: &str) -> (r: Option<Column>)
        ensures
            r == column_named(lowercase_of(s@)),
    {
        let lower = to_lowercase(s);
        Column::from_lowercase(lower.as_str())
    }
}

impl OutputFormat {
    /// The output format with exactly this lower-case name.
    pub fn from_lowercase(name: &str) -> (r: Option<OutputFormat>)
        ensures
            r == output_format_named(name@),
    {
        if str_eq(name, "pretty") {
            Some(OutputFormat::Pretty)
        } else if str_eq(name, "json") {
            Some(OutputFormat::Json)
        } else if str_eq(name, "ndjson") {
            Some(OutputFormat::Ndjson)
        } else if str_eq(name, "csv") {
            Some(OutputFormat::Csv)
        } else {
            None
        }
    }

    /// The output format that `s` names, whatever the case of its letters.
    pub fn from_str(s: &str) -> (r: Option<OutputFormat>)
        ensures
            r == output_format_named(lowercase_of(s@)),
    {
        let lower = to_lowercase(s);
        OutputFormat::from_lowercase(lower.as_str())
    }
}

} // verus!
