//! Reading of command-line values: sort keys, sort orders, entry kinds and
//! the options that every listing command shares.

use vstd::prelude::*;
use vstd::string::*;
use crate::errors::{FsError, FsErrorView};
use crate::git::GitStatus;
use crate::models::{
    column_named, output_format_named, Column, EntryKind, OutputFormat, SortKey, SortOrder,
};
use crate::text::{lowercase_of, str_eq, to_lowercase};

verus! {

/// The sort key that a lower-case name denotes.
pub open spec fn sort_key_named(name: Seq<char>) -> Option<SortKey> {
    if name == "name"@ {
        Some(SortKey::Name)
    } else if name == "size"@ {
        Some(SortKey::Size)
    } else if name == "mtime"@ {
        Some(SortKey::Mtime)
    } else if name == "kind"@ {
        Some(SortKey::Kind)
    } else {
        None
    }
}

/// The sort order that a lower-case name denotes.
pub open spec fn sort_order_named(name: Seq<char>) -> Option<SortOrder> {
    if name == "asc"@ || name == "ascending"@ {
        Some(SortOrder::Asc)
    } else if name == "desc"@ || name == "descending"@ {
        Some(SortOrder::Desc)
    } else {
        None
    }
}

/// The entry kind that a lower-case name denotes.
pub open spec fn entry_kind_named(name: Seq<char>) -> Option<EntryKind> {
    if name == "file"@ {
        Some(EntryKind::File)
    } else if name == "dir"@ || name == "directory"@ {
        Some(EntryKind::Dir)
    } else if name == "symlink"@ || name == "link"@ {
        Some(EntryKind::Symlink)
    } else {
        None
    }
}

/// The sort key with exactly this lower-case name.
pub fn sort_key_from_lowercase(name: &str) -> (r: Option<SortKey>)
    ensures
        r == sort_key_named(name@),
{
    if str_eq(name, "name") {
        Some(SortKey::Name)
    } else if str_eq(name, "size") {
        Some(SortKey::Size)
    } else if str_eq(name, "mtime") {
        Some(SortKey::Mtime)
    } else if str_eq(name, "kind") {
        Some(SortKey::Kind)
    } else {
        None
    }
}

/// The sort order with exactly this lower-case name.
pub fn sort_order_from_lowercase(name: &str) -> (r: Option<SortOrder>)
    ensures
        r == sort_order_named(name@),
{
    if str_eq(name, "asc") || str_eq(name, "ascending") {
        Some(SortOrder::Asc)
    } else if str_eq(name, "desc") || str_eq(name, "descending") {
        Some(SortOrder::Desc)
    } else {
        None
    }
}

/// The entry kind with exactly this lower-case name.
pub fn entry_kind_from_lowercase(name: &str) -> (r: Option<EntryKind>)
    ensures
        r == entry_kind_named(name@),
{
    if str_eq(name, "file") {
        Some(EntryKind::File)
    } else if str_eq(name, "dir") || str_eq(name, "directory") {
        Some(EntryKind::Dir)
    } else if str_eq(name, "symlink") || str_eq(name, "link") {
        Some(EntryKind::Symlink)
    } else {
        None
    }
}

/// Reads a sort key, whatever the case of its letters.
pub fn parse_sort_key(s: &str) -> (r: Result<SortKey, FsError>)
    ensures
        match sort_key_named(lowercase_of(s@)) {
            Some(key) => r matches Ok(k) && k == key,
            None => r matches Err(e) && e@ == (FsErrorView::InvalidFormat {
                format: "Invalid sort key: "@ + s@,
            }),
        },
{
    let lower = to_lowercase(s);
    match sort_key_from_lowercase(lower.as_str()) {
        Some(key) => Ok(key),
        None => Err(FsError::invalid_format("Invalid sort key: ", s)),
    }
}

/// Reads a sort order, whatever the case of its letters.
pub fn parse_sort_order(s: &str) -> (r: Result<SortOrder, FsError>)
    ensures
        match sort_order_named(lowercase_of(s@)) {
            Some(order) => r matches Ok(o) && o == order,
            None => r matches Err(e) && e@ == (FsErrorView::InvalidFormat {
                format: "Invalid sort order: "@ + s@,
            }),
        },
{
    let lower = to_lowercase(s);
    match sort_order_from_lowercase(lower.as_str()) {
        Some(order) => Ok(order),
        None => Err(FsError::invalid_format("Invalid sort order: ", s)),
    }
}

/// The place of the first name that denotes no entry kind, or the number of
/// names when each denotes one.
pub open spec fn first_unknown_kind(names: Seq<String>) -> int
    decreases names.len(),
{
    if names.len() == 0 {
        0
    } else if entry_kind_named(lowercase_of(names[0]@)) is None {
        0
    } else {
        1 + first_unknown_kind(names.drop_first())
    }
}

/// Reads a list of entry kinds. The result holds one kind for each name, in
/// order; the first name that denotes no kind is reported.
pub fn parse_entry_kinds(kinds: &[String]) -> (r: Result<Vec<EntryKind>, FsError>)
    ensures
        match r {
            Ok(v) => {
                &&& first_unknown_kind(kinds@) == kinds@.len()
                &&& v@.len() == kinds@.len()
                &&& forall|i: int|
                    0 <= i < v@.len() ==> Some(#[trigger] v@[i]) == entry_kind_named(
                        lowercase_of(kinds@[i]@),
                    )
            },
            Err(e) => {
                &&& 0 <= first_unknown_kind(kinds@) < kinds@.len()
                &&& e@ == (FsErrorView::InvalidFormat {
                    format: "Invalid kind: "@ + kinds@[first_unknown_kind(kinds@)]@,
                })
            },
        },
{
    let mut out: Vec<EntryKind> = Vec::new();
    let mut k: usize = 0;
    proof {
        assert(kinds@.skip(0) =~= kinds@);
    }
    while k < kinds.len()
        invariant
            k <= kinds.len(),
            out@.len() == k,
            first_unknown_kind(kinds@) == k + first_unknown_kind(kinds@.skip(k as int)),
            forall|i: int|
                0 <= i < k ==> Some(#[trigger] out@[i]) == entry_kind_named(
                    lowercase_of(kinds@[i]@),
                ),
        decreases kinds.len() - k,
    {
        proof {
            assert(kinds@.skip(k as int)[0] == kinds@[k as int]);
            assert(kinds@.skip(k as int).drop_first() =~= kinds@.skip(k + 1));
        }
        let lower = to_lowercase(kinds[k].as_str());
        match entry_kind_from_lowercase(lower.as_str()) {
            Some(kind) => {
                out.push(kind);
            },
            None => {
                return Err(FsError::invalid_format("Invalid kind: ", kinds[k].as_str()));
            },
        }
        k = k + 1;
    }
    Ok(out)
}

/// Descending when asked for, ascending otherwise.
pub fn determine_sort_order(_asc: bool, desc: bool) -> (r: SortOrder)
    ensures
        r == (if desc {
            SortOrder::Desc
        } else {
            SortOrder::Asc
        }),
{
    if desc {
        SortOrder::Desc
    } else {
        SortOrder::Asc
    }
}

/// The git states that a listing can be narrowed to.
#[derive(Debug, Clone, Copy, PartialEq, Eq, Structural)]
pub enum GitStatusFilter {
    Untracked,
    Modified,
    Staged,
    Conflict,
    Clean,
    Ignored,
}

impl GitStatusFilter {
    /// The state of a file that the filter keeps.
    pub fn status(self) -> (r: GitStatus)
        ensures
            r == (match self {
                GitStatusFilter::Untracked => GitStatus::Untracked,
                GitStatusFilter::Modified => GitStatus::Modified,
                GitStatusFilter::Staged => GitStatus::Staged,
                GitStatusFilter::Conflict => GitStatus::Unmerged,
                GitStatusFilter::Clean => GitStatus::Clean,
                GitStatusFilter::Ignored => GitStatus::Ignored,
            }),
    {
        match self {
            GitStatusFilter::Untracked => GitStatus::Untracked,
            GitStatusFilter::Modified => GitStatus::Modified,
            GitStatusFilter::Staged => GitStatus::Staged,
            GitStatusFilter::Conflict => GitStatus::Unmerged,
            GitStatusFilter::Clean => GitStatus::Clean,
            GitStatusFilter::Ignored => GitStatus::Ignored,
        }
    }
}

/// The shells for which completions can be written.
#[derive(Debug, Clone, Copy, PartialEq, Eq, Structural)]
pub enum Shell {
    Bash,
    Zsh,
    Fish,
    Powershell,
    Elvish,
}

/// The options that every listing command shares.
#[derive(Debug)]
pub struct CommonArgs {
    /// How deep to descend, if limited.
    pub max_depth: Option<usize>,
    /// Whether hidden files are listed.
    pub hidden: bool,
    /// Whether ignore files are disregarded.
    pub no_gitignore: bool,
    /// Whether symbolic links are followed.
    pub follow_symlinks: bool,
    /// Name of the output format.
    pub format: String,
    /// Names of the columns to show; none stands for the default columns.
    pub columns: Vec<String>,
    /// Number of threads for a parallel walk.
    pub threads: usize,
    /// Whether progress is shown.
    pub progress: bool,
    /// Name of the export template, if one is asked for.
    pub template: Option<String>,
}

/// The place of the first name that denotes no column, or the number of
/// names when each denotes one.
pub open spec fn first_unknown_column(names: Seq<String>) -> int
    decreases names.len(),
{
    if names.len() == 0 {
        0
    } else if column_named(lowercase_of(names[0]@)) is None {
        0
    } else {
        1 + first_unknown_column(names.drop_first())
    }
}

/// The columns shown when none is asked for.
pub open spec fn default_columns() -> Seq<Column> {
    seq![Column::Path, Column::Size, Column::Mtime, Column::Kind]
}

impl Default for CommonArgs {
    fn default() -> (r: CommonArgs)
        ensures
            r.max_depth.is_none(),
            !r.hidden,
            !r.no_gitignore,
            !r.follow_symlinks,
            r.format@ == "pretty"@,
            r.columns@.len() == 0,
            r.threads == 4,
            !r.progress,
            r.template.is_none(),
    {
        CommonArgs {
            max_depth: None,
            hidden: false,
            no_gitignore: false,
            follow_symlinks: false,
            format: String::from_str("pretty"),
            columns: Vec::new(),
            threads: 4,
            progress: false,
            template: None,
        }
    }
}

impl CommonArgs {
    /// The output format that the options name.
    pub fn output_format(&self) -> (r: Result<OutputFormat, FsError>)
        ensures
            match output_format_named(lowercase_of(self.format@)) {
                Some(format) => r matches Ok(f) && f == format,
                None => r matches Err(e) && e@ == (FsErrorView::InvalidFormat {
                    format: self.format@,
                }),
            },
    {
        match OutputFormat::from_str(self.format.as_str()) {
            Some(format) => Ok(format),
            None => Err(FsError::format_error(self.format.as_str())),
        }
    }

    /// The columns that the options name: the default columns when none is
    /// named, else one column for each name, in order; the first name that
    /// denotes no column is reported.
    pub fn columns(&self) -> (r: Result<Vec<Column>, FsError>)
        ensures
            match r {
                Ok(v) => {
                    &&& first_unknown_column(self.columns@) == self.columns@.len()
                    &&& self.columns@.len() == 0 ==> v@ == default_columns()
                    &&& self.columns@.len() > 0 ==> v@.len() == self.columns@.len()
                    &&& self.columns@.len() > 0 ==> forall|i: int|
                        0 <= i < v@.len() ==> Some(#[trigger] v@[i]) == column_named(
                            lowercase_of(self.columns@[i]@),
                        )
                },
                Err(e) => {
                    &&& 0 <= first_unknown_column(self.columns@) < self.columns@.len()
                    &&& e@ == (FsErrorView::InvalidFormat {
                        format: "Invalid column: "@ + self.columns@[first_unknown_column(
                            self.columns@,
                        )]@,
                    })
                },
            },
    {
        let mut out: Vec<Column> = Vec::new();
        if self.columns.len() == 0 {
            out.push(Column::Path);
            out.push(Column::Size);
            out.push(Column::Mtime);
            out.push(Column::Kind);
            assert(out@ =~= default_columns());
            return Ok(out);
        }
        let mut k: usize = 0;
        proof {
            assert(self.columns@.skip(0) =~= self.columns@);
        }
        while k < self.columns.len()
            invariant
                k <= self.columns.len(),
                out@.len() == k,
                first_unknown_column(self.columns@) == k + first_unknown_column(
                    self.columns@.skip(k as int),
                ),
                forall|i: int|
                    0 <= i < k ==> Some(#[trigger] out@[i]) == column_named(
                        lowercase_of(self.columns@[i]@),
                    ),
            decreases self.columns.len() - k,
        {
            proof {
                assert(self.columns@.skip(k as int)[0] == self.columns@[k as int]);
                assert(self.columns@.skip(k as int).drop_first() =~= self.columns@.skip(k + 1));
            }
            match Column::from_str(self.columns[k].as_str()) {
                Some(column) => {
                    out.push(column);
                },
                None => {
                    return Err(
                        FsError::invalid_format("Invalid column: ", self.columns[k].as_str()),
                    );
                },
            }
            k = k + 1;
        }
        Ok(out)
    }
}

} // verus!
