//! The state of a file as the version-control tool reports it.

use vstd::prelude::*;
use vstd::string::*;
use crate::text::{
    find_text, first_occurrence, line_windows, lines_of, str_eq, substring, to_chars,
    trim_window, trimmed, window_text, windows_text, windows_within,
};

verus! {

/// The state of one file in a repository.
#[derive(Debug, Clone, Copy, PartialEq, Eq, Hash, Structural)]
pub enum GitStatus {
    Untracked,
    Modified,
    Staged,
    Deleted,
    Renamed,
    Unmerged,
    Ignored,
    Clean,
}

/// The state that a two-letter code of the short status format denotes.
/// A code that is not listed denotes a clean file.
pub open spec fn status_of_code(code: Seq<char>) -> GitStatus {
    if code == "??"@ {
        GitStatus::Untracked
    } else if code == "M "@ || code == " M"@ || code == "MM"@ {
        GitStatus::Modified
    } else if code == "A "@ || code == " A"@ || code == "AM"@ {
        GitStatus::Staged
    } else if code == "D "@ || code == " D"@ {
        GitStatus::Deleted
    } else if code == "R "@ || code == " R"@ {
        GitStatus::Renamed
    } else if code == "U "@ || code == " U"@ || code == "UU"@ || code == "AA"@ || code == "DD"@ {
        GitStatus::Unmerged
    } else if code == "!!"@ {
        GitStatus::Ignored
    } else {
        GitStatus::Clean
    }
}

/// The word by which a state is shown.
pub open spec fn status_word(status: GitStatus) -> Seq<char> {
    match status {
        GitStatus::Untracked => "untracked"@,
        GitStatus::Modified => "modified"@,
        GitStatus::Staged => "staged"@,
        GitStatus::Deleted => "deleted"@,
        GitStatus::Renamed => "renamed"@,
        GitStatus::Unmerged => "conflict"@,
        GitStatus::Ignored => "ignored"@,
        GitStatus::Clean => "clean"@,
    }
}

impl GitStatus {
    /// The state that a two-letter code of the short status format denotes.
    pub fn from_porcelain_code(code: &str) -> (r: GitStatus)
        ensures
            r == status_of_code(code@),
    {
        if str_eq(code, "??") {
            GitStatus::Untracked
        } else if str_eq(code, "M ") || str_eq(code, " M") || str_eq(code, "MM") {
            GitStatus::Modified
        } else if str_eq(code, "A ") || str_eq(code, " A") || str_eq(code, "AM") {
            GitStatus::Staged
        } else if str_eq(code, "D ") || str_eq(code, " D") {
            GitStatus::Deleted
        } else if str_eq(code, "R ") || str_eq(code, " R") {
            GitStatus::Renamed
        } else if str_eq(code, "U ") || str_eq(code, " U") || str_eq(code, "UU") || str_eq(
            code,
            "AA",
        ) || str_eq(code, "DD") {
            GitStatus::Unmerged
        } else if str_eq(code, "!!") {
            GitStatus::Ignored
        } else {
            GitStatus::Clean
        }
    }

    /// The word by which the state is shown.
    pub fn to_str(&self) -> (r: &'static str)
        ensures
            r@ == status_word(*self),
    {
        match self {
            GitStatus::Untracked => "untracked",
            GitStatus::Modified => "modified",
            GitStatus::Staged => "staged",
            GitStatus::Deleted => "deleted",
            GitStatus::Renamed => "renamed",
            GitStatus::Unmerged => "conflict",
            GitStatus::Ignored => "ignored",
            GitStatus::Clean => "clean",
        }
    }
}


/// The state of one file, as one line of the short status format gives it.
#[derive(Debug)]
pub struct FileStatus {
    /// Path of the file, relative to the root of the repository.
    pub path: String,
    /// State of the file.
    pub status: GitStatus,
}

/// What a line of the short status format says: nothing if it has fewer
/// than four characters, else the state that its first two characters
/// denote and the path that follows the third. A rename is written as
/// `old -> new` and stands for the new path.
pub open spec fn status_line(line: Seq<char>) -> Option<(GitStatus, Seq<char>)> {
    if line.len() < 4 {
        None
    } else {
        let rest = trimmed(line.skip(3));
        let arrow = first_occurrence(rest, " -> "@);
        let path = if arrow >= 0 {
            rest.skip(arrow + 4)
        } else {
            rest
        };
        Some((status_of_code(line.take(2)), path))
    }
}

/// What the lines of a status listing say, in order; lines that say
/// nothing are left out.
pub open spec fn status_entries(lines: Seq<Seq<char>>) -> Seq<(GitStatus, Seq<char>)>
    decreases lines.len(),
{
    if lines.len() == 0 {
        Seq::<(GitStatus, Seq<char>)>::empty()
    } else {
        match status_line(lines.last()) {
            Some(entry) => status_entries(lines.drop_last()).push(entry),
            None => status_entries(lines.drop_last()),
        }
    }
}

/// The mathematical values of a list of file states.
pub open spec fn status_views(list: Seq<FileStatus>) -> Seq<(GitStatus, Seq<char>)> {
    list.map_values(|f: FileStatus| (f.status, f.path@))
}

/// The lines of a text without their surrounding white space.
pub open spec fn trimmed_lines(text: Seq<char>) -> Seq<Seq<char>> {
    lines_of(text).map_values(|line: Seq<char>| trimmed(line))
}

/// The mathematical values of a list of texts.
pub open spec fn text_views(list: Seq<String>) -> Seq<Seq<char>> {
    list.map_values(|s: String| s@)
}

/// Reads a status listing in the short format: one file per line.
pub fn parse_status_output(stdout: &str) -> (r: Vec<FileStatus>)
    ensures
        status_views(r@) == status_entries(lines_of(stdout@)),
{
    proof {
        reveal_strlit(" -> ");
    }
    let v = to_chars(stdout);
    let arrow = to_chars(" -> ");
    let lines = line_windows(&v, 0, v.len());
    let ghost texts = lines_of(stdout@);
    let mut out: Vec<FileStatus> = Vec::new();
    let mut k: usize = 0;
    proof {
        assert(v@.subrange(0, v.len() as int) =~= v@);
        assert(texts.take(0) =~= Seq::<Seq<char>>::empty());
        assert(status_views(out@) =~= Seq::<(GitStatus, Seq<char>)>::empty());
    }
    while k < lines.len()
        invariant
            k <= lines.len(),
            v@ == stdout@,
            arrow@ == " -> "@,
            arrow@.len() == 4,
            texts == windows_text(v@, lines@),
            windows_within(lines@, 0, v.len() as int),
            status_views(out@) == status_entries(texts.take(k as int)),
        decreases lines.len() - k,
    {
        let w = lines[k];
        let ghost line = window_text(v@, w);
        let ghost before = status_views(out@);
        proof {
            assert(texts.take(k + 1).drop_last() =~= texts.take(k as int));
            assert(texts.take(k + 1).last() == line);
        }
        if w.1 - w.0 >= 4 {
            let (a, b) = trim_window(&v, w.0 + 3, w.1);
            let start = match find_text(&v, a, b, &arrow) {
                Some(at) => at + 4,
                None => a,
            };
            let code = substring(stdout, w.0, w.0 + 2);
            let path = substring(stdout, start, b);
            proof {
                assert(line.skip(3) =~= v@.subrange(w.0 + 3, w.1 as int));
                assert(line.take(2) =~= v@.subrange(w.0 as int, w.0 + 2));
                let rest = v@.subrange(a as int, b as int);
                assert(rest.skip(start - a) =~= v@.subrange(start as int, b as int));
                assert(rest.skip(0) =~= rest);
            }
            let status = GitStatus::from_porcelain_code(code.as_str());
            out.push(FileStatus { path, status });
            proof {
                assert(status_views(out@) =~= before.push(status_line(line)->0));
            }
        }
        k = k + 1;
    }
    proof {
        assert(texts.take(lines.len() as int) =~= texts);
    }
    out
}

/// The lines of a listing of paths, each without surrounding white space.
pub fn changed_paths(stdout: &str) -> (r: Vec<String>)
    ensures
        text_views(r@) == trimmed_lines(stdout@),
{
    let v = to_chars(stdout);
    let lines = line_windows(&v, 0, v.len());
    let mut out: Vec<String> = Vec::new();
    let mut k: usize = 0;
    proof {
        assert(v@.subrange(0, v.len() as int) =~= v@);
    }
    while k < lines.len()
        invariant
            k <= lines.len(),
            v@ == stdout@,
            lines_of(stdout@) == windows_text(v@, lines@),
            windows_within(lines@, 0, v.len() as int),
            out@.len() == k,
            forall|i: int|
                0 <= i < k ==> (#[trigger] out@[i])@ == trimmed(window_text(v@, lines@[i])),
        decreases lines.len() - k,
    {
        let w = lines[k];
        let (a, b) = trim_window(&v, w.0, w.1);
        out.push(substring(stdout, a, b));
        k = k + 1;
    }
    proof {
        assert(text_views(out@) =~= trimmed_lines(stdout@));
    }
    out
}

} // verus!
