//! A project: one indexed repository with its cached metadata, and the rules
//! that turn what a repository probe observed into a project record.

use vstd::prelude::*;
use vstd::string::*;
use crate::clock::{is_valid_timestamp, timestamp_or};
use crate::errors::{FsError, FsErrorView};
use crate::frecency::{calculate_frecency, frecency_of};
use crate::text::{
    parse_decimal, read_signed, read_unsigned, skip_marks, split_on,
    split_windows, substring, to_chars, trim_window, trimmed, window_text, windows_text,
    windows_within, without_leading, word_windows, words,
};

verus! {

/// The last commit of a repository.
#[derive(Debug)]
pub struct CommitInfo {
    /// Abbreviated commit hash.
    pub hash: String,
    /// First line of the commit message.
    pub message: String,
    /// Name of the author.
    pub author: String,
    /// Commit time in epoch seconds.
    pub timestamp: i64,
}

/// Mathematical value of a [`CommitInfo`].
pub struct CommitInfoView {
    pub hash: Seq<char>,
    pub message: Seq<char>,
    pub author: Seq<char>,
    pub timestamp: i64,
}

impl View for CommitInfo {
    type V = CommitInfoView;

    open spec fn view(&self) -> CommitInfoView {
        CommitInfoView {
            hash: self.hash@,
            message: self.message@,
            author: self.author@,
            timestamp: self.timestamp,
        }
    }
}

impl Clone for CommitInfo {
    fn clone(&self) -> (r: Self)
        ensures
            r@ == self@,
    {
        CommitInfo {
            hash: self.hash.clone(),
            message: self.message.clone(),
            author: self.author.clone(),
            timestamp: self.timestamp,
        }
    }
}

/// Snapshot of the state of a repository.
#[derive(Debug)]
pub struct ProjectGitStatus {
    /// Name of the checked-out branch, `(detached)` if there is none.
    pub current_branch: String,
    /// Whether the working tree holds changes that are not committed.
    pub has_uncommitted: bool,
    /// Commits that the upstream lacks.
    pub ahead: usize,
    /// Commits that only the upstream has.
    pub behind: usize,
    /// The most recent commit, if there is one.
    pub last_commit: Option<CommitInfo>,
}

/// Mathematical value of a [`ProjectGitStatus`].
pub struct ProjectGitStatusView {
    pub current_branch: Seq<char>,
    pub has_uncommitted: bool,
    pub ahead: usize,
    pub behind: usize,
    pub last_commit: Option<CommitInfoView>,
}

impl View for ProjectGitStatus {
    type V = ProjectGitStatusView;

    open spec fn view(&self) -> ProjectGitStatusView {
        ProjectGitStatusView {
            current_branch: self.current_branch@,
            has_uncommitted: self.has_uncommitted,
            ahead: self.ahead,
            behind: self.behind,
            last_commit: match self.last_commit {
                Some(c) => Some(c@),
                None => None,
            },
        }
    }
}

impl Clone for ProjectGitStatus {
    fn clone(&self) -> (r: Self)
        ensures
            r@ == self@,
    {
        ProjectGitStatus {
            current_branch: self.current_branch.clone(),
            has_uncommitted: self.has_uncommitted,
            ahead: self.ahead,
            behind: self.behind,
            last_commit: match &self.last_commit {
                Some(c) => Some(c.clone()),
                None => None,
            },
        }
    }
}

/// One indexed repository.
#[derive(Debug)]
pub struct Project {
    /// Absolute path of the repository root; the identity of the project.
    pub path: String,
    /// Display name: the last component of the path when the record was made.
    pub name: String,
    /// Time of the last commit, or of the last change to the directory.
    pub last_modified: i64,
    /// State of the repository when it was last probed.
    pub git_status: ProjectGitStatus,
    /// Ranking score in thousandths of a point.
    pub frecency_score: u64,
    /// When the project was last opened, if ever.
    pub last_accessed: Option<i64>,
    /// How often the project was opened.
    pub access_count: u32,
    /// First meaningful line of the README, if one was found.
    pub readme_excerpt: Option<String>,
}

/// Mathematical value of a [`Project`].
pub struct ProjectView {
    pub path: Seq<char>,
    pub name: Seq<char>,
    pub last_modified: i64,
    pub git_status: ProjectGitStatusView,
    pub frecency_score: u64,
    pub last_accessed: Option<i64>,
    pub access_count: u32,
    pub readme_excerpt: Option<Seq<char>>,
}

impl View for Project {
    type V = ProjectView;

    open spec fn view(&self) -> ProjectView {
        ProjectView {
            path: self.path@,
            name: self.name@,
            last_modified: self.last_modified,
            git_status: self.git_status@,
            frecency_score: self.frecency_score,
            last_accessed: self.last_accessed,
            access_count: self.access_count,
            readme_excerpt: match self.readme_excerpt {
                Some(s) => Some(s@),
                None => None,
            },
        }
    }
}

impl Clone for Project {
    fn clone(&self) -> (r: Self)
        ensures
            r@ == self@,
    {
        Project {
            path: self.path.clone(),
            name: self.name.clone(),
            last_modified: self.last_modified,
            git_status: self.git_status.clone(),
            frecency_score: self.frecency_score,
            last_accessed: self.last_accessed,
            access_count: self.access_count,
            readme_excerpt: match &self.readme_excerpt {
                Some(s) => Some(s.clone()),
                None => None,
            },
        }
    }
}

/// What one run of the version-control tool gave back.
#[derive(Debug)]
pub struct CommandOutput {
    /// Whether the tool reported success.
    pub success: bool,
    /// What the tool wrote to its standard output.
    pub stdout: String,
}


/// When a directory was last modified, as far as the file system told.
#[derive(Debug)]
pub enum DirectoryTime {
    /// The time of the last modification, in epoch seconds.
    Known(i64),
    /// The metadata of the directory could not be read.
    NoMetadata { reason: String },
    /// The metadata holds no time of modification.
    NoTime { reason: String },
}

/// Everything a probe of one directory observed. Each query holds what the
/// version-control tool gave back, or the reason why it could not be run.
#[derive(Debug)]
pub struct RepoProbe {
    /// Whether the path is a directory.
    pub is_dir: bool,
    /// Whether the version-control tool recognises the directory as a repository.
    pub is_repo: bool,
    /// The last component of the path, if it has one that is valid text.
    pub dir_name: Option<String>,
    /// The query for the name of the current branch.
    pub branch: Result<CommandOutput, String>,
    /// The query for the list of uncommitted changes.
    pub status: Result<CommandOutput, String>,
    /// The query for the two commit counts relative to the upstream.
    pub upstream: Result<CommandOutput, String>,
    /// The query for the last commit, one line of `hash|subject|author|seconds`.
    pub log: Result<CommandOutput, String>,
    /// When the directory was last modified, or why that could not be read.
    pub modified: DirectoryTime,
    /// The contents of the conventional README files, in the order of
    /// [`readme_names`]; `None` where a file is missing or unreadable.
    pub readmes: Vec<Option<String>>,
}

/// The branch that a branch query names: its output without surrounding
/// white space, or `(detached)` when the query failed or printed nothing.
pub open spec fn branch_name(out: CommandOutput) -> Seq<char> {
    if out.success && trimmed(out.stdout@).len() > 0 {
        trimmed(out.stdout@)
    } else {
        "(detached)"@
    }
}

/// A commit count as the upstream query prints it; text that is no number
/// counts as zero.
pub open spec fn count_or_zero(word: Seq<char>) -> usize {
    match parse_decimal(word, false, 0, usize::MAX as int) {
        Some(n) => n as usize,
        None => 0,
    }
}

/// The commits ahead of and behind the upstream. Both are zero unless the
/// query ran, succeeded and printed exactly two words.
pub open spec fn ahead_behind(query: Result<CommandOutput, String>) -> (usize, usize) {
    match query {
        Ok(out) => {
            let w = words(out.stdout@);
            if out.success && w.len() == 2 {
                (count_or_zero(w[0]), count_or_zero(w[1]))
            } else {
                (0, 0)
            }
        },
        Err(_) => (0, 0),
    }
}

/// The last commit that a log query describes, or the reason why it
/// describes none. A commit time that the calendar cannot represent is
/// replaced by `now`.
pub open spec fn last_commit_of(query: Result<CommandOutput, String>, now: i64) -> Result<
    CommitInfoView,
    FsErrorView,
> {
    match query {
        Err(reason) => Err(
            FsErrorView::IoError { context: "Failed to get last commit"@, reason: reason@ },
        ),
        Ok(out) => {
            let fields = split_on(trimmed(out.stdout@), '|');
            if !out.success {
                Err(FsErrorView::InvalidFormat { format: "Failed to get last commit"@ })
            } else if fields.len() < 4 {
                Err(FsErrorView::InvalidFormat { format: "Invalid git log format"@ })
            } else {
                match parse_decimal(fields[3], true, i64::MIN as int, i64::MAX as int) {
                    None => Err(FsErrorView::InvalidFormat { format: "Invalid timestamp"@ }),
                    Some(t) => Ok(
                        CommitInfoView {
                            hash: fields[0],
                            message: fields[1],
                            author: fields[2],
                            timestamp: if is_valid_timestamp(t as i64) {
                                t as i64
                            } else {
                                now
                            },
                        },
                    ),
                }
            }
        },
    }
}

/// What a line of a README contributes: the line without surrounding white
/// space, without heading markers, and again without surrounding white space.
pub open spec fn excerpt_of_line(line: Seq<char>) -> Seq<char> {
    trimmed(without_leading(trimmed(line), '#'))
}

/// The first non-empty contribution among `lines`.
pub open spec fn first_excerpt(lines: Seq<Seq<char>>) -> Option<Seq<char>>
    decreases lines.len(),
{
    if lines.len() == 0 {
        None
    } else if excerpt_of_line(lines[0]).len() > 0 {
        Some(excerpt_of_line(lines[0]))
    } else {
        first_excerpt(lines.drop_first())
    }
}

/// The excerpt of a README: the first line that is not empty once heading
/// markers and white space are gone.
pub open spec fn excerpt_of(content: Seq<char>) -> Option<Seq<char>> {
    first_excerpt(split_on(content, '\n'))
}

/// The first README that was found.
pub open spec fn first_present(candidates: Seq<Option<String>>) -> Option<String>
    decreases candidates.len(),
{
    if candidates.len() == 0 {
        None
    } else if candidates[0] is Some {
        candidates[0]
    } else {
        first_present(candidates.drop_first())
    }
}

/// The excerpt of the first README that was found; later files are not read.
pub open spec fn readme_excerpt_of(candidates: Seq<Option<String>>) -> Option<Seq<char>> {
    match first_present(candidates) {
        Some(content) => excerpt_of(content@),
        None => None,
    }
}

/// The repository state that a probe describes. Only a branch query or a
/// status query that could not be run makes the whole probe fail; the other
/// queries degrade to zero counts and to no last commit.
pub open spec fn git_status_of(probe: RepoProbe, now: i64) -> Result<
    ProjectGitStatusView,
    FsErrorView,
> {
    match probe.branch {
        Err(reason) => Err(
            FsErrorView::IoError { context: "Failed to get git branch"@, reason: reason@ },
        ),
        Ok(branch) => match probe.status {
            Err(reason) => Err(
                FsErrorView::IoError { context: "Failed to check git status"@, reason: reason@ },
            ),
            Ok(status) => Ok(
                ProjectGitStatusView {
                    current_branch: branch_name(branch),
                    has_uncommitted: status.stdout@.len() > 0,
                    ahead: ahead_behind(probe.upstream).0,
                    behind: ahead_behind(probe.upstream).1,
                    last_commit: match last_commit_of(probe.log, now) {
                        Ok(commit) => Some(commit),
                        Err(_) => None,
                    },
                },
            ),
        },
    }
}

/// When a project was last modified: the time of its last commit, else the
/// time the directory was last changed.
pub open spec fn last_modified_of(
    path: Seq<char>,
    status: ProjectGitStatusView,
    modified: DirectoryTime,
) -> Result<i64, FsErrorView> {
    match status.last_commit {
        Some(commit) => Ok(commit.timestamp),
        None => match modified {
            DirectoryTime::Known(seconds) => Ok(seconds),
            DirectoryTime::NoMetadata { reason } => Err(
                FsErrorView::IoError {
                    context: "Failed to read directory metadata: "@ + path,
                    reason: reason@,
                },
            ),
            DirectoryTime::NoTime { reason } => Err(
                FsErrorView::IoError { context: "Failed to get modified time"@, reason: reason@ },
            ),
        },
    }
}

/// The display name of a project: the last component of its path.
pub open spec fn display_name(dir_name: Option<String>) -> Seq<char> {
    match dir_name {
        Some(name) => name@,
        None => "unknown"@,
    }
}

/// The project record that a probe of `path` yields, or the reason why the
/// directory is no project. A fresh record has never been opened: its access
/// count and its score are zero.
pub open spec fn project_of(path: Seq<char>, probe: RepoProbe, now: i64) -> Result<
    ProjectView,
    FsErrorView,
> {
    if !probe.is_dir {
        Err(FsErrorView::InvalidFormat { format: path + " is not a directory"@ })
    } else if !probe.is_repo {
        Err(FsErrorView::InvalidFormat { format: path + " is not a git repository"@ })
    } else {
        match git_status_of(probe, now) {
            Err(error) => Err(error),
            Ok(status) => match last_modified_of(path, status, probe.modified) {
                Err(error) => Err(error),
                Ok(seconds) => Ok(
                    ProjectView {
                        path: path,
                        name: display_name(probe.dir_name),
                        last_modified: seconds,
                        git_status: status,
                        frecency_score: 0,
                        last_accessed: None,
                        access_count: 0,
                        readme_excerpt: readme_excerpt_of(probe.readmes@),
                    },
                ),
            },
        }
    }
}

/// Whether a result holds the value that `expected` describes.
pub open spec fn project_result_is(
    r: Result<Project, FsError>,
    expected: Result<ProjectView, FsErrorView>,
) -> bool {
    match expected {
        Ok(project) => r matches Ok(p) && p@ == project,
        Err(error) => r matches Err(e) && e@ == error,
    }
}

/// The conventional names of a README file, in the order in which they are
/// tried.
pub fn readme_names() -> (names: Vec<&'static str>)
    ensures
        names@.len() == 5,
        names@[0]@ == "README.md"@,
        names@[1]@ == "README.MD"@,
        names@[2]@ == "readme.md"@,
        names@[3]@ == "README"@,
        names@[4]@ == "Readme.md"@,
{
    let mut names: Vec<&'static str> = Vec::new();
    names.push("README.md");
    names.push("README.MD");
    names.push("readme.md");
    names.push("README");
    names.push("Readme.md");
    names
}

/// The excerpt of a README, if it has a meaningful line.
pub fn excerpt(content: &str) -> (r: Option<String>)
    ensures
        match excerpt_of(content@) {
            Some(text) => r matches Some(s) && s@ == text,
            None => r.is_none(),
        },
{
    let v = to_chars(content);
    let lines = split_windows(&v, 0, v.len(), '\n');
    let ghost texts = split_on(content@, '\n');
    proof {
        assert(v@.subrange(0, v.len() as int) =~= v@);
        assert(texts.skip(0) =~= texts);
    }
    let mut k: usize = 0;
    while k < lines.len()
        invariant
            k <= lines.len(),
            v@ == content@,
            texts == split_on(content@, '\n'),
            texts == windows_text(v@, lines@),
            windows_within(lines@, 0, v.len() as int),
            first_excerpt(texts) == first_excerpt(texts.skip(k as int)),
        decreases lines.len() - k,
    {
        let w = lines[k];
        let (a, b) = trim_window(&v, w.0, w.1);
        let c = skip_marks(&v, a, b, '#');
        let (d, e) = trim_window(&v, c, b);
        proof {
            assert(texts.skip(k as int)[0] == texts[k as int]);
            assert(texts[k as int] == window_text(v@, w));
            assert(texts.skip(k as int).drop_first() =~= texts.skip(k + 1));
            assert(v@.subrange(d as int, e as int) == excerpt_of_line(texts[k as int]));
        }
        if d < e {
            proof {
                assert(v@.subrange(d as int, e as int).len() == e - d);
                assert(texts.skip(k as int).len() > 0);
            }
            return Some(substring(content, d, e));
        }
        proof {
            assert(v@.subrange(d as int, e as int).len() == 0);
        }
        k = k + 1;
    }
    None
}

impl Project {
    /// The name of the current branch.
    pub fn get_current_branch(query: &Result<CommandOutput, String>) -> (r: Result<
        String,
        FsError,
    >)
        ensures
            match *query {
                Ok(out) => r matches Ok(name) && name@ == branch_name(out),
                Err(reason) => r matches Err(e) && e@ == (FsErrorView::IoError {
                    context: "Failed to get git branch"@,
                    reason: reason@,
                }),
            },
    {
        match query {
            Err(reason) => Err(FsError::io_error("Failed to get git branch", reason.as_str())),
            Ok(out) => {
                if !out.success {
                    return Ok(String::from_str("(detached)"));
                }
                let v = to_chars(out.stdout.as_str());
                let (a, b) = trim_window(&v, 0, v.len());
                proof {
                    assert(v@.subrange(0, v.len() as int) =~= v@);
                }
                if a == b {
                    Ok(String::from_str("(detached)"))
                } else {
                    Ok(substring(out.stdout.as_str(), a, b))
                }
            },
        }
    }

    /// Whether the working tree holds uncommitted changes: whether the status
    /// query printed anything at all.
    pub fn has_uncommitted_changes(query: &Result<CommandOutput, String>) -> (r: Result<
        bool,
        FsError,
    >)
        ensures
            match *query {
                Ok(out) => r == Ok::<bool, FsError>(out.stdout@.len() > 0),
                Err(reason) => r matches Err(e) && e@ == (FsErrorView::IoError {
                    context: "Failed to check git status"@,
                    reason: reason@,
                }),
            },
    {
        match query {
            Err(reason) => Err(FsError::io_error("Failed to check git status", reason.as_str())),
            Ok(out) => Ok(!out.stdout.as_str().is_empty()),
        }
    }

    /// The commits ahead of and behind the upstream; zero and zero when there
    /// is no upstream or the query failed.
    pub fn get_ahead_behind(query: &Result<CommandOutput, String>) -> (r: (usize, usize))
        ensures
            r == ahead_behind(*query),
    {
        match query {
            Ok(out) => {
                if !out.success {
                    return (0, 0);
                }
                let v = to_chars(out.stdout.as_str());
                let ws = word_windows(&v, 0, v.len());
                proof {
                    assert(v@.subrange(0, v.len() as int) =~= v@);
                }
                if ws.len() != 2 {
                    return (0, 0);
                }
                proof {
                    assert(windows_text(v@, ws@)[0] == window_text(v@, ws@[0]));
                    assert(windows_text(v@, ws@)[1] == window_text(v@, ws@[1]));
                }
                let ahead = match read_unsigned(&v, ws[0].0, ws[0].1) {
                    Some(n) => n,
                    None => 0,
                };
                let behind = match read_unsigned(&v, ws[1].0, ws[1].1) {
                    Some(n) => n,
                    None => 0,
                };
                (ahead, behind)
            },
            Err(_) => (0, 0),
        }
    }

    /// The last commit of the repository.
    pub fn get_last_commit(query: &Result<CommandOutput, String>, now: i64) -> (r: Result<
        CommitInfo,
        FsError,
    >)
        ensures
            match last_commit_of(*query, now) {
                Ok(commit) => r matches Ok(c) && c@ == commit,
                Err(error) => r matches Err(e) && e@ == error,
            },
    {
        match query {
            Err(reason) => Err(FsError::io_error("Failed to get last commit", reason.as_str())),
            Ok(out) => {
                if !out.success {
                    return Err(FsError::format_error("Failed to get last commit"));
                }
                let text = out.stdout.as_str();
                let v = to_chars(text);
                let (a, b) = trim_window(&v, 0, v.len());
                let ws = split_windows(&v, a, b, '|');
                proof {
                    assert(v@.subrange(0, v.len() as int) =~= v@);
                }
                if ws.len() < 4 {
                    return Err(FsError::format_error("Invalid git log format"));
                }
                proof {
                    assert(windows_text(v@, ws@)[0] == window_text(v@, ws@[0]));
                    assert(windows_text(v@, ws@)[1] == window_text(v@, ws@[1]));
                    assert(windows_text(v@, ws@)[2] == window_text(v@, ws@[2]));
                    assert(windows_text(v@, ws@)[3] == window_text(v@, ws@[3]));
                }
                match read_signed(&v, ws[3].0, ws[3].1) {
                    None => Err(FsError::format_error("Invalid timestamp")),
                    Some(seconds) => Ok(
                        CommitInfo {
                            hash: substring(text, ws[0].0, ws[0].1),
                            message: substring(text, ws[1].0, ws[1].1),
                            author: substring(text, ws[2].0, ws[2].1),
                            timestamp: timestamp_or(seconds, now),
                        },
                    ),
                }
            },
        }
    }

    /// The excerpt of the first README that was found.
    pub fn extract_readme_excerpt(candidates: &Vec<Option<String>>) -> (r: Option<String>)
        ensures
            match readme_excerpt_of(candidates@) {
                Some(text) => r matches Some(s) && s@ == text,
                None => r.is_none(),
            },
    {
        let mut k: usize = 0;
        proof {
            assert(candidates@.skip(0) =~= candidates@);
        }
        while k < candidates.len()
            invariant
                k <= candidates.len(),
                first_present(candidates@) == first_present(candidates@.skip(k as int)),
            decreases candidates.len() - k,
        {
            proof {
                assert(candidates@.skip(k as int)[0] == candidates@[k as int]);
                assert(candidates@.skip(k as int).drop_first() =~= candidates@.skip(k + 1));
            }
            match &candidates[k] {
                Some(content) => {
                    return excerpt(content.as_str());
                },
                None => {},
            }
            k = k + 1;
        }
        None
    }

    /// The whole repository state that a probe describes.
    pub fn get_git_status(probe: &RepoProbe, now: i64) -> (r: Result<ProjectGitStatus, FsError>)
        ensures
            match git_status_of(*probe, now) {
                Ok(status) => r matches Ok(s) && s@ == status,
                Err(error) => r matches Err(e) && e@ == error,
            },
    {
        let current_branch = match Project::get_current_branch(&probe.branch) {
            Ok(name) => name,
            Err(e) => {
                return Err(e);
            },
        };
        let has_uncommitted = match Project::has_uncommitted_changes(&probe.status) {
            Ok(flag) => flag,
            Err(e) => {
                return Err(e);
            },
        };
        let (ahead, behind) = Project::get_ahead_behind(&probe.upstream);
        let last_commit = match Project::get_last_commit(&probe.log, now) {
            Ok(commit) => Some(commit),
            Err(_) => None,
        };
        Ok(ProjectGitStatus { current_branch, has_uncommitted, ahead, behind, last_commit })
    }

    /// When the project was last modified.
    pub fn get_last_modified_time(
        path: &str,
        git_status: &ProjectGitStatus,
        modified: &DirectoryTime,
    ) -> (r: Result<i64, FsError>)
        ensures
            match last_modified_of(path@, git_status@, *modified) {
                Ok(seconds) => r == Ok::<i64, FsError>(seconds),
                Err(error) => r matches Err(e) && e@ == error,
            },
    {
        match &git_status.last_commit {
            Some(commit) => Ok(commit.timestamp),
            None => match modified {
                DirectoryTime::Known(seconds) => Ok(*seconds),
                DirectoryTime::NoMetadata { reason } => Err(
                    FsError::IoError {
                        context: String::from_str("Failed to read directory metadata: ").concat(
                            path,
                        ),
                        reason: reason.clone(),
                    },
                ),
                DirectoryTime::NoTime { reason } => Err(
                    FsError::io_error("Failed to get modified time", reason.as_str()),
                ),
            },
        }
    }

    /// Builds the record of the repository at `path` from what a probe of
    /// that directory observed.
    pub fn from_probe(path: String, probe: &RepoProbe, now: i64) -> (r: Result<Project, FsError>)
        ensures
            project_result_is(r, project_of(path@, *probe, now)),
    {
        if !probe.is_dir {
            return Err(FsError::invalid_format(path.as_str(), " is not a directory"));
        }
        if !probe.is_repo {
            return Err(FsError::invalid_format(path.as_str(), " is not a git repository"));
        }
        let name = match &probe.dir_name {
            Some(name) => name.clone(),
            None => String::from_str("unknown"),
        };
        let git_status = match Project::get_git_status(probe, now) {
            Ok(status) => status,
            Err(e) => {
                return Err(e);
            },
        };
        let last_modified = match Project::get_last_modified_time(
            path.as_str(),
            &git_status,
            &probe.modified,
        ) {
            Ok(seconds) => seconds,
            Err(e) => {
                return Err(e);
            },
        };
        let readme_excerpt = Project::extract_readme_excerpt(&probe.readmes);
        Ok(
            Project {
                path,
                name,
                last_modified,
                git_status,
                frecency_score: 0,
                last_accessed: None,
                access_count: 0,
                readme_excerpt,
            },
        )
    }

    /// Builds the record of the repository at `path`, reading the clock for
    /// the one case in which a commit time cannot be represented.
    pub fn from_git_repo(path: String, probe: &RepoProbe) -> (r: Result<Project, FsError>)
        ensures
            exists|now: i64|
                is_valid_timestamp(now) && project_result_is(
                    r,
                    #[trigger] project_of(path@, *probe, now),
                ),
    {
        let now = crate::clock::now();
        Project::from_probe(path, probe, now)
    }

    /// Recomputes the score from the current access count and from the time
    /// of the last access; `frequency` evaluates the frequency term of an
    /// access count.
    pub fn update_frecency_score<F: Fn(u32) -> u32>(&mut self, now: i64, frequency: F)
        requires
            frequency.requires((old(self).access_count,)),
        ensures
            exists|term: u32|
                frequency.ensures((old(self).access_count,), term) && *final(self) == (Project {
                    frecency_score: #[trigger] frecency_of(
                        term as nat,
                        old(self).last_accessed,
                        now as int,
                    ) as u64,
                    ..*old(self)
                }),
    {
        self.frecency_score = calculate_frecency(
            self.access_count,
            self.last_accessed,
            now,
            frequency,
        );
    }
}

} // verus!
