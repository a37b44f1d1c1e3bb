//! The project index: every known project, keyed by its path, together with
//! the reconciliation that a resync performs and the recording of accesses.
//!
//! The index keeps its projects in a list in which no path occurs twice. The
//! list is the model of the index: a path is looked up by finding the one
//! entry that carries it, and the order of the list is the order in which
//! projects of equal score are ranked.

use vstd::prelude::*;
use vstd::string::*;
use crate::clock::is_valid_timestamp;
use crate::errors::{FsError, FsErrorView};
use crate::frecency::{frecency_of, score_from_term};
use crate::models::EntryKind;
use crate::project::{project_of, Project, ProjectView, RepoProbe};
use crate::search::{by_frecency, ref_views, ProjectSearcher};

verus! {

/// The current version of the stored index.
pub const INDEX_VERSION: u32 = 1;

/// The mathematical values of a list of projects.
pub open spec fn views(projects: Seq<Project>) -> Seq<ProjectView> {
    projects.map_values(|p: Project| p@)
}

/// Whether some entry carries `path`.
pub open spec fn has_path(entries: Seq<ProjectView>, path: Seq<char>) -> bool {
    exists|i: int| 0 <= i < entries.len() && (#[trigger] entries[i]).path == path
}

/// The place of an entry that carries `path`.
pub open spec fn position(entries: Seq<ProjectView>, path: Seq<char>) -> int {
    choose|i: int| 0 <= i < entries.len() && (#[trigger] entries[i]).path == path
}

/// The entry stored under `path`, if there is one.
pub open spec fn lookup(entries: Seq<ProjectView>, path: Seq<char>) -> Option<ProjectView> {
    if has_path(entries, path) {
        Some(entries[position(entries, path)])
    } else {
        None
    }
}

/// No path occurs twice.
pub open spec fn distinct_paths(entries: Seq<ProjectView>) -> bool {
    forall|i: int, j: int|
        0 <= i < j < entries.len() ==> (#[trigger] entries[i]).path != (#[trigger] entries[j]).path
}

/// Stores `project` under its path: in place of the entry that carries the
/// path already, else at the end.
pub open spec fn upsert(entries: Seq<ProjectView>, project: ProjectView) -> Seq<ProjectView> {
    if has_path(entries, project.path) {
        entries.update(position(entries, project.path), project)
    } else {
        entries.push(project)
    }
}

/// A freshly built project with the usage history that `prior` holds for its
/// path: access count, time of last access and score are carried forward,
/// everything else is fresh.
pub open spec fn carried(fresh: ProjectView, prior: Seq<ProjectView>) -> ProjectView {
    match lookup(prior, fresh.path) {
        Some(known) => ProjectView {
            access_count: known.access_count,
            last_accessed: known.last_accessed,
            frecency_score: known.frecency_score,
            ..fresh
        },
        None => fresh,
    }
}

/// The entries of the index after a resync that discovered `fresh`, in that
/// order, when the index held `prior` before. Entries of `prior` whose path
/// was not discovered again are gone.
pub open spec fn reconciled(prior: Seq<ProjectView>, fresh: Seq<ProjectView>) -> Seq<ProjectView>
    decreases fresh.len(),
{
    if fresh.len() == 0 {
        Seq::<ProjectView>::empty()
    } else {
        upsert(reconciled(prior, fresh.drop_last()), carried(fresh.last(), prior))
    }
}

/// The entry at place `i` is the one that a lookup of its path finds.
pub proof fn lemma_position_unique(entries: Seq<ProjectView>, i: int)
    requires
        distinct_paths(entries),
        0 <= i < entries.len(),
    ensures
        has_path(entries, entries[i].path),
        position(entries, entries[i].path) == i,
        lookup(entries, entries[i].path) == Some(entries[i]),
{
    let j = position(entries, entries[i].path);
    assert(0 <= j < entries.len() && entries[j].path == entries[i].path);
    if j < i {
        assert(entries[j].path != entries[i].path);
    }
    if i < j {
        assert(entries[i].path != entries[j].path);
    }
}

/// Storing a project keeps the paths distinct, and a lookup of its path
/// finds it afterwards; other paths are looked up as before.
pub proof fn lemma_upsert(entries: Seq<ProjectView>, project: ProjectView)
    requires
        distinct_paths(entries),
    ensures
        distinct_paths(upsert(entries, project)),
        lookup(upsert(entries, project), project.path) == Some(project),
        forall|path: Seq<char>|
            path != project.path ==> #[trigger] lookup(upsert(entries, project), path) == lookup(
                entries,
                path,
            ),
        forall|path: Seq<char>|
            has_path(upsert(entries, project), path) <==> (path == project.path || has_path(
                entries,
                path,
            )),
{
    let after = upsert(entries, project);
    let at = if has_path(entries, project.path) {
        position(entries, project.path)
    } else {
        entries.len() as int
    };
    assert(0 <= at < after.len() && after[at] == project);
    assert(forall|i: int| 0 <= i < after.len() && i != at ==> after[i] == entries[i]);
    assert(forall|i: int| 0 <= i < entries.len() && i != at ==> after[i] == entries[i]);
    assert forall|i: int, j: int| 0 <= i < j < after.len() implies (#[trigger] after[i]).path != (
    #[trigger] after[j]).path by {
        if i == at {
            if has_path(entries, project.path) {
                assert(entries[at].path == project.path);
                assert(entries[i].path != entries[j].path);
            } else {
                assert(j < entries.len());
            }
        } else if j == at {
            if has_path(entries, project.path) {
                assert(entries[at].path == project.path);
                assert(entries[i].path != entries[j].path);
            } else {
                assert(entries[i].path != project.path);
            }
        } else {
            assert(entries[i].path != entries[j].path);
        }
    }
    lemma_position_unique(after, at);
    assert forall|path: Seq<char>| path != project.path implies #[trigger] lookup(after, path)
        == lookup(entries, path) by {
        if has_path(entries, path) {
            let i = position(entries, path);
            assert(after[i] == entries[i]);
            lemma_position_unique(after, i);
        } else if has_path(after, path) {
            let i = position(after, path);
            assert(after[i] == entries[i]);
        }
    }
    assert forall|path: Seq<char>| has_path(after, path) <==> (path == project.path || has_path(
        entries,
        path,
    )) by {
        if has_path(entries, path) && path != project.path {
            let i = position(entries, path);
            assert(after[i] == entries[i]);
        }
        if has_path(after, path) && path != project.path {
            let i = position(after, path);
            assert(after[i] == entries[i]);
        }
    }
}

/// A reconciled list never holds a path twice.
pub proof fn lemma_reconciled_distinct(prior: Seq<ProjectView>, fresh: Seq<ProjectView>)
    ensures
        distinct_paths(reconciled(prior, fresh)),
    decreases fresh.len(),
{
    if fresh.len() > 0 {
        lemma_reconciled_distinct(prior, fresh.drop_last());
        lemma_upsert(reconciled(prior, fresh.drop_last()), carried(fresh.last(), prior));
    }
}

/// The usage history of a project: access count, time of last access and
/// score. A resync carries exactly these forward.
pub open spec fn history(project: ProjectView) -> (u32, Option<i64>, u64) {
    (project.access_count, project.last_accessed, project.frecency_score)
}

/// After a resync the index holds exactly the paths that were discovered,
/// and under each path a discovered project of that path with the usage
/// history that was carried forward for it.
pub proof fn lemma_reconciled_lookup(
    prior: Seq<ProjectView>,
    fresh: Seq<ProjectView>,
    path: Seq<char>,
)
    ensures
        has_path(reconciled(prior, fresh), path) <==> has_path(fresh, path),
        has_path(fresh, path) ==> exists|i: int|
            0 <= i < fresh.len() && (#[trigger] fresh[i]).path == path && lookup(
                reconciled(prior, fresh),
                path,
            ) == Some(carried(fresh[i], prior)),
    decreases fresh.len(),
{
    if fresh.len() > 0 {
        let init = fresh.drop_last();
        let last = fresh.last();
        lemma_reconciled_lookup(prior, init, path);
        lemma_reconciled_distinct(prior, init);
        lemma_upsert(reconciled(prior, init), carried(last, prior));
        assert(carried(last, prior).path == last.path);
        if path == last.path {
            assert(fresh[fresh.len() - 1].path == path);
        } else {
            if has_path(fresh, path) {
                let i = choose|i: int| 0 <= i < fresh.len() && (#[trigger] fresh[i]).path == path;
                assert(init[i].path == path);
            }
            if has_path(init, path) {
                let i = choose|i: int|
                    0 <= i < init.len() && (#[trigger] init[i]).path == path && lookup(
                        reconciled(prior, init),
                        path,
                    ) == Some(carried(init[i], prior));
                assert(fresh[i].path == path);
            }
        }
    }
}

/// A path that the index held before a resync and that the
/// resync discovered again keeps its access count, its time of last access
/// and its score, while everything else is what the resync found.
pub proof fn lemma_carry_forward(prior: Seq<ProjectView>, fresh: Seq<ProjectView>, path: Seq<char>)
    requires
        distinct_paths(fresh),
        has_path(prior, path),
        has_path(fresh, path),
    ensures
        lookup(reconciled(prior, fresh), path) == Some(
            ProjectView {
                access_count: lookup(prior, path)->0.access_count,
                last_accessed: lookup(prior, path)->0.last_accessed,
                frecency_score: lookup(prior, path)->0.frecency_score,
                ..lookup(fresh, path)->0
            },
        ),
{
    lemma_reconciled_lookup(prior, fresh, path);
    let i = choose|i: int|
        0 <= i < fresh.len() && (#[trigger] fresh[i]).path == path && lookup(
            reconciled(prior, fresh),
            path,
        ) == Some(carried(fresh[i], prior));
    lemma_position_unique(fresh, i);
}

/// A path that the index did not hold before a resync enters it exactly as
/// it was discovered.
pub proof fn lemma_new_path_is_fresh(
    prior: Seq<ProjectView>,
    fresh: Seq<ProjectView>,
    path: Seq<char>,
)
    requires
        distinct_paths(fresh),
        !has_path(prior, path),
        has_path(fresh, path),
    ensures
        lookup(reconciled(prior, fresh), path) == lookup(fresh, path),
{
    lemma_reconciled_lookup(prior, fresh, path);
    let i = choose|i: int|
        0 <= i < fresh.len() && (#[trigger] fresh[i]).path == path && lookup(
            reconciled(prior, fresh),
            path,
        ) == Some(carried(fresh[i], prior));
    lemma_position_unique(fresh, i);
}

/// A resync drops every path that it did not discover.
pub proof fn lemma_vanished_path_dropped(
    prior: Seq<ProjectView>,
    fresh: Seq<ProjectView>,
    path: Seq<char>,
)
    requires
        !has_path(fresh, path),
    ensures
        lookup(reconciled(prior, fresh), path).is_none(),
{
    lemma_reconciled_lookup(prior, fresh, path);
}

/// When a second resync discovers the same paths as
/// the first, the index holds the same paths after it as before it, and
/// every path keeps its access count, its time of last access and its score,
/// whatever the second resync found otherwise.
pub proof fn lemma_resync_idempotent(
    prior: Seq<ProjectView>,
    first: Seq<ProjectView>,
    second: Seq<ProjectView>,
    path: Seq<char>,
)
    requires
        first.len() == second.len(),
        forall|i: int| 0 <= i < first.len() ==> (#[trigger] first[i]).path == second[i].path,
    ensures
        has_path(reconciled(reconciled(prior, first), second), path) <==> has_path(
            reconciled(prior, first),
            path,
        ),
        has_path(reconciled(prior, first), path) ==> history(
            lookup(reconciled(reconciled(prior, first), second), path)->0,
        ) == history(lookup(reconciled(prior, first), path)->0),
{
    let once = reconciled(prior, first);
    let twice = reconciled(once, second);
    lemma_reconciled_lookup(prior, first, path);
    lemma_reconciled_lookup(once, second, path);
    if has_path(first, path) {
        let i = choose|i: int| 0 <= i < first.len() && (#[trigger] first[i]).path == path;
        assert(second[i].path == path);
    }
    if has_path(second, path) {
        let i = choose|i: int| 0 <= i < second.len() && (#[trigger] second[i]).path == path;
        assert(first[i].path == path);
    }
}

/// Rebuilding an index from its own entries gives the same entries back,
/// in the same order: storing an index and loading what was stored loses
/// no path and changes no project.
pub proof fn lemma_rebuild_is_identity(entries: Seq<ProjectView>)
    requires
        distinct_paths(entries),
    ensures
        reconciled(Seq::<ProjectView>::empty(), entries) == entries,
    decreases entries.len(),
{
    let nothing = Seq::<ProjectView>::empty();
    if entries.len() == 0 {
        assert(reconciled(nothing, entries) =~= entries);
    } else {
        let init = entries.drop_last();
        let last = entries.last();
        assert forall|i: int, j: int| 0 <= i < j < init.len() implies (#[trigger] init[i]).path != (
        #[trigger] init[j]).path by {
            assert(entries[i].path != entries[j].path);
        }
        lemma_rebuild_is_identity(init);
        assert(!has_path(nothing, last.path));
        assert(carried(last, nothing) == last);
        if has_path(init, last.path) {
            let i = choose|i: int| 0 <= i < init.len() && (#[trigger] init[i]).path == last.path;
            assert(entries[i].path != entries[entries.len() - 1].path);
        }
        assert(upsert(init, last) =~= entries);
    }
}

/// Recording an access under a path that the index does not hold changes
/// nothing.
pub proof fn lemma_unknown_access_is_noop(
    entries: Seq<ProjectView>,
    path: Seq<char>,
    frequency: u32,
    now: i64,
)
    requires
        !has_path(entries, path),
    ensures
        with_access(entries, path, frequency, now) == entries,
{
}

/// Recording an access changes the project under the path and no other:
/// the count grows by one, the last access is `now`, and the score is the
/// frequency term plus the full recency weight.
pub proof fn lemma_access_recorded(
    entries: Seq<ProjectView>,
    path: Seq<char>,
    frequency: u32,
    now: i64,
)
    requires
        distinct_paths(entries),
        has_path(entries, path),
    ensures
        with_access(entries, path, frequency, now).len() == entries.len(),
        lookup(with_access(entries, path, frequency, now), path) == Some(
            ProjectView {
                access_count: next_count(lookup(entries, path)->0.access_count),
                last_accessed: Some(now),
                frecency_score: (frequency + 100_000) as u64,
                ..lookup(entries, path)->0
            },
        ),
        forall|other: Seq<char>|
            other != path ==> #[trigger] lookup(
                with_access(entries, path, frequency, now),
                other,
            ) == lookup(entries, other),
{
    let at = position(entries, path);
    let project = opened(entries[at], frequency, now);
    lemma_upsert(entries, project);
    assert(upsert(entries, project) == with_access(entries, path, frequency, now));
}

/// The place of the project that carries `path`.
pub fn find_path(projects: &Vec<Project>, path: &String) -> (r: Option<usize>)
    ensures
        match r {
            Some(i) => i < projects.len() && projects[i as int]@.path == path@,
            None => !has_path(views(projects@), path@),
        },
{
    let mut i: usize = 0;
    while i < projects.len()
        invariant
            i <= projects.len(),
            forall|j: int| 0 <= j < i ==> (#[trigger] views(projects@)[j]).path != path@,
        decreases projects.len() - i,
    {
        if projects[i].path == *path {
            return Some(i);
        }
        i = i + 1;
    }
    None
}

/// Stores `project` under its path in a list that holds no path twice.
pub fn upsert_project(projects: &mut Vec<Project>, project: Project)
    requires
        distinct_paths(views(old(projects)@)),
    ensures
        views(final(projects)@) == upsert(views(old(projects)@), project@),
        distinct_paths(views(final(projects)@)),
{
    let ghost before = views(projects@);
    proof {
        lemma_upsert(before, project@);
    }
    match find_path(projects, &project.path) {
        Some(i) => {
            proof {
                lemma_position_unique(before, i as int);
            }
            projects.set(i, project);
            assert(views(projects@) =~= before.update(i as int, project@));
        },
        None => {
            projects.push(project);
            assert(views(projects@) =~= before.push(project@));
        },
    }
}


/// A directory that a walk of the scan roots came across, with what a probe
/// of it observed.
#[derive(Debug)]
pub struct Candidate {
    /// Absolute path of the directory.
    pub path: String,
    /// What the walk found at the path.
    pub kind: EntryKind,
    /// What the probe of the path observed.
    pub probe: RepoProbe,
}

/// The project that a candidate yields: it must be a directory, it must be
/// a repository root, and its record must build. Anything else is skipped.
pub open spec fn fresh_project(candidate: Candidate, now: i64) -> Option<ProjectView> {
    if candidate.kind == EntryKind::Dir && candidate.probe.is_repo {
        match project_of(candidate.path@, candidate.probe, now) {
            Ok(project) => Some(project),
            Err(_) => None,
        }
    } else {
        None
    }
}

/// The projects that a list of candidates yields, in the order of the list.
pub open spec fn discovered(candidates: Seq<Candidate>, now: i64) -> Seq<ProjectView>
    decreases candidates.len(),
{
    if candidates.len() == 0 {
        Seq::<ProjectView>::empty()
    } else {
        let before = discovered(candidates.drop_last(), now);
        match fresh_project(candidates.last(), now) {
            Some(project) => before.push(project),
            None => before,
        }
    }
}

/// The access count after one more access; it stops at the largest count.
pub open spec fn next_count(count: u32) -> u32 {
    if count < u32::MAX {
        (count + 1) as u32
    } else {
        count
    }
}

/// A project after it was opened at `now`. `frequency` is the frequency term
/// of the new access count.
pub open spec fn opened(project: ProjectView, frequency: u32, now: i64) -> ProjectView {
    ProjectView {
        access_count: next_count(project.access_count),
        last_accessed: Some(now),
        frecency_score: frecency_of(frequency as nat, Some(now), now as int) as u64,
        ..project
    }
}

/// The entries after the project under `path` was opened; unchanged when no
/// entry carries the path.
pub open spec fn with_access(
    entries: Seq<ProjectView>,
    path: Seq<char>,
    frequency: u32,
    now: i64,
) -> Seq<ProjectView> {
    if has_path(entries, path) {
        entries.update(
            position(entries, path),
            opened(entries[position(entries, path)], frequency, now),
        )
    } else {
        entries
    }
}

/// Builds the projects that the candidates yield; a candidate that is no
/// repository root, or whose record does not build, is skipped.
pub fn discover(candidates: &Vec<Candidate>, now: i64) -> (fresh: Vec<Project>)
    ensures
        views(fresh@) == discovered(candidates@, now),
{
    let mut fresh: Vec<Project> = Vec::new();
    let mut k: usize = 0;
    proof {
        assert(candidates@.take(0) =~= Seq::<Candidate>::empty());
        assert(views(fresh@) =~= Seq::<ProjectView>::empty());
    }
    while k < candidates.len()
        invariant
            k <= candidates.len(),
            views(fresh@) == discovered(candidates@.take(k as int), now),
        decreases candidates.len() - k,
    {
        let candidate = &candidates[k];
        let ghost before = views(fresh@);
        proof {
            assert(candidates@.take(k + 1).drop_last() =~= candidates@.take(k as int));
            assert(candidates@.take(k + 1).last() == candidates@[k as int]);
        }
        if candidate.kind == EntryKind::Dir && candidate.probe.is_repo {
            match Project::from_probe(candidate.path.clone(), &candidate.probe, now) {
                Ok(project) => {
                    fresh.push(project);
                    proof {
                        assert(views(fresh@) =~= before.push(project@));
                    }
                },
                Err(_) => {},
            }
        }
        k = k + 1;
    }
    proof {
        assert(candidates@.take(candidates.len() as int) =~= candidates@);
    }
    fresh
}

/// What was found where the index is stored.
#[derive(Debug)]
pub enum CacheFile {
    /// No directory for cached data could be determined.
    NoCacheDir,
    /// There is no stored index yet.
    Missing,
    /// The stored index exists at `path` but could not be read.
    Unreadable { path: String, reason: String },
    /// The stored index was read but is not a valid index.
    Malformed { reason: String },
    /// The stored index, read and understood.
    Parsed { projects: Vec<Project>, last_sync: i64, version: u32 },
}

/// What loading yields for each state of the store. A missing store is no
/// error: it stands for an empty index dated `now`. A store that cannot be
/// read or understood is an error, so that no history is discarded silently.
pub open spec fn loaded(cache: CacheFile, now: i64) -> Result<ProjectIndexView, FsErrorView> {
    match cache {
        CacheFile::NoCacheDir => Err(
            FsErrorView::InvalidFormat { format: "Could not determine cache directory"@ },
        ),
        CacheFile::Missing => Ok(
            ProjectIndexView { projects: Seq::<ProjectView>::empty(), last_sync: now, version: 1 },
        ),
        CacheFile::Unreadable { path, reason } => Err(
            FsErrorView::IoError {
                context: "Failed to read cache file: "@ + path@,
                reason: reason@,
            },
        ),
        CacheFile::Malformed { reason } => Err(
            FsErrorView::InvalidFormat { format: "Invalid cache JSON: "@ + reason@ },
        ),
        CacheFile::Parsed { projects, last_sync, version } => Ok(
            ProjectIndexView {
                projects: reconciled(Seq::<ProjectView>::empty(), views(projects@)),
                last_sync: last_sync,
                version: version,
            },
        ),
    }
}

/// The persistent collection of projects.
#[derive(Debug)]
pub struct ProjectIndex {
    projects: Vec<Project>,
    last_sync: i64,
    version: u32,
}

/// Mathematical value of a [`ProjectIndex`].
pub struct ProjectIndexView {
    /// The entries; no path occurs twice.
    pub projects: Seq<ProjectView>,
    /// When the index was last resynced, in epoch seconds.
    pub last_sync: i64,
    /// Version of the stored form.
    pub version: u32,
}

impl View for ProjectIndex {
    type V = ProjectIndexView;

    closed spec fn view(&self) -> ProjectIndexView {
        ProjectIndexView {
            projects: views(self.projects@),
            last_sync: self.last_sync,
            version: self.version,
        }
    }
}

impl ProjectIndex {
    #[verifier::type_invariant]
    spec fn holds_no_path_twice(self) -> bool {
        distinct_paths(views(self.projects@))
    }

    /// An empty index whose last resync is dated `now`.
    pub fn new_at(now: i64) -> (r: ProjectIndex)
        ensures
            r@ == (ProjectIndexView {
                projects: Seq::<ProjectView>::empty(),
                last_sync: now,
                version: 1,
            }),
    {
        let projects: Vec<Project> = Vec::new();
        assert(views(projects@) =~= Seq::<ProjectView>::empty());
        ProjectIndex { projects, last_sync: now, version: INDEX_VERSION }
    }

    /// An empty index whose last resync is dated by the clock.
    pub fn new() -> (r: ProjectIndex)
        ensures
            r@.projects.len() == 0,
            r@.version == 1,
            is_valid_timestamp(r@.last_sync),
    {
        ProjectIndex::new_at(crate::clock::now())
    }

    /// An index that holds `projects`. Where a path occurs more than once,
    /// the last project with that path takes the place of the earlier ones.
    pub fn from_parts(projects: &Vec<Project>, last_sync: i64, version: u32) -> (r: ProjectIndex)
        ensures
            r@ == (ProjectIndexView {
                projects: reconciled(Seq::<ProjectView>::empty(), views(projects@)),
                last_sync: last_sync,
                version: version,
            }),
            distinct_paths(r@.projects),
    {
        let mut index = ProjectIndex::new_at(last_sync);
        index.version = version;
        index.reconcile(projects, last_sync);
        index
    }

    /// Turns what was found in the store into an index; `now` dates the
    /// empty index that stands for a missing store.
    pub fn load_at(cache: &CacheFile, now: i64) -> (r: Result<ProjectIndex, FsError>)
        ensures
            match loaded(*cache, now) {
                Ok(index) => r matches Ok(i) && i@ == index && distinct_paths(i@.projects),
                Err(error) => r matches Err(e) && e@ == error,
            },
    {
        match cache {
            CacheFile::NoCacheDir => Err(
                FsError::format_error("Could not determine cache directory"),
            ),
            CacheFile::Missing => Ok(ProjectIndex::new_at(now)),
            CacheFile::Unreadable { path, reason } => Err(
                FsError::IoError {
                    context: String::from_str("Failed to read cache file: ").concat(
                        path.as_str(),
                    ),
                    reason: reason.clone(),
                },
            ),
            CacheFile::Malformed { reason } => Err(
                FsError::invalid_format("Invalid cache JSON: ", reason.as_str()),
            ),
            CacheFile::Parsed { projects, last_sync, version } => Ok(
                ProjectIndex::from_parts(projects, *last_sync, *version),
            ),
        }
    }

    /// Turns what was found in the store into an index, reading the clock
    /// to date the empty index that stands for a missing store.
    pub fn load(cache: &CacheFile) -> (r: Result<ProjectIndex, FsError>)
        ensures
            exists|now: i64|
                is_valid_timestamp(now) && match #[trigger] loaded(*cache, now) {
                    Ok(index) => r matches Ok(i) && i@ == index && distinct_paths(i@.projects),
                    Err(error) => r matches Err(e) && e@ == error,
                },
    {
        let now = crate::clock::now();
        ProjectIndex::load_at(cache, now)
    }

    /// The projects, in the order in which the index holds them.
    pub fn projects(&self) -> (r: &Vec<Project>)
        ensures
            views(r@) == self@.projects,
            distinct_paths(self@.projects),
    {
        proof {
            use_type_invariant(self);
        }
        &self.projects
    }

    /// When the index was last resynced.
    pub fn last_sync(&self) -> (r: i64)
        ensures
            r == self@.last_sync,
    {
        self.last_sync
    }

    /// Version of the stored form.
    pub fn version(&self) -> (r: u32)
        ensures
            r == self@.version,
    {
        self.version
    }

    /// How many projects the index holds.
    pub fn len(&self) -> (r: usize)
        ensures
            r == self@.projects.len(),
    {
        self.projects.len()
    }

    /// Whether the index holds no project.
    pub fn is_empty(&self) -> (r: bool)
        ensures
            r == (self@.projects.len() == 0),
    {
        self.projects.len() == 0
    }

    /// The project stored under `path`.
    pub fn get(&self, path: &str) -> (r: Option<&Project>)
        ensures
            match lookup(self@.projects, path@) {
                Some(project) => r matches Some(p) && p@ == project,
                None => r.is_none(),
            },
    {
        proof {
            use_type_invariant(self);
        }
        let key = String::from_str(path);
        match find_path(&self.projects, &key) {
            Some(i) => {
                proof {
                    lemma_position_unique(views(self.projects@), i as int);
                }
                Some(&self.projects[i])
            },
            None => None,
        }
    }

    /// All projects ordered by frecency score, highest first; projects of
    /// equal score come in the order in which the index holds them.
    pub fn sorted_projects(&self) -> (r: Vec<&Project>)
        ensures
            ref_views(r@) == by_frecency(self@.projects),
    {
        let searcher = ProjectSearcher::new();
        searcher.sort_by_frecency(self.projects.as_slice())
    }

    /// Replaces the whole index by what a resync discovered. Every fresh
    /// project takes over the access count, the time of last access and the
    /// score that the index held for its path; projects whose path was not
    /// discovered again are dropped. Returns the number of projects held.
    pub fn reconcile(&mut self, fresh: &Vec<Project>, now: i64) -> (count: usize)
        ensures
            final(self)@ == (ProjectIndexView {
                projects: reconciled(old(self)@.projects, views(fresh@)),
                last_sync: now,
                version: old(self)@.version,
            }),
            distinct_paths(final(self)@.projects),
            count == final(self)@.projects.len(),
    {
        proof {
            use_type_invariant(&*self);
        }
        let ghost prior = views(self.projects@);
        let mut merged: Vec<Project> = Vec::new();
        let mut k: usize = 0;
        proof {
            assert(views(fresh@).take(0) =~= Seq::<ProjectView>::empty());
            assert(views(merged@) =~= Seq::<ProjectView>::empty());
        }
        while k < fresh.len()
            invariant
                k <= fresh.len(),
                prior == views(self.projects@),
                distinct_paths(prior),
                distinct_paths(views(merged@)),
                views(merged@) == reconciled(prior, views(fresh@).take(k as int)),
            decreases fresh.len() - k,
        {
            let mut project = fresh[k].clone();
            proof {
                assert(views(fresh@).take(k + 1).drop_last() =~= views(fresh@).take(k as int));
                assert(views(fresh@).take(k + 1).last() == fresh@[k as int]@);
            }
            match find_path(&self.projects, &project.path) {
                Some(i) => {
                    proof {
                        lemma_position_unique(prior, i as int);
                    }
                    project.access_count = self.projects[i].access_count;
                    project.last_accessed = self.projects[i].last_accessed;
                    project.frecency_score = self.projects[i].frecency_score;
                },
                None => {},
            }
            assert(project@ == carried(fresh@[k as int]@, prior));
            upsert_project(&mut merged, project);
            k = k + 1;
        }
        proof {
            assert(views(fresh@).take(fresh.len() as int) =~= views(fresh@));
        }
        let count = merged.len();
        self.projects = merged;
        self.last_sync = now;
        count
    }

    /// A full resync at the instant `now`: builds the projects that the
    /// candidates yield and reconciles the index with them.
    pub fn sync_at(&mut self, candidates: &Vec<Candidate>, now: i64) -> (count: usize)
        ensures
            final(self)@ == (ProjectIndexView {
                projects: reconciled(old(self)@.projects, discovered(candidates@, now)),
                last_sync: now,
                version: old(self)@.version,
            }),
            distinct_paths(final(self)@.projects),
            count == final(self)@.projects.len(),
    {
        let fresh = discover(candidates, now);
        self.reconcile(&fresh, now)
    }

    /// A full resync dated by the clock.
    pub fn sync(&mut self, candidates: &Vec<Candidate>) -> (count: usize)
        ensures
            exists|now: i64|
                is_valid_timestamp(now) && final(self)@ == (ProjectIndexView {
                    projects: reconciled(
                        old(self)@.projects,
                        #[trigger] discovered(candidates@, now),
                    ),
                    last_sync: now,
                    version: old(self)@.version,
                }),
            distinct_paths(final(self)@.projects),
            count == final(self)@.projects.len(),
    {
        let now = crate::clock::now();
        self.sync_at(candidates, now)
    }

    /// Records that the project under `path` was opened at `now`: its access
    /// count grows by one, its last access becomes `now` and its score is
    /// recomputed from the frequency term of the new count, which
    /// `frequency` evaluates. An unknown path changes nothing. Returns
    /// whether the index changed, so that the caller knows whether to
    /// persist it.
    pub fn record_access_at<F: Fn(u32) -> u32>(&mut self, path: &str, now: i64, frequency: F) -> (recorded:
        bool)
        requires
            forall|count: u32| frequency.requires((count,)),
        ensures
            recorded == has_path(old(self)@.projects, path@),
            !recorded ==> final(self)@ == old(self)@,
            recorded ==> exists|term: u32|
                frequency.ensures(
                    (next_count(lookup(old(self)@.projects, path@)->0.access_count),),
                    term,
                ) && final(self)@ == (ProjectIndexView {
                    projects: #[trigger] with_access(old(self)@.projects, path@, term, now),
                    ..old(self)@
                }),
            distinct_paths(final(self)@.projects),
            final(self)@.projects.len() == old(self)@.projects.len(),
    {
        proof {
            use_type_invariant(&*self);
        }
        let ghost before = views(self.projects@);
        let key = String::from_str(path);
        match find_path(&self.projects, &key) {
            Some(i) => {
                proof {
                    lemma_position_unique(before, i as int);
                }
                let count = if self.projects[i].access_count < u32::MAX {
                    self.projects[i].access_count + 1
                } else {
                    self.projects[i].access_count
                };
                let term = frequency(count);
                let mut taken = ProjectIndex::new_at(self.last_sync);
                core::mem::swap(self, &mut taken);
                let ProjectIndex { projects, last_sync, version } = taken;
                let mut projects = projects;
                projects[i].access_count = count;
                projects[i].last_accessed = Some(now);
                projects[i].frecency_score = score_from_term(term, Some(now), now);
                proof {
                    assert(projects@[i as int]@ == opened(before[i as int], term, now));
                    assert(views(projects@) =~= before.update(
                        i as int,
                        opened(before[i as int], term, now),
                    ));
                    lemma_upsert(before, opened(before[i as int], term, now));
                }
                *self = ProjectIndex { projects, last_sync, version };
                proof {
                    assert(frequency.ensures(
                        (next_count(lookup(old(self)@.projects, path@)->0.access_count),),
                        term,
                    ) && self@ == (ProjectIndexView {
                        projects: with_access(old(self)@.projects, path@, term, now),
                        ..old(self)@
                    }));
                }
                true
            },
            None => false,
        }
    }

    /// Records an access dated by the clock.
    pub fn record_access<F: Fn(u32) -> u32>(&mut self, path: &str, frequency: F) -> (recorded:
        bool)
        requires
            forall|count: u32| frequency.requires((count,)),
        ensures
            recorded == has_path(old(self)@.projects, path@),
            !recorded ==> final(self)@ == old(self)@,
            recorded ==> exists|now: i64, term: u32|
                is_valid_timestamp(now) && frequency.ensures(
                    (next_count(lookup(old(self)@.projects, path@)->0.access_count),),
                    term,
                ) && final(self)@ == (ProjectIndexView {
                    projects: #[trigger] with_access(old(self)@.projects, path@, term, now),
                    ..old(self)@
                }),
            distinct_paths(final(self)@.projects),
            final(self)@.projects.len() == old(self)@.projects.len(),
    {
        let now = crate::clock::now();
        self.record_access_at(path, now, frequency)
    }
}

impl Default for ProjectIndex {
    fn default() -> (r: ProjectIndex)
        ensures
            r@.projects.len() == 0,
            r@.version == 1,
            is_valid_timestamp(r@.last_sync),
    {
        ProjectIndex::new()
    }
}

} // verus!
