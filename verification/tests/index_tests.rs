use fexplorer::clock::{MAX_TIMESTAMP, MIN_TIMESTAMP};
use fexplorer::errors::FsError;
use fexplorer::index::{discover, CacheFile, Candidate, ProjectIndex, INDEX_VERSION};
use fexplorer::models::EntryKind;
use fexplorer::project::{
    CommandOutput, DirectoryTime, Project, ProjectGitStatus, RepoProbe,
};

const NOW: i64 = 1_700_000_000;

fn frequency_term(access_count: u32) -> u32 {
    (((access_count as f64) + 1.0).ln() * 10.0 * 1000.0).round() as u32
}

fn project(path: &str, branch: &str) -> Project {
    Project {
        path: path.to_string(),
        name: path.rsplit('/').next().unwrap().to_string(),
        last_modified: NOW,
        git_status: ProjectGitStatus {
            current_branch: branch.to_string(),
            has_uncommitted: false,
            ahead: 0,
            behind: 0,
            last_commit: None,
        },
        frecency_score: 0,
        last_accessed: None,
        access_count: 0,
        readme_excerpt: None,
    }
}

fn used(path: &str, branch: &str, count: u32, last: i64, score: u64) -> Project {
    let mut p = project(path, branch);
    p.access_count = count;
    p.last_accessed = Some(last);
    p.frecency_score = score;
    p
}

fn ran(stdout: &str) -> Result<CommandOutput, String> {
    Ok(CommandOutput { success: true, stdout: stdout.to_string() })
}

fn candidate(path: &str, kind: EntryKind, is_repo: bool, branch: &str) -> Candidate {
    Candidate {
        path: path.to_string(),
        kind,
        probe: RepoProbe {
            is_dir: true,
            is_repo,
            dir_name: Some(path.rsplit('/').next().unwrap().to_string()),
            branch: ran(branch),
            status: ran(""),
            upstream: ran("0 0"),
            log: ran("abc|subject|author|1650000000"),
            modified: DirectoryTime::Known(1_600_000_000),
            readmes: vec![],
        },
    }
}

fn paths(index: &ProjectIndex) -> Vec<String> {
    index.projects().iter().map(|p| p.path.clone()).collect()
}

#[test]
fn test_new_index() {
    let index = ProjectIndex::new();
    assert_eq!(index.version(), 1);
    assert!(index.projects().is_empty());
}

#[test]
fn new_index_is_dated() {
    let index = ProjectIndex::new_at(42);
    assert_eq!(index.last_sync(), 42);
    assert_eq!(index.version(), INDEX_VERSION);
    assert_eq!(index.len(), 0);
    assert!(index.is_empty());
    let index = ProjectIndex::new();
    assert!(index.last_sync() > 1_600_000_000);
    assert!(MIN_TIMESTAMP <= index.last_sync() && index.last_sync() <= MAX_TIMESTAMP);
}

#[test]
fn test_record_access() {
    let test_path = "/test/path";
    let mut index = ProjectIndex::from_parts(&vec![project(test_path, "main")], NOW, 1);

    assert!(index.record_access(test_path, frequency_term));

    let project = index.get(test_path).unwrap();
    assert_eq!(project.access_count, 1);
    assert!(project.last_accessed.is_some());
    assert!(project.frecency_score > 0);
}

#[test]
fn record_access_sets_count_time_and_score() {
    let mut index = ProjectIndex::from_parts(
        &vec![used("/a", "main", 4, NOW - 50 * 86_400, 46_094), project("/b", "dev")],
        NOW,
        1,
    );
    assert!(index.record_access_at("/a", NOW + 10, frequency_term));
    let a = index.get("/a").unwrap();
    assert_eq!(a.access_count, 5);
    assert_eq!(a.last_accessed, Some(NOW + 10));
    // ln(6) * 10 = 17.918 points, plus the full recency weight of 100 points.
    assert_eq!(a.frecency_score, 117_918);
    assert_eq!(a.git_status.current_branch, "main");
    // The other project is untouched, and so are the date and the version.
    let b = index.get("/b").unwrap();
    assert_eq!((b.access_count, b.last_accessed, b.frecency_score), (0, None, 0));
    assert_eq!(index.last_sync(), NOW);
    assert_eq!(index.len(), 2);
}

#[test]
fn record_access_on_unknown_path_changes_nothing() {
    let mut index =
        ProjectIndex::from_parts(&vec![used("/a", "main", 4, NOW, 116_094)], NOW, 1);
    let before = format!("{:?}", index);
    assert!(!index.record_access_at("/missing", NOW + 1, frequency_term));
    assert!(!index.record_access("/A", frequency_term));
    assert!(!index.record_access("", frequency_term));
    assert_eq!(format!("{:?}", index), before);
    assert_eq!(index.len(), 1);

    let mut empty = ProjectIndex::new_at(NOW);
    assert!(!empty.record_access("/a", frequency_term));
    assert_eq!(empty.len(), 0);
}

#[test]
fn access_count_stops_at_the_largest_count() {
    let mut index =
        ProjectIndex::from_parts(&vec![used("/a", "main", u32::MAX, NOW, 0)], NOW, 1);
    assert!(index.record_access_at("/a", NOW, frequency_term));
    assert_eq!(index.get("/a").unwrap().access_count, u32::MAX);
    assert_eq!(index.get("/a").unwrap().frecency_score, 321_807);
}

#[test]
fn resync_carries_usage_forward_and_refreshes_the_rest() {
    let mut index = ProjectIndex::from_parts(
        &vec![used("/p", "main", 5, NOW - 86_400, 117_918), used("/gone", "main", 9, NOW, 1)],
        NOW - 100,
        1,
    );
    let mut fresh_p = project("/p", "feature");
    fresh_p.git_status.has_uncommitted = true;
    fresh_p.readme_excerpt = Some("Fresh".to_string());
    let count = index.reconcile(&vec![project("/new", "main"), fresh_p], NOW);
    assert_eq!(count, 2);
    assert_eq!(index.len(), 2);
    assert_eq!(index.last_sync(), NOW);

    let p = index.get("/p").unwrap();
    assert_eq!(p.access_count, 5);
    assert_eq!(p.last_accessed, Some(NOW - 86_400));
    assert_eq!(p.frecency_score, 117_918);
    assert_eq!(p.git_status.current_branch, "feature");
    assert!(p.git_status.has_uncommitted);
    assert_eq!(p.readme_excerpt, Some("Fresh".to_string()));

    let new = index.get("/new").unwrap();
    assert_eq!((new.access_count, new.last_accessed, new.frecency_score), (0, None, 0));
    assert!(index.get("/gone").is_none());
    assert_eq!(paths(&index), vec!["/new", "/p"]);
}

#[test]
fn resync_twice_keeps_usage() {
    let mut index = ProjectIndex::from_parts(
        &vec![used("/a", "main", 3, NOW - 10, 113_863), used("/b", "main", 1, NOW - 20, 106_931)],
        NOW - 100,
        1,
    );
    index.reconcile(&vec![project("/a", "one"), project("/b", "one"), project("/c", "one")], NOW);
    let first: Vec<_> = index
        .projects()
        .iter()
        .map(|p| (p.path.clone(), p.access_count, p.last_accessed, p.frecency_score))
        .collect();
    index.reconcile(
        &vec![project("/a", "two"), project("/b", "two"), project("/c", "two")],
        NOW + 60,
    );
    let second: Vec<_> = index
        .projects()
        .iter()
        .map(|p| (p.path.clone(), p.access_count, p.last_accessed, p.frecency_score))
        .collect();
    assert_eq!(first, second);
    assert_eq!(index.get("/a").unwrap().git_status.current_branch, "two");
    assert_eq!(index.last_sync(), NOW + 60);
}

#[test]
fn resync_with_nothing_discovered_empties_the_index() {
    let mut index = ProjectIndex::from_parts(&vec![project("/a", "main")], NOW, 1);
    assert_eq!(index.reconcile(&vec![], NOW + 1), 0);
    assert!(index.is_empty());
    assert_eq!(index.last_sync(), NOW + 1);
}

#[test]
fn a_path_discovered_twice_is_held_once() {
    let mut index = ProjectIndex::new_at(NOW);
    let count = index.reconcile(
        &vec![project("/a", "first"), project("/b", "main"), project("/a", "second")],
        NOW,
    );
    assert_eq!(count, 2);
    assert_eq!(paths(&index), vec!["/a", "/b"]);
    assert_eq!(index.get("/a").unwrap().git_status.current_branch, "second");
}

#[test]
fn sync_builds_projects_from_candidates() {
    let mut index = ProjectIndex::from_parts(
        &vec![used("/work/app", "old", 5, NOW - 5, 117_918)],
        NOW - 100,
        1,
    );
    let mut broken = candidate("/work/broken", EntryKind::Dir, true, "main");
    broken.probe.branch = Err("git is missing".to_string());
    let candidates = vec![
        candidate("/work", EntryKind::Dir, false, ""),
        candidate("/work/app", EntryKind::Dir, true, "main\n"),
        candidate("/work/app/README.md", EntryKind::File, true, "main"),
        candidate("/work/link", EntryKind::Symlink, true, "main"),
        broken,
        candidate("/work/lib", EntryKind::Dir, true, "trunk\n"),
    ];
    let count = index.sync_at(&candidates, NOW);
    assert_eq!(count, 2);
    assert_eq!(paths(&index), vec!["/work/app", "/work/lib"]);
    let app = index.get("/work/app").unwrap();
    assert_eq!(app.access_count, 5);
    assert_eq!(app.frecency_score, 117_918);
    assert_eq!(app.git_status.current_branch, "main");
    assert_eq!(app.last_modified, 1_650_000_000);
    assert_eq!(index.get("/work/lib").unwrap().access_count, 0);
    assert_eq!(index.last_sync(), NOW);

    let fresh = discover(&candidates, NOW);
    assert_eq!(fresh.len(), 2);
    assert_eq!(fresh[0].access_count, 0);

    let count = index.sync(&candidates);
    assert_eq!(count, 2);
    assert_eq!(index.get("/work/app").unwrap().access_count, 5);
    assert!(index.last_sync() > NOW - 100_000_000);
}

#[test]
fn sorted_projects_orders_by_score() {
    let index = ProjectIndex::from_parts(
        &vec![
            used("/a", "main", 1, NOW, 10_000),
            used("/b", "main", 1, NOW, 100_000),
            used("/c", "main", 1, NOW, 50_000),
            used("/d", "main", 1, NOW, 50_000),
        ],
        NOW,
        1,
    );
    let sorted: Vec<&str> = index.sorted_projects().iter().map(|p| p.path.as_str()).collect();
    assert_eq!(sorted, vec!["/b", "/c", "/d", "/a"]);
    assert!(ProjectIndex::new_at(NOW).sorted_projects().is_empty());
}

#[test]
fn from_parts_keeps_the_last_of_equal_paths() {
    let index = ProjectIndex::from_parts(
        &vec![used("/a", "x", 1, NOW, 5), project("/b", "y"), used("/a", "z", 7, NOW, 9)],
        77,
        3,
    );
    assert_eq!(index.len(), 2);
    assert_eq!(index.version(), 3);
    assert_eq!(index.last_sync(), 77);
    let a = index.get("/a").unwrap();
    assert_eq!((a.access_count, a.frecency_score), (7, 9));
    assert_eq!(a.git_status.current_branch, "z");
}

#[test]
fn load_treats_a_missing_store_as_empty() {
    let index = ProjectIndex::load_at(&CacheFile::Missing, NOW).unwrap();
    assert_eq!((index.len(), index.version(), index.last_sync()), (0, 1, NOW));
    let index = ProjectIndex::load(&CacheFile::Missing).unwrap();
    assert_eq!((index.len(), index.version()), (0, 1));
}

#[test]
fn load_surfaces_a_store_that_cannot_be_used() {
    match ProjectIndex::load_at(&CacheFile::Malformed { reason: "expected value at line 1".to_string() }, NOW) {
        Err(FsError::InvalidFormat { format }) => {
            assert_eq!(format, "Invalid cache JSON: expected value at line 1")
        }
        other => panic!("unexpected {:?}", other),
    }
    match ProjectIndex::load_at(
        &CacheFile::Unreadable { path: "/c/px/projects.json".to_string(), reason: "denied".to_string() },
        NOW,
    ) {
        Err(FsError::IoError { context, reason }) => {
            assert_eq!(context, "Failed to read cache file: /c/px/projects.json");
            assert_eq!(reason, "denied");
        }
        other => panic!("unexpected {:?}", other),
    }
    match ProjectIndex::load(&CacheFile::NoCacheDir) {
        Err(FsError::InvalidFormat { format }) => {
            assert_eq!(format, "Could not determine cache directory")
        }
        other => panic!("unexpected {:?}", other),
    }
}

#[test]
fn load_returns_what_was_stored() {
    let cache = CacheFile::Parsed {
        projects: vec![used("/a", "main", 5, NOW - 1, 117_918), project("/b", "dev")],
        last_sync: NOW - 7,
        version: 1,
    };
    let index = ProjectIndex::load_at(&cache, NOW).unwrap();
    assert_eq!(paths(&index), vec!["/a", "/b"]);
    assert_eq!(index.last_sync(), NOW - 7);
    let a = index.get("/a").unwrap();
    assert_eq!((a.access_count, a.last_accessed, a.frecency_score), (5, Some(NOW - 1), 117_918));
}

#[test]
fn an_index_rebuilt_from_its_parts_is_the_same_index() {
    let index = ProjectIndex::from_parts(
        &vec![
            used("/b", "main", 5, NOW - 1, 117_918),
            project("/a", "dev"),
            used("/c", "x", 2, NOW - 9, 80_986),
        ],
        NOW - 7,
        1,
    );
    let cache = CacheFile::Parsed {
        projects: index.projects().clone(),
        last_sync: index.last_sync(),
        version: index.version(),
    };
    let loaded = ProjectIndex::load_at(&cache, NOW).unwrap();
    assert_eq!(format!("{:?}", loaded), format!("{:?}", index));
    assert_eq!(paths(&loaded), vec!["/b", "/a", "/c"]);
}
