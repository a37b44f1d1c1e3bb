use fexplorer::cli::{CommonArgs, GitStatusFilter};
use fexplorer::commands::{
    filter_projects, is_inactive, passes, status_label, NINETY_DAYS, THIRTY_DAYS,
};
use fexplorer::config::{
    default_editor, default_format, default_scan_dir_names, default_threads, default_true,
    Preferences, PxConfig,
};
use fexplorer::git::GitStatus;
use fexplorer::templates::TemplateFormat;
use fexplorer::dedup::{calculate_wasted_space, max_of, DuplicateGroup, DuplicateStats};
use fexplorer::models::{Entry, EntryKind};
use fexplorer::project::{Project, ProjectGitStatus};
use fexplorer::size::{compute_total_size, entry_sizes, get_top_by_size, sum};
use fexplorer::traverse::{build_traverse_config, project_scan_config, TraverseConfig};
use fexplorer::watch::{ChangeKind, FileWatcher};

const NOW: i64 = 1_700_000_000;
const DAY: i64 = 86_400;

fn make_entry(path: &str, size: u64, kind: EntryKind) -> Entry {
    Entry {
        path: path.to_string(),
        name: path.rsplit('/').next().unwrap().to_string(),
        size,
        kind,
        mtime: NOW,
        perms: None,
        owner: None,
        depth: 0,
    }
}

fn project(name: &str, changes: bool, ahead: usize, behind: usize, last: Option<i64>) -> Project {
    Project {
        path: format!("/p/{}", name),
        name: name.to_string(),
        last_modified: NOW,
        git_status: ProjectGitStatus {
            current_branch: "main".to_string(),
            has_uncommitted: changes,
            ahead,
            behind,
            last_commit: None,
        },
        frecency_score: 0,
        last_accessed: last,
        access_count: 0,
        readme_excerpt: None,
    }
}

#[test]
fn test_default_config() {
    let preferences = Preferences::default();
    assert_eq!(preferences.default_format, "pretty");
    assert!(preferences.color);
    assert_eq!(preferences.threads, 4);
    assert!(preferences.respect_gitignore);
}

#[test]
fn configuration_defaults() {
    assert_eq!(default_format(), "pretty");
    assert!(default_true());
    assert_eq!(default_threads(), 4);
    assert_eq!(default_editor(), "code");
    assert_eq!(default_scan_dir_names(), vec!["Developer", "projects", "code"]);
    let config = PxConfig::with_scan_dirs(vec!["/home/ada/code".to_string()]);
    assert_eq!(config.scan_dirs, vec!["/home/ada/code".to_string()]);
    assert_eq!(config.default_editor, "code");
    assert_eq!(config.obsidian_vault, None);
}

#[test]
fn test_compute_total_size() {
    let entries = vec![
        make_entry("file1.txt", 100, EntryKind::File),
        make_entry("file2.txt", 200, EntryKind::File),
        make_entry("file3.txt", 50, EntryKind::File),
    ];
    assert_eq!(compute_total_size(&entries), 350);
}

#[test]
fn test_get_top_by_size() {
    let entries = vec![
        make_entry("small.txt", 10, EntryKind::File),
        make_entry("large.txt", 1000, EntryKind::File),
        make_entry("medium.txt", 100, EntryKind::File),
    ];
    let top = get_top_by_size(&entries, 2);
    assert_eq!(top.len(), 2);
    assert_eq!(top[0].size, 1000);
    assert_eq!(top[1].size, 100);
}

#[test]
fn top_by_size_edges() {
    let entries = vec![
        make_entry("a", 5, EntryKind::File),
        make_entry("b", 9, EntryKind::File),
        make_entry("c", 5, EntryKind::Dir),
    ];
    let names = |v: Vec<Entry>| v.into_iter().map(|e| e.name).collect::<Vec<_>>();
    assert_eq!(names(get_top_by_size(&entries, 0)), Vec::<String>::new());
    assert_eq!(names(get_top_by_size(&entries, 10)), vec!["b", "a", "c"]);
    assert_eq!(names(get_top_by_size(&[], 3)), Vec::<String>::new());
    assert_eq!(entry_sizes(&entries), vec![5, 9, 5]);
    assert_eq!(sum(&vec![]), 0);
    assert_eq!(sum(&vec![u64::MAX - 1, 1]), u64::MAX);
    assert_eq!(compute_total_size(&[]), 0);
}

#[test]
fn test_wasted_space_calculation() {
    let entries = vec![
        make_entry("file1.txt", 1024, EntryKind::File),
        make_entry("file2.txt", 1024, EntryKind::File),
        make_entry("file3.txt", 1024, EntryKind::File),
    ];
    let groups = vec![DuplicateGroup::new("hash".to_string(), 1024, entries)];
    assert_eq!(groups.len(), 1);
    // 3 copies of 1KB file = 2KB wasted (one kept + 2 duplicates)
    assert_eq!(groups[0].wasted_space, 2048);
}

#[test]
fn test_duplicate_stats() {
    let entries = vec![
        make_entry("file1.txt", 7, EntryKind::File),
        make_entry("file2.txt", 7, EntryKind::File),
    ];
    let groups = vec![DuplicateGroup::new("hash".to_string(), 7, entries)];
    let stats = DuplicateStats::from_groups(&groups);

    assert_eq!(stats.total_groups, 1);
    assert_eq!(stats.total_files, 2);
    assert_eq!(stats.total_wasted_space, 7);
}

#[test]
fn duplicate_groups_and_stats() {
    let group = |size: u64, n: usize| {
        DuplicateGroup::new(
            format!("h{}", size),
            size,
            (0..n).map(|i| make_entry(&format!("f{}", i), size, EntryKind::File)).collect(),
        )
    };
    assert_eq!(group(100, 1).wasted_space, 0);
    assert_eq!(group(100, 0).wasted_space, 0);
    assert_eq!(group(100, 0).count, 0);
    assert_eq!(group(100, 4).wasted_space, 300);
    assert_eq!(group(100, 4).count, 4);
    let groups = vec![group(100, 4), group(1_000, 2), group(1, 5)];
    assert_eq!(calculate_wasted_space(&groups), 1_304);
    assert_eq!(
        DuplicateStats::from_groups(&groups),
        DuplicateStats {
            total_groups: 3,
            total_files: 11,
            total_wasted_space: 1_304,
            largest_group_size: 1_000,
            largest_group_count: 5,
        }
    );
    assert_eq!(
        DuplicateStats::from_groups(&[]),
        DuplicateStats {
            total_groups: 0,
            total_files: 0,
            total_wasted_space: 0,
            largest_group_size: 0,
            largest_group_count: 0,
        }
    );
    assert_eq!(max_of(&vec![3, 9, 4]), 9);
    assert_eq!(max_of(&vec![]), 0);
}

#[test]
fn traverse_configurations() {
    assert_eq!(
        TraverseConfig::default(),
        TraverseConfig {
            max_depth: None,
            follow_symlinks: false,
            include_hidden: false,
            respect_gitignore: true,
            threads: 1,
            quiet: false,
        }
    );
    let mut args = CommonArgs::default();
    args.max_depth = Some(2);
    args.hidden = true;
    args.no_gitignore = true;
    args.threads = 8;
    assert_eq!(
        build_traverse_config(&args, true),
        TraverseConfig {
            max_depth: Some(2),
            follow_symlinks: false,
            include_hidden: true,
            respect_gitignore: false,
            threads: 8,
            quiet: true,
        }
    );
    let scan = project_scan_config();
    assert_eq!(scan.max_depth, Some(3));
    assert!(!scan.follow_symlinks);
    assert!(scan.respect_gitignore);
    assert!(!scan.include_hidden);
}

#[test]
fn watcher_reports_what_was_asked_for() {
    let all = FileWatcher::new(vec![]);
    assert_eq!(all.reported_as(ChangeKind::Create), Some("create"));
    assert_eq!(all.reported_as(ChangeKind::Modify), Some("modify"));
    assert_eq!(all.reported_as(ChangeKind::Remove), Some("remove"));
    assert_eq!(all.reported_as(ChangeKind::Other), None);
    let some = FileWatcher::new(vec!["create".to_string(), "remove".to_string()]);
    assert_eq!(some.reported_as(ChangeKind::Create), Some("create"));
    assert_eq!(some.reported_as(ChangeKind::Modify), None);
    assert_eq!(some.reported_as(ChangeKind::Remove), Some("remove"));
    assert_eq!(some.reported_as(ChangeKind::Other), None);
    let odd = FileWatcher::new(vec!["Create".to_string()]);
    assert_eq!(odd.reported_as(ChangeKind::Create), None);
}

#[test]
fn listing_filters() {
    let a = project("changed", true, 0, 0, Some(NOW));
    let b = project("stale", false, 0, 0, Some(NOW - 31 * DAY));
    let c = project("ancient", false, 0, 0, Some(NOW - 91 * DAY));
    let d = project("never", false, 0, 0, None);
    let all = vec![&a, &b, &c, &d];
    let names = |v: Vec<&Project>| v.into_iter().map(|p| p.name.clone()).collect::<Vec<_>>();
    assert_eq!(names(filter_projects(&all, "has-changes", NOW)), vec!["changed"]);
    assert_eq!(
        names(filter_projects(&all, "inactive-30d", NOW)),
        vec!["stale", "ancient", "never"]
    );
    assert_eq!(names(filter_projects(&all, "inactive-90d", NOW)), vec!["ancient", "never"]);
    assert_eq!(
        names(filter_projects(&all, "something-else", NOW)),
        vec!["changed", "stale", "ancient", "never"]
    );
    assert!(filter_projects(&vec![], "has-changes", NOW).is_empty());
    // The cut-off itself still counts as active.
    let edge = project("edge", false, 0, 0, Some(NOW - THIRTY_DAYS));
    assert!(!is_inactive(&edge, THIRTY_DAYS, NOW));
    let past = project("past", false, 0, 0, Some(NOW - THIRTY_DAYS - 1));
    assert!(is_inactive(&past, THIRTY_DAYS, NOW));
    assert!(!is_inactive(&past, NINETY_DAYS, NOW));
    assert!(is_inactive(&project("min", false, 0, 0, Some(i64::MIN)), NINETY_DAYS, i64::MAX));
    assert!(passes(&a, "has-changes", NOW));
    assert!(!passes(&b, "has-changes", NOW));
}

#[test]
fn status_labels() {
    assert_eq!(status_label(&project("a", true, 3, 4, None)), "⚠ changes");
    assert_eq!(status_label(&project("a", false, 3, 4, None)), "↑ ahead");
    assert_eq!(status_label(&project("a", false, 0, 4, None)), "↓ behind");
    assert_eq!(status_label(&project("a", false, 0, 0, None)), "✓ clean");
}

#[test]
fn template_formats() {
    assert_eq!(TemplateFormat::parse("markdown"), Ok(TemplateFormat::Markdown));
    assert_eq!(TemplateFormat::parse("MD"), Ok(TemplateFormat::Markdown));
    assert_eq!(TemplateFormat::parse("Html"), Ok(TemplateFormat::Html));
    assert_eq!(
        TemplateFormat::parse("pdf"),
        Err("Unknown template format: pdf".to_string())
    );
    assert_eq!(TemplateFormat::from_lowercase("MD"), None);
}

#[test]
fn git_status_filters() {
    assert_eq!(GitStatusFilter::Conflict.status(), GitStatus::Unmerged);
    assert_eq!(GitStatusFilter::Untracked.status(), GitStatus::Untracked);
    assert_eq!(GitStatusFilter::Modified.status(), GitStatus::Modified);
    assert_eq!(GitStatusFilter::Staged.status(), GitStatus::Staged);
    assert_eq!(GitStatusFilter::Clean.status(), GitStatus::Clean);
    assert_eq!(GitStatusFilter::Ignored.status(), GitStatus::Ignored);
}

#[test]
fn readme_names_in_order() {
    assert_eq!(
        fexplorer::project::readme_names(),
        vec!["README.md", "README.MD", "readme.md", "README", "Readme.md"]
    );
}
