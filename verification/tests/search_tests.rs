use fexplorer::project::{Project, ProjectGitStatus};
use fexplorer::search::{best_score, combine, fuzzy_score, pick, ProjectSearcher, MAX_MATCH_CHARS};

fn create_test_project(name: &str, frecency: f64) -> Project {
    Project {
        path: format!("/test/{}", name),
        name: name.to_string(),
        last_modified: 1_700_000_000,
        git_status: ProjectGitStatus {
            current_branch: "main".to_string(),
            has_uncommitted: false,
            ahead: 0,
            behind: 0,
            last_commit: None,
        },
        frecency_score: (frecency * 1000.0).round() as u64,
        last_accessed: None,
        access_count: 0,
        readme_excerpt: None,
    }
}

fn names(results: &[&Project]) -> Vec<String> {
    results.iter().map(|p| p.name.clone()).collect()
}

#[test]
fn test_empty_query() {
    let searcher = ProjectSearcher::new();
    let projects = vec![
        create_test_project("low-frecency", 10.0),
        create_test_project("high-frecency", 100.0),
    ];

    let results = searcher.search(&projects, "");
    assert_eq!(results.len(), 2);
    // Should be sorted by frecency
    assert_eq!(results[0].name, "high-frecency");
}

#[test]
fn test_fuzzy_match() {
    let searcher = ProjectSearcher::new();
    let projects = vec![
        create_test_project("rust-filesearch", 50.0),
        create_test_project("python-script", 50.0),
        create_test_project("rust-analyzer", 50.0),
    ];

    let results = searcher.search(&projects, "rust");
    // Should match "rust-filesearch" and "rust-analyzer"
    assert!(results.len() >= 2);
    assert!(results.iter().any(|p| p.name.contains("rust")));
}

#[test]
fn test_frecency_influences_ranking() {
    let searcher = ProjectSearcher::new();
    let projects = vec![
        create_test_project("rust-project", 10.0),  // Low frecency
        create_test_project("rust-awesome", 100.0), // High frecency
    ];

    let results = searcher.search(&projects, "rust");
    assert_eq!(results.len(), 2);
    // Both match "rust", but high-frecency should rank higher
    assert_eq!(results[0].name, "rust-awesome");
}

#[test]
fn test_exact_search() {
    let searcher = ProjectSearcher::new();
    let projects = vec![
        create_test_project("whatsgood-homepage", 50.0),
        create_test_project("rust-filesearch", 50.0),
    ];

    let results = searcher.exact_search(&projects, "whatsgood");
    assert_eq!(results.len(), 1);
    assert_eq!(results[0].name, "whatsgood-homepage");
}

#[test]
fn blank_query_lists_everything_by_score() {
    let searcher = ProjectSearcher::new();
    let projects = vec![
        create_test_project("A", 10.0),
        create_test_project("B", 100.0),
        create_test_project("C", 50.0),
    ];
    assert_eq!(names(&searcher.search(&projects, "")), vec!["B", "C", "A"]);
    assert_eq!(names(&searcher.search(&projects, "  \t\n")), vec!["B", "C", "A"]);
    assert_eq!(names(&searcher.search(&projects, "\u{2003}")), vec!["B", "C", "A"]);
    assert_eq!(names(&searcher.sort_by_frecency(&projects)), vec!["B", "C", "A"]);
    assert!(searcher.search(&[], "").is_empty());
}

#[test]
fn equal_scores_keep_the_order_of_the_input() {
    let searcher = ProjectSearcher::new();
    let projects = vec![
        create_test_project("first", 5.0),
        create_test_project("second", 7.0),
        create_test_project("third", 5.0),
        create_test_project("fourth", 7.0),
    ];
    assert_eq!(
        names(&searcher.sort_by_frecency(&projects)),
        vec!["second", "fourth", "first", "third"]
    );
}

#[test]
fn a_project_that_does_not_match_is_left_out() {
    let searcher = ProjectSearcher::new();
    let projects = vec![
        create_test_project("python-script", 100_000.0),
        create_test_project("rust-analyzer", 0.0),
    ];
    let results = searcher.search(&projects, "rust");
    assert_eq!(names(&results), vec!["rust-analyzer"]);
    assert!(searcher.search(&projects, "zzzz").is_empty());
}

#[test]
fn the_path_can_match_where_the_name_does_not() {
    let searcher = ProjectSearcher::new();
    let mut project = create_test_project("app", 1.0);
    project.path = "/home/ada/workbench/app".to_string();
    let projects = vec![project, create_test_project("tool", 1.0)];
    assert_eq!(names(&searcher.search(&projects, "workbench")), vec!["app"]);
}

#[test]
fn rank_matches_uses_the_given_scores() {
    let searcher = ProjectSearcher::new();
    let projects = vec![
        create_test_project("a", 10.0),
        create_test_project("b", 100.0),
        create_test_project("c", 1000.0),
        create_test_project("d", 10.0),
        create_test_project("e", 12.0),
    ];
    // c does not match however high its score; a and d tie on the key and
    // keep their order; e has the same fuzzy score as a but too little more
    // frecency to change the whole-number key.
    let ranked = searcher.rank_matches(&projects, &vec![50, 50, 0, 50, 50]);
    assert_eq!(names(&ranked), vec!["b", "a", "d", "e"]);
    let ranked = searcher.rank_matches(&projects, &vec![50, 50, -3, 50, 60]);
    assert_eq!(names(&ranked), vec!["b", "e", "a", "d"]);
    assert!(searcher.rank_matches(&projects, &vec![0, 0, 0, 0, -1]).is_empty());
}

#[test]
fn combined_key_weighs_seven_to_three() {
    // 0.7 * 50 + 0.3 * 100 = 65
    assert_eq!(combine(50, 100_000), 65);
    // 0.7 * 50 + 0.3 * 10 = 38
    assert_eq!(combine(50, 10_000), 38);
    // 0.7 * 1 + 0.3 * 0.999 = 0.9997, cut down to 0
    assert_eq!(combine(1, 999), 0);
    assert_eq!(combine(1, 1_000), 1);
    assert_eq!(combine(10, 0), 7);
    assert_eq!(combine(0, 1_000_000), 0);
    assert_eq!(combine(-5, 1_000_000), 0);
    assert_eq!(combine(i64::MAX, 0), 6_456_360_425_798_343_064);
    assert_eq!(combine(i64::MAX, u64::MAX), 6_461_894_449_020_455_930);
}

#[test]
fn best_score_takes_the_better_match() {
    assert_eq!(best_score(Some(10), Some(20)), 20);
    assert_eq!(best_score(Some(30), Some(20)), 30);
    assert_eq!(best_score(None, Some(20)), 20);
    assert_eq!(best_score(Some(5), None), 5);
    assert_eq!(best_score(None, None), 0);
    assert_eq!(best_score(Some(-4), None), 0);
    assert_eq!(best_score(Some(-4), Some(-2)), -2);
}

#[test]
fn fuzzy_score_comes_from_the_matcher() {
    let exact = fuzzy_score("rust", "rust").unwrap();
    let spread = fuzzy_score("r-u-s-t", "rust").unwrap();
    assert!(exact > spread);
    assert!(spread > 0);
    assert_eq!(fuzzy_score("python", "rust"), None);
    assert_eq!(fuzzy_score("anything", ""), Some(0));
    // Not the text handed in, and not its length either.
    assert_ne!(exact, 4);
    // Smart case: an upper-case letter in the pattern must match exactly.
    assert!(fuzzy_score("rust", "Rust").is_none());
    assert!(fuzzy_score("Rust", "rust").is_some());
}

#[test]
fn texts_beyond_the_limit_do_not_match() {
    let long = "a".repeat(MAX_MATCH_CHARS + 1);
    let limit = "a".repeat(MAX_MATCH_CHARS);
    assert_eq!(fuzzy_score(&long, "a"), None);
    assert_eq!(fuzzy_score("a", &long), None);
    assert!(fuzzy_score(&limit, "a").is_some());
}

#[test]
fn exact_search_ignores_case_and_orders_by_score() {
    let searcher = ProjectSearcher::new();
    let mut by_path = create_test_project("other", 90.0);
    by_path.path = "/srv/Web-Shop/other".to_string();
    let projects = vec![
        create_test_project("web-api", 10.0),
        create_test_project("WEBSITE", 50.0),
        create_test_project("cobweb", 50.0),
        create_test_project("wbe", 500.0),
        by_path,
    ];
    assert_eq!(
        names(&searcher.exact_search(&projects, "Web")),
        vec!["other", "WEBSITE", "cobweb", "web-api"]
    );
    assert_eq!(
        names(&searcher.exact_search(&projects, "")),
        vec!["wbe", "other", "WEBSITE", "cobweb", "web-api"]
    );
    assert!(searcher.exact_search(&projects, "w e b").is_empty());
}

#[test]
fn filter_by_frecency_keeps_the_selected() {
    let searcher = ProjectSearcher::new();
    let projects = vec![
        create_test_project("a", 1.0),
        create_test_project("b", 3.0),
        create_test_project("c", 2.0),
    ];
    assert_eq!(
        names(&searcher.filter_by_frecency(&projects, &vec![true, false, true])),
        vec!["c", "a"]
    );
    assert_eq!(names(&pick(&projects, &vec![2, 0, 2])), vec!["c", "a", "c"]);
}
