use fexplorer::git::{changed_paths, parse_status_output, GitStatus};

#[test]
fn test_git_status_from_code() {
    assert_eq!(GitStatus::from_porcelain_code("??"), GitStatus::Untracked);
    assert_eq!(GitStatus::from_porcelain_code("M "), GitStatus::Modified);
    assert_eq!(GitStatus::from_porcelain_code(" M"), GitStatus::Modified);
    assert_eq!(GitStatus::from_porcelain_code("A "), GitStatus::Staged);
    assert_eq!(GitStatus::from_porcelain_code("D "), GitStatus::Deleted);
    assert_eq!(GitStatus::from_porcelain_code("UU"), GitStatus::Unmerged);
}

#[test]
fn test_git_status_to_str() {
    assert_eq!(GitStatus::Untracked.to_str(), "untracked");
    assert_eq!(GitStatus::Modified.to_str(), "modified");
    assert_eq!(GitStatus::Staged.to_str(), "staged");
    assert_eq!(GitStatus::Clean.to_str(), "clean");
}

#[test]
fn git_status_every_code() {
    let table = [
        ("MM", GitStatus::Modified),
        (" A", GitStatus::Staged),
        ("AM", GitStatus::Staged),
        (" D", GitStatus::Deleted),
        ("R ", GitStatus::Renamed),
        (" R", GitStatus::Renamed),
        ("U ", GitStatus::Unmerged),
        (" U", GitStatus::Unmerged),
        ("AA", GitStatus::Unmerged),
        ("DD", GitStatus::Unmerged),
        ("!!", GitStatus::Ignored),
        ("  ", GitStatus::Clean),
        ("", GitStatus::Clean),
        ("M", GitStatus::Clean),
        ("m ", GitStatus::Clean),
        ("M  ", GitStatus::Clean),
    ];
    for (code, status) in table {
        assert_eq!(GitStatus::from_porcelain_code(code), status, "code {:?}", code);
    }
}

#[test]
fn git_status_every_word() {
    assert_eq!(GitStatus::Deleted.to_str(), "deleted");
    assert_eq!(GitStatus::Renamed.to_str(), "renamed");
    assert_eq!(GitStatus::Unmerged.to_str(), "conflict");
    assert_eq!(GitStatus::Ignored.to_str(), "ignored");
}

fn statuses(stdout: &str) -> Vec<(String, GitStatus)> {
    parse_status_output(stdout).into_iter().map(|f| (f.path, f.status)).collect()
}

#[test]
fn status_listing_is_read_line_by_line() {
    let listing = " M src/lib.rs\n?? new file.txt\nA  staged.rs\nUU both.rs\n!! target/\n";
    assert_eq!(
        statuses(listing),
        vec![
            ("src/lib.rs".to_string(), GitStatus::Modified),
            ("new file.txt".to_string(), GitStatus::Untracked),
            ("staged.rs".to_string(), GitStatus::Staged),
            ("both.rs".to_string(), GitStatus::Unmerged),
            ("target/".to_string(), GitStatus::Ignored),
        ]
    );
    assert_eq!(statuses(""), vec![]);
    assert_eq!(statuses("\n\n"), vec![]);
}

#[test]
fn status_listing_edges() {
    // A rename stands for its new path; only the first arrow counts.
    assert_eq!(
        statuses("R  old.rs -> new.rs"),
        vec![("new.rs".to_string(), GitStatus::Renamed)]
    );
    assert_eq!(
        statuses("R  a -> b -> c\r\n"),
        vec![("b -> c".to_string(), GitStatus::Renamed)]
    );
    // Lines of fewer than four characters say nothing.
    assert_eq!(statuses("M a\n M b\nabc\n"), vec![("b".to_string(), GitStatus::Modified)]);
    // The third character is skipped whatever it is; the path is trimmed.
    assert_eq!(statuses("??x  padded  \n"), vec![("padded".to_string(), GitStatus::Untracked)]);
    assert_eq!(statuses("zz  odd"), vec![("odd".to_string(), GitStatus::Clean)]);
    assert_eq!(statuses("??  \n"), vec![("".to_string(), GitStatus::Untracked)]);
    assert_eq!(statuses("?? caf\u{e9}.txt\n"), vec![("caf\u{e9}.txt".to_string(), GitStatus::Untracked)]);
}

#[test]
fn changed_paths_are_trimmed_lines() {
    assert_eq!(changed_paths("src/a.rs\n  src/b.rs \r\nlast"), vec!["src/a.rs", "src/b.rs", "last"]);
    assert_eq!(changed_paths("one\n\ntwo\n"), vec!["one", "", "two"]);
    assert_eq!(changed_paths("\r\n"), vec![""]);
    assert_eq!(changed_paths("tail\r"), vec!["tail"]);
    assert_eq!(changed_paths(""), Vec::<String>::new());
}
