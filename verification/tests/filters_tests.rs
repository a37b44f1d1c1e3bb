use fexplorer::category::{FileCategory, MediaType};
use fexplorer::dates::{parse_date, parse_date_at, relative_span_of, resolve_date, seconds_in};
use fexplorer::patterns::{GlobFilter, RegexFilter};
use fexplorer::errors::FsError;
use fexplorer::filters::{
    file_extension, list_holds, CategoryFilter, DateFilter, ExtensionFilter, KindFilter,
    SizeFilter,
};
use fexplorer::models::{Entry, EntryKind};

fn make_test_entry(name: &str, size: u64, kind: EntryKind) -> Entry {
    Entry {
        path: name.to_string(),
        name: name.to_string(),
        size,
        kind,
        mtime: 1_700_000_000,
        perms: None,
        owner: None,
        depth: 0,
    }
}

#[test]
fn test_extension_filter() {
    let filter = ExtensionFilter::new(&["rs".to_string(), "toml".to_string()]);
    assert!(filter.test(&make_test_entry("main.rs", 100, EntryKind::File)));
    assert!(filter.test(&make_test_entry("Cargo.toml", 100, EntryKind::File)));
    assert!(!filter.test(&make_test_entry("readme.md", 100, EntryKind::File)));
}

#[test]
fn test_size_filter() {
    let filter = SizeFilter::new(Some("1KB"), Some("10KB")).unwrap();
    assert!(!filter.test(&make_test_entry("small.txt", 500, EntryKind::File)));
    assert!(filter.test(&make_test_entry("medium.txt", 5000, EntryKind::File)));
    assert!(!filter.test(&make_test_entry("large.txt", 20000, EntryKind::File)));
}

#[test]
fn test_kind_filter() {
    let filter = KindFilter::new(&[EntryKind::File]);
    assert!(filter.test(&make_test_entry("file.txt", 100, EntryKind::File)));
    assert!(!filter.test(&make_test_entry("dir", 0, EntryKind::Dir)));
}

#[test]
fn test_category_filter_source() {
    let filter = CategoryFilter::new("source");
    assert!(filter.test(&make_test_entry("main.rs", 100, EntryKind::File)));
    assert!(filter.test(&make_test_entry("app.py", 100, EntryKind::File)));
    assert!(!filter.test(&make_test_entry("image.png", 100, EntryKind::File)));
}

#[test]
fn test_category_filter_media() {
    let filter = CategoryFilter::new("image");
    assert!(filter.test(&make_test_entry("photo.jpg", 100, EntryKind::File)));
    assert!(filter.test(&make_test_entry("icon.png", 100, EntryKind::File)));
    assert!(!filter.test(&make_test_entry("video.mp4", 100, EntryKind::File)));
}

#[test]
fn test_category_filter_config() {
    let filter = CategoryFilter::new("config");
    assert!(filter.test(&make_test_entry("Cargo.toml", 100, EntryKind::File)));
    assert!(filter.test(&make_test_entry("config.yaml", 100, EntryKind::File)));
    assert!(!filter.test(&make_test_entry("main.rs", 100, EntryKind::File)));
}

#[test]
fn extension_is_what_follows_the_last_point() {
    assert_eq!(file_extension("main.rs"), Some("rs".to_string()));
    assert_eq!(file_extension("archive.tar.gz"), Some("gz".to_string()));
    assert_eq!(file_extension("trailing."), Some("".to_string()));
    assert_eq!(file_extension("..."), Some("".to_string()));
    assert_eq!(file_extension(".hidden.txt"), Some("txt".to_string()));
    assert_eq!(file_extension("Makefile"), None);
    assert_eq!(file_extension(".gitignore"), None);
    assert_eq!(file_extension(".."), None);
    assert_eq!(file_extension("."), None);
    assert_eq!(file_extension(""), None);
}

#[test]
fn extension_filter_ignores_letter_case() {
    let filter = ExtensionFilter::new(&["RS".to_string(), "Md".to_string()]);
    assert!(filter.test(&make_test_entry("main.rs", 1, EntryKind::File)));
    assert!(filter.test(&make_test_entry("MAIN.RS", 1, EntryKind::Dir)));
    assert!(filter.test(&make_test_entry("README.MD", 1, EntryKind::File)));
    assert!(!filter.test(&make_test_entry("rs", 1, EntryKind::File)));
    assert!(!filter.test(&make_test_entry(".rs", 1, EntryKind::File)));
    assert!(filter.holds("rs"));
    assert!(!filter.holds("RS"));
    assert!(!ExtensionFilter::new(&[]).test(&make_test_entry("main.rs", 1, EntryKind::File)));
    assert!(list_holds(&vec!["a".to_string(), "b".to_string()], "b"));
    assert!(!list_holds(&vec!["a".to_string(), "b".to_string()], "c"));
}

#[test]
fn size_filter_bounds_are_inclusive_and_skip_directories() {
    let filter = SizeFilter::between(Some(1_000), Some(10_000));
    assert!(filter.test(&make_test_entry("low", 1_000, EntryKind::File)));
    assert!(filter.test(&make_test_entry("high", 10_000, EntryKind::Symlink)));
    assert!(!filter.test(&make_test_entry("under", 999, EntryKind::File)));
    assert!(!filter.test(&make_test_entry("over", 10_001, EntryKind::File)));
    assert!(filter.test(&make_test_entry("dir", 0, EntryKind::Dir)));
    assert!(filter.test(&make_test_entry("dir", u64::MAX, EntryKind::Dir)));
    let open = SizeFilter::new(None, None).unwrap();
    assert!(open.test(&make_test_entry("any", 0, EntryKind::File)));
    let least = SizeFilter::new(Some("1 MiB"), None).unwrap();
    assert!(least.test(&make_test_entry("big", 1_048_576, EntryKind::File)));
    assert!(!least.test(&make_test_entry("small", 1_048_575, EntryKind::File)));
}

#[test]
fn size_filter_reports_the_first_bad_bound() {
    match SizeFilter::new(Some("lots"), Some("more")) {
        Err(FsError::InvalidSize { input }) => assert_eq!(input, "LOTS"),
        other => panic!("unexpected {:?}", other),
    }
    match SizeFilter::new(Some("1KB"), Some("1 qb")) {
        Err(FsError::InvalidSize { input }) => assert_eq!(input, "1QB"),
        other => panic!("unexpected {:?}", other),
    }
}

#[test]
fn date_filter_bounds_are_inclusive() {
    let filter = DateFilter::between(Some(1_700_000_000), Some(1_700_000_100));
    let at = |mtime: i64| {
        let mut e = make_test_entry("f", 1, EntryKind::File);
        e.mtime = mtime;
        e
    };
    assert!(filter.test(&at(1_700_000_000)));
    assert!(filter.test(&at(1_700_000_100)));
    assert!(!filter.test(&at(1_699_999_999)));
    assert!(!filter.test(&at(1_700_000_101)));
    assert!(DateFilter::between(None, None).test(&at(i64::MIN)));
    assert!(DateFilter::between(Some(5), None).test(&at(i64::MAX)));
    assert!(!DateFilter::between(None, Some(5)).test(&at(6)));
}

#[test]
fn kind_filter_with_several_kinds() {
    let filter = KindFilter::new(&[EntryKind::Dir, EntryKind::Symlink]);
    assert!(filter.test(&make_test_entry("d", 0, EntryKind::Dir)));
    assert!(filter.test(&make_test_entry("l", 0, EntryKind::Symlink)));
    assert!(!filter.test(&make_test_entry("f", 0, EntryKind::File)));
    assert!(!KindFilter::new(&[]).test(&make_test_entry("f", 0, EntryKind::File)));
}

#[test]
fn category_filter_groups() {
    let file = |name: &str| make_test_entry(name, 1, EntryKind::File);
    assert!(CategoryFilter::new("DOCS").test(&file("guide.md")));
    assert!(CategoryFilter::new("documentation").test(&file("paper.PDF")));
    assert!(CategoryFilter::new("media").test(&file("song.mp3")));
    assert!(CategoryFilter::new("audio").test(&file("song.mp3")));
    assert!(!CategoryFilter::new("video").test(&file("song.mp3")));
    assert!(CategoryFilter::new("video").test(&file("clip.mkv")));
    assert!(CategoryFilter::new("data").test(&file("table.csv")));
    assert!(CategoryFilter::new("archive").test(&file("backup.tar.gz")));
    assert!(CategoryFilter::new("exec").test(&file("run.sh")));
    assert!(CategoryFilter::new("executable").test(&file("run.fish")));
    assert!(CategoryFilter::new("build").test(&file("libfoo.so")));
    assert!(!CategoryFilter::new("unknown").test(&file("strange.xyz")));
    assert!(!CategoryFilter::new("source").test(&file("Makefile")));
    // Only files are categorised.
    assert!(!CategoryFilter::new("source").test(&make_test_entry("main.rs", 1, EntryKind::Dir)));
    // The exact-name constructor does not fold case.
    assert!(!CategoryFilter::from_lowercase("Source").test(&file("main.rs")));
    assert!(CategoryFilter::from_lowercase("source").test(&file("main.rs")));
}

#[test]
fn matches_category_by_group() {
    let image = FileCategory::Media { media_type: MediaType::Image };
    assert!(CategoryFilter::new("image").matches_category(&image));
    assert!(CategoryFilter::new("media").matches_category(&image));
    assert!(!CategoryFilter::new("audio").matches_category(&image));
    let rust = FileCategory::Source { language: "rust".to_string() };
    assert!(CategoryFilter::new("source").matches_category(&rust));
    assert!(!CategoryFilter::new("config").matches_category(&rust));
    assert!(!CategoryFilter::new("").matches_category(&FileCategory::Unknown));
}

#[test]
fn categories_by_extension() {
    assert_eq!(
        FileCategory::from_extension("RS"),
        FileCategory::Source { language: "rust".to_string() }
    );
    assert_eq!(
        FileCategory::from_extension("tsx"),
        FileCategory::Source { language: "javascript".to_string() }
    );
    assert_eq!(
        FileCategory::from_extension("hpp"),
        FileCategory::Source { language: "cpp".to_string() }
    );
    assert_eq!(
        FileCategory::from_extension("yml"),
        FileCategory::Config { format: "yaml".to_string() }
    );
    assert_eq!(
        FileCategory::from_extension("json"),
        FileCategory::Config { format: "json".to_string() }
    );
    assert_eq!(
        FileCategory::from_extension("sqlite3"),
        FileCategory::Data { format: "sqlite".to_string() }
    );
    assert_eq!(
        FileCategory::from_extension("WebP"),
        FileCategory::Media { media_type: MediaType::Image }
    );
    assert_eq!(
        FileCategory::from_extension("webm"),
        FileCategory::Media { media_type: MediaType::Video }
    );
    assert_eq!(FileCategory::from_extension("7z"), FileCategory::Archive);
    assert_eq!(FileCategory::from_extension("dylib"), FileCategory::Build);
    assert_eq!(FileCategory::from_extension("adoc"), FileCategory::Documentation);
    assert_eq!(FileCategory::from_extension("zsh"), FileCategory::Executable);
    assert_eq!(FileCategory::from_extension(""), FileCategory::Unknown);
    assert_eq!(FileCategory::from_extension("exe"), FileCategory::Unknown);
    assert_eq!(FileCategory::from_lowercase("RS"), FileCategory::Unknown);
}

#[test]
fn test_regex_filter() {
    let filter = RegexFilter::new(r"^test_.*\.rs$").unwrap();
    assert!(filter.test(&make_test_entry("test_foo.rs", 100, EntryKind::File)));
    assert!(!filter.test(&make_test_entry("main.rs", 100, EntryKind::File)));
}

#[test]
fn regex_filter_refuses_a_bad_pattern() {
    match RegexFilter::new("foo(bar") {
        Err(FsError::InvalidRegex { pattern, reason }) => {
            assert_eq!(pattern, "foo(bar");
            assert!(!reason.is_empty());
        }
        _ => panic!("the pattern should be refused"),
    }
    // The pattern is matched anywhere in the name, not compared with it.
    let filter = RegexFilter::new("a+").unwrap();
    assert!(filter.test(&make_test_entry("banana", 1, EntryKind::Dir)));
    assert!(!filter.test(&make_test_entry("b+", 1, EntryKind::Dir)));
}

#[test]
fn test_parse_date() {
    // YYYY-MM-DD format
    let result = parse_date("2024-01-01");
    assert!(result.is_ok());

    // RFC 3339 format
    let result = parse_date("2024-01-01T12:00:00Z");
    assert!(result.is_ok());

    // Invalid format
    assert!(parse_date("invalid").is_err());
}

#[test]
fn dates_are_read_in_three_forms() {
    let now = 1_700_000_000;
    assert_eq!(parse_date_at("2024-01-01", now).unwrap(), 1_704_067_200);
    assert_eq!(parse_date_at("2024-01-01T12:00:00Z", now).unwrap(), 1_704_110_400);
    assert_eq!(parse_date_at("2024-01-01T12:00:00+02:00", now).unwrap(), 1_704_103_200);
    assert_eq!(parse_date_at("1970-01-01", now).unwrap(), 0);
    assert_eq!(parse_date_at("7 days ago", now).unwrap(), now - 7 * 86_400);
    assert_eq!(parse_date_at("  2 Weeks AGO ", now).unwrap(), now - 14 * 86_400);
    assert_eq!(parse_date_at("1 month ago", now).unwrap(), now - 30 * 86_400);
    assert_eq!(parse_date_at("1 year ago", now).unwrap(), now - 365 * 86_400);
    assert_eq!(parse_date_at("90 secs ago", now).unwrap(), now - 90);
    assert_eq!(parse_date_at("3 hrs ago", now).unwrap(), now - 10_800);
    assert_eq!(parse_date_at("5 min ago", now).unwrap(), now - 300);
    assert_eq!(parse_date_at("-1 day ago", now).unwrap(), now + 86_400);
    for text in ["", "ago", "7 days", "seven days ago", "7 fortnights ago", "7 days ago please",
        "2024-13-01", "2024-02-30", "9223372036854775807 years ago"]
    {
        match parse_date_at(text, now) {
            Err(FsError::InvalidDate { input }) => assert_eq!(input, text),
            other => panic!("unexpected {:?} for {:?}", other, text),
        }
    }
}

#[test]
fn relative_spans() {
    assert_eq!(relative_span_of("7 days ago"), Some(604_800));
    assert_eq!(relative_span_of("1 week ago"), Some(604_800));
    assert_eq!(relative_span_of("+2 minutes ago"), Some(120));
    assert_eq!(relative_span_of("7 Days ago"), None);
    assert_eq!(relative_span_of("7 days"), None);
    assert_eq!(
        relative_span_of("9223372036854775807 years ago"),
        Some(9_223_372_036_854_775_807i128 * 31_536_000)
    );
    assert_eq!(seconds_in("hour"), Some(3_600));
    assert_eq!(seconds_in("Hour"), None);
    assert_eq!(resolve_date(Some(5), Some(6), Some(7), 100), Some(5));
    assert_eq!(resolve_date(None, Some(6), Some(7), 100), Some(6));
    assert_eq!(resolve_date(None, None, Some(7), 100), Some(93));
    assert_eq!(resolve_date(None, None, None, 100), None);
    assert_eq!(resolve_date(None, None, Some(i128::MAX), 100), None);
    assert_eq!(resolve_date(None, None, Some(i128::MIN), 100), None);
}

#[test]
fn date_filter_from_texts() {
    let now = 1_700_000_000;
    let filter = DateFilter::new_at(Some("7 days ago"), Some("2024-01-01"), now).unwrap();
    let at = |mtime: i64| {
        let mut e = make_test_entry("f", 1, EntryKind::File);
        e.mtime = mtime;
        e
    };
    assert!(filter.test(&at(now)));
    assert!(!filter.test(&at(now - 8 * 86_400)));
    assert!(!filter.test(&at(1_704_067_201)));
    assert!(DateFilter::new(None, None).unwrap().test(&at(0)));
    match DateFilter::new_at(Some("soon"), Some("later"), now) {
        Err(FsError::InvalidDate { input }) => assert_eq!(input, "soon"),
        _ => panic!("the bound should be refused"),
    }
    match DateFilter::new(Some("1 day ago"), Some("later")) {
        Err(FsError::InvalidDate { input }) => assert_eq!(input, "later"),
        _ => panic!("the bound should be refused"),
    }
}

#[test]
fn test_glob_filter() {
    let filter = GlobFilter::new(&["*.rs".to_string()]).unwrap();
    assert!(filter.test(&make_test_entry("main.rs", 100, EntryKind::File)));
    assert!(!filter.test(&make_test_entry("main.txt", 100, EntryKind::File)));
}

#[test]
fn glob_filter_with_several_patterns() {
    let filter = GlobFilter::new(&["*.rs".to_string(), "Cargo.*".to_string()]).unwrap();
    assert!(filter.test(&make_test_entry("Cargo.lock", 1, EntryKind::File)));
    assert!(filter.test(&make_test_entry("lib.rs", 1, EntryKind::Dir)));
    assert!(!filter.test(&make_test_entry("*.rs.bak", 1, EntryKind::File)));
    assert!(!GlobFilter::new(&[]).unwrap().test(&make_test_entry("lib.rs", 1, EntryKind::File)));
    match GlobFilter::new(&["*.rs".to_string(), "[unclosed".to_string(), "{also".to_string()]) {
        Err(FsError::InvalidGlob { pattern, reason }) => {
            assert_eq!(pattern, "[unclosed");
            assert!(!reason.is_empty());
        }
        _ => panic!("the pattern should be refused"),
    }
}

#[test]
fn glob_filter_without_patterns_is_built_and_passes_nothing() {
    let filter = GlobFilter::new(&[]).unwrap();
    for name in ["", "a", "main.rs", "*", "dir/file", ".hidden"] {
        assert!(!filter.test(&make_test_entry(name, 1, EntryKind::File)), "{:?}", name);
    }
    // Every pattern of the list goes into the filter, not only the first.
    let filter = GlobFilter::new(&["*.a".to_string(), "*.b".to_string(), "*.c".to_string()]).unwrap();
    assert!(filter.test(&make_test_entry("x.a", 1, EntryKind::File)));
    assert!(filter.test(&make_test_entry("x.b", 1, EntryKind::File)));
    assert!(filter.test(&make_test_entry("x.c", 1, EntryKind::File)));
    assert!(!filter.test(&make_test_entry("x.d", 1, EntryKind::File)));
}
