use fexplorer::cli::{
    determine_sort_order, entry_kind_from_lowercase, parse_entry_kinds, parse_sort_key,
    parse_sort_order, sort_key_from_lowercase, sort_order_from_lowercase, CommonArgs,
};
use fexplorer::errors::FsError;
use fexplorer::models::{Column, EntryKind, OutputFormat, SortKey, SortOrder};

#[test]
fn test_parse_sort_key() {
    assert!(matches!(parse_sort_key("name").unwrap(), SortKey::Name));
    assert!(matches!(parse_sort_key("size").unwrap(), SortKey::Size));
    assert!(matches!(parse_sort_key("mtime").unwrap(), SortKey::Mtime));
    assert!(parse_sort_key("invalid").is_err());
}

#[test]
fn test_parse_sort_order() {
    assert!(matches!(parse_sort_order("asc").unwrap(), SortOrder::Asc));
    assert!(matches!(parse_sort_order("desc").unwrap(), SortOrder::Desc));
    assert!(matches!(
        parse_sort_order("ascending").unwrap(),
        SortOrder::Asc
    ));
    assert!(parse_sort_order("invalid").is_err());
}

#[test]
fn test_parse_entry_kinds() {
    let kinds = parse_entry_kinds(&["file".to_string(), "dir".to_string()]).unwrap();
    assert_eq!(kinds.len(), 2);
    assert!(kinds.contains(&EntryKind::File));
    assert!(kinds.contains(&EntryKind::Dir));
}

#[test]
fn test_determine_sort_order() {
    assert!(matches!(determine_sort_order(false, false), SortOrder::Asc));
    assert!(matches!(determine_sort_order(false, true), SortOrder::Desc));
    assert!(matches!(determine_sort_order(true, false), SortOrder::Asc));
}

#[test]
fn sort_key_ignores_letter_case() {
    assert_eq!(parse_sort_key("NAME").unwrap(), SortKey::Name);
    assert_eq!(parse_sort_key("Kind").unwrap(), SortKey::Kind);
    assert_eq!(parse_sort_key("MTime").unwrap(), SortKey::Mtime);
    // The exact-name lookup does not fold case: only the lowered text matches.
    assert_eq!(sort_key_from_lowercase("NAME"), None);
    assert_eq!(sort_key_from_lowercase("name"), Some(SortKey::Name));
}

#[test]
fn sort_key_error_carries_the_input() {
    match parse_sort_key("Bogus") {
        Err(FsError::InvalidFormat { format }) => assert_eq!(format, "Invalid sort key: Bogus"),
        other => panic!("unexpected {:?}", other),
    }
}

#[test]
fn sort_order_long_names_and_error() {
    assert_eq!(parse_sort_order("DESCENDING").unwrap(), SortOrder::Desc);
    assert_eq!(sort_order_from_lowercase("descending"), Some(SortOrder::Desc));
    assert_eq!(sort_order_from_lowercase("up"), None);
    match parse_sort_order("up") {
        Err(FsError::InvalidFormat { format }) => assert_eq!(format, "Invalid sort order: up"),
        other => panic!("unexpected {:?}", other),
    }
}

#[test]
fn entry_kinds_keep_order_and_report_first_unknown() {
    let kinds = parse_entry_kinds(&[
        "Link".to_string(),
        "directory".to_string(),
        "FILE".to_string(),
        "symlink".to_string(),
    ])
    .unwrap();
    assert_eq!(
        kinds,
        vec![EntryKind::Symlink, EntryKind::Dir, EntryKind::File, EntryKind::Symlink]
    );
    match parse_entry_kinds(&["file".to_string(), "pipe".to_string(), "sock".to_string()]) {
        Err(FsError::InvalidFormat { format }) => assert_eq!(format, "Invalid kind: pipe"),
        other => panic!("unexpected {:?}", other),
    }
    assert_eq!(parse_entry_kinds(&[]).unwrap(), vec![]);
    assert_eq!(entry_kind_from_lowercase("dir"), Some(EntryKind::Dir));
    assert_eq!(entry_kind_from_lowercase("Dir"), None);
}

#[test]
fn common_args_default_values() {
    let args = CommonArgs::default();
    assert_eq!(args.max_depth, None);
    assert!(!args.hidden);
    assert!(!args.no_gitignore);
    assert!(!args.follow_symlinks);
    assert_eq!(args.format, "pretty");
    assert!(args.columns.is_empty());
    assert_eq!(args.threads, 4);
    assert_eq!(args.output_format().unwrap(), OutputFormat::Pretty);
}

#[test]
fn common_args_output_format() {
    let mut args = CommonArgs::default();
    args.format = "NDJSON".to_string();
    assert_eq!(args.output_format().unwrap(), OutputFormat::Ndjson);
    args.format = "yaml".to_string();
    match args.output_format() {
        Err(FsError::InvalidFormat { format }) => assert_eq!(format, "yaml"),
        other => panic!("unexpected {:?}", other),
    }
}

#[test]
fn common_args_columns() {
    let mut args = CommonArgs::default();
    assert_eq!(
        args.columns().unwrap(),
        vec![Column::Path, Column::Size, Column::Mtime, Column::Kind]
    );
    args.columns = vec!["Owner".to_string(), "perms".to_string(), "NAME".to_string()];
    assert_eq!(
        args.columns().unwrap(),
        vec![Column::Owner, Column::Perms, Column::Name]
    );
    args.columns = vec!["name".to_string(), "colour".to_string()];
    match args.columns() {
        Err(FsError::InvalidFormat { format }) => assert_eq!(format, "Invalid column: colour"),
        other => panic!("unexpected {:?}", other),
    }
}

#[test]
fn column_and_format_names() {
    assert_eq!(Column::from_str("Path"), Some(Column::Path));
    assert_eq!(Column::from_str("mtime"), Some(Column::Mtime));
    assert_eq!(Column::from_str("none"), None);
    assert_eq!(Column::from_lowercase("Path"), None);
    assert_eq!(OutputFormat::from_str("CSV"), Some(OutputFormat::Csv));
    assert_eq!(OutputFormat::from_str("Json"), Some(OutputFormat::Json));
    assert_eq!(OutputFormat::from_str("xml"), None);
    assert_eq!(OutputFormat::from_lowercase("JSON"), None);
}
