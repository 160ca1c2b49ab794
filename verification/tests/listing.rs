use myshell::listing::{cd_table, cd_target, kind_label, ls_path, ls_table, sort_entries, EntryKind};

#[test]
fn listing_sorts_files_then_dirs_then_symlinks() {
    // A directory holding file "a", subdirectory "b" and symlink "z",
    // enumerated in no particular order.
    let entries = vec![
        (EntryKind::Sym, "z".to_string()),
        (EntryKind::Dir, "b".to_string()),
        (EntryKind::File, "a".to_string()),
    ];
    let t = ls_table(&entries);
    assert_eq!(t.header, vec!["type".to_string(), "name".to_string()]);
    assert_eq!(
        t.entries,
        vec![
            vec!["file".to_string(), "a".to_string()],
            vec!["dir".to_string(), "b".to_string()],
            vec!["sym".to_string(), "z".to_string()],
        ]
    );
}

#[test]
fn listing_sorts_by_name_within_a_group() {
    let entries = vec![
        (EntryKind::File, "zeta".to_string()),
        (EntryKind::File, "alpha".to_string()),
        (EntryKind::Dir, "nested".to_string()),
        (EntryKind::File, "mid".to_string()),
    ];
    let t = ls_table(&entries);
    assert_eq!(
        t.entries,
        vec![
            vec!["file".to_string(), "alpha".to_string()],
            vec!["file".to_string(), "mid".to_string()],
            vec!["file".to_string(), "zeta".to_string()],
            vec!["dir".to_string(), "nested".to_string()],
        ]
    );
}

#[test]
fn listing_of_nothing_is_headers_only() {
    let t = ls_table(&Vec::new());
    assert_eq!(t.header, vec!["type".to_string(), "name".to_string()]);
    assert!(t.entries.is_empty());
}

#[test]
fn sort_entries_is_stable_under_permutation() {
    let a = vec![
        (EntryKind::Dir, "d".to_string()),
        (EntryKind::File, "f".to_string()),
        (EntryKind::Sym, "s".to_string()),
    ];
    let b = vec![
        (EntryKind::Sym, "s".to_string()),
        (EntryKind::File, "f".to_string()),
        (EntryKind::Dir, "d".to_string()),
    ];
    assert_eq!(sort_entries(&a), sort_entries(&b));
}

#[test]
fn kind_labels() {
    assert_eq!(kind_label(EntryKind::File), "file");
    assert_eq!(kind_label(EntryKind::Dir), "dir");
    assert_eq!(kind_label(EntryKind::Sym), "sym");
}

#[test]
fn empty_ls_path_reads_the_current_directory() {
    // ls("") and ls(".") read the same directory, so their tables match.
    assert_eq!(ls_path(""), ".");
    assert_eq!(ls_path("."), ".");
    assert_eq!(ls_path("/tmp"), "/tmp");
}

#[test]
fn cd_with_a_path_goes_there() {
    assert_eq!(
        cd_target("/etc", Some("/home/me".to_string()), Some("/pwd".to_string())),
        Some("/etc".to_string())
    );
}

#[test]
fn cd_with_empty_path_goes_home() {
    assert_eq!(
        cd_target("", Some("/home/me".to_string()), Some("/pwd".to_string())),
        Some("/home/me".to_string())
    );
}

#[test]
fn cd_with_empty_path_and_no_home_falls_back_to_cwd() {
    assert_eq!(cd_target("", None, Some("/pwd".to_string())), Some("/pwd".to_string()));
    assert_eq!(cd_target("", None, None), None);
}

#[test]
fn cd_returns_one_row_one_column_table() {
    let t = cd_table("/home/me".to_string());
    assert_eq!(t.header, vec!["dir".to_string()]);
    assert_eq!(t.entries, vec![vec!["/home/me".to_string()]]);
}
