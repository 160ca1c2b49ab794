use myshell::table::{Indexed, TableRes};

fn sample() -> TableRes {
    TableRes {
        header: vec!["type".to_string(), "name".to_string()],
        entries: vec![
            vec!["file".to_string(), "a".to_string()],
            vec!["dir".to_string(), "b".to_string()],
            vec!["sym".to_string(), "z".to_string()],
        ],
    }
}

#[test]
fn by_row_returns_single_row_projection() {
    let t = sample();
    match t.by_row(2) {
        Indexed::Table(p) => {
            assert_eq!(p.header, vec!["type".to_string(), "name".to_string()]);
            assert_eq!(p.entries, vec![vec!["dir".to_string(), "b".to_string()]]);
        }
        Indexed::Scalar(_) => panic!("a two-column table must project to a table"),
    }
}

#[test]
fn by_row_first_and_last() {
    let t = sample();
    match t.by_row(1) {
        Indexed::Table(p) => assert_eq!(p.entries, vec![vec!["file".to_string(), "a".to_string()]]),
        _ => panic!("expected a table"),
    }
    match t.by_row(3) {
        Indexed::Table(p) => assert_eq!(p.entries, vec![vec!["sym".to_string(), "z".to_string()]]),
        _ => panic!("expected a table"),
    }
}

#[test]
fn single_column_indexing_yields_scalar() {
    let t = TableRes {
        header: vec!["dir".to_string()],
        entries: vec![vec!["/home".to_string()], vec!["/tmp".to_string()]],
    };
    match t.by_row(1) {
        Indexed::Scalar(s) => assert_eq!(s, "/home"),
        Indexed::Table(_) => panic!("a one-column table must index to a scalar"),
    }
    match t.by_row(2) {
        Indexed::Scalar(s) => assert_eq!(s, "/tmp"),
        Indexed::Table(_) => panic!("a one-column table must index to a scalar"),
    }
}

#[test]
fn out_of_range_indexing_yields_empty_table() {
    let t = sample();
    for i in [0i64, 4, -1, 100, i64::MAX, i64::MIN] {
        match t.by_row(i) {
            Indexed::Table(p) => {
                assert_eq!(p.header, t.header);
                assert!(p.entries.is_empty());
            }
            Indexed::Scalar(_) => panic!("out of range must yield an empty table"),
        }
    }
}

#[test]
fn single_column_out_of_range_yields_empty_table() {
    let t = TableRes { header: vec!["dir".to_string()], entries: vec![vec!["/".to_string()]] };
    match t.by_row(9) {
        Indexed::Table(p) => {
            assert_eq!(p.header, vec!["dir".to_string()]);
            assert!(p.entries.is_empty());
        }
        Indexed::Scalar(_) => panic!("out of range must yield an empty table"),
    }
}

#[test]
fn by_column_returns_column_values_in_order() {
    let t = sample();
    assert_eq!(
        t.by_column("name"),
        vec!["a".to_string(), "b".to_string(), "z".to_string()]
    );
    assert_eq!(
        t.by_column("type"),
        vec!["file".to_string(), "dir".to_string(), "sym".to_string()]
    );
}

#[test]
fn unknown_column_name_yields_empty_table() {
    let t = sample();
    assert!(t.by_column("size").is_empty());
    assert!(t.by_column("").is_empty());
}

#[test]
fn len_is_row_count() {
    assert_eq!(sample().len(), 3);
    assert_eq!(TableRes::default().len(), 0);
}

#[test]
fn default_table_is_empty() {
    let t = TableRes::default();
    assert!(t.header.is_empty());
    assert!(t.entries.is_empty());
}

#[test]
fn duplicate_column_names_take_first() {
    let t = TableRes {
        header: vec!["x".to_string(), "x".to_string()],
        entries: vec![vec!["left".to_string(), "right".to_string()]],
    };
    assert_eq!(t.by_column("x"), vec!["left".to_string()]);
}
