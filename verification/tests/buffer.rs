use myshell::buffer::Command;

fn typed(text: &str) -> Command {
    let mut cmd = Command::new();
    for c in text.chars() {
        cmd.add_char(c);
    }
    cmd
}

#[test]
fn new_buffer_is_one_empty_line() {
    let cmd = Command::new();
    assert_eq!(cmd.cmd, vec![String::new()]);
    assert_eq!(cmd.cursor, (0, 0));
    assert!(cmd.needs_redraw());
}

#[test]
fn typing_inserts_at_cursor() {
    let cmd = typed("abc");
    assert_eq!(cmd.cmd, vec!["abc".to_string()]);
    assert_eq!(cmd.cursor, (3, 0));
}

#[test]
fn carriage_return_is_ignored() {
    let mut cmd = typed("ab");
    cmd.add_char('\r');
    assert_eq!(cmd.cmd, vec!["ab".to_string()]);
    assert_eq!(cmd.cursor, (2, 0));
}

#[test]
fn line_break_splits_at_cursor() {
    let mut cmd = typed("abcd");
    cmd.left();
    cmd.left();
    cmd.add_char('\n');
    assert_eq!(cmd.cmd, vec!["ab".to_string(), "cd".to_string()]);
    assert_eq!(cmd.cursor, (0, 1));
}

#[test]
fn break_then_delete_restores_line_and_cursor() {
    let mut cmd = typed("hello");
    cmd.left();
    cmd.left();
    assert_eq!(cmd.cursor, (3, 0));
    cmd.add_char('\n');
    cmd.remove_char();
    assert_eq!(cmd.cmd, vec!["hello".to_string()]);
    assert_eq!(cmd.cursor, (3, 0));
}

#[test]
fn delete_at_line_start_joins_lines() {
    let mut cmd = typed("ab\ncd");
    assert_eq!(cmd.cmd, vec!["ab".to_string(), "cd".to_string()]);
    cmd.left();
    cmd.left();
    assert_eq!(cmd.cursor, (0, 1));
    cmd.remove_char();
    assert_eq!(cmd.cmd, vec!["abcd".to_string()]);
    assert_eq!(cmd.cursor, (2, 0));
}

#[test]
fn delete_at_buffer_start_is_noop() {
    let mut cmd = typed("x");
    cmd.left();
    cmd.remove_char();
    assert_eq!(cmd.cmd, vec!["x".to_string()]);
    assert_eq!(cmd.cursor, (0, 0));
}

#[test]
fn delete_removes_left_character() {
    let mut cmd = typed("abc");
    cmd.remove_char();
    assert_eq!(cmd.cmd, vec!["ab".to_string()]);
    assert_eq!(cmd.cursor, (2, 0));
}

#[test]
fn movement_never_leaves_the_buffer() {
    let mut cmd = typed("ab\ncdef");
    assert!(!cmd.down());
    assert_eq!(cmd.cursor, (4, 1));
    assert!(!cmd.right(false));
    assert_eq!(cmd.cursor, (4, 1));
    assert!(cmd.up());
    assert_eq!(cmd.cursor, (2, 0), "column clamps to the shorter line");
    assert!(!cmd.up());
    assert!(cmd.left());
    assert!(cmd.left());
    assert!(!cmd.left());
    assert_eq!(cmd.cursor, (0, 0));
}

#[test]
fn plain_right_never_wraps() {
    let mut cmd = typed("ab\ncd");
    cmd.up();
    assert_eq!(cmd.cursor, (2, 0), "column carries over to the end of the shorter line");
    assert!(!cmd.right(false), "plain rightward motion stops at end of line");
    assert_eq!(cmd.cursor, (2, 0));
}

#[test]
fn wrapping_right_crosses_to_next_line() {
    let mut cmd = typed("ab\ncd");
    cmd.up();
    assert_eq!(cmd.cursor, (2, 0));
    assert!(cmd.right(true));
    assert_eq!(cmd.cursor, (0, 1));
}

#[test]
fn down_clamps_column() {
    let mut cmd = typed("abcdef\nxy");
    cmd.up();
    assert_eq!(cmd.cursor, (2, 0));
    cmd.right(false);
    cmd.right(false);
    assert_eq!(cmd.cursor, (4, 0));
    assert!(cmd.down());
    assert_eq!(cmd.cursor, (2, 1));
}

#[test]
fn code_joins_lines_with_line_feeds() {
    let cmd = typed("a\nbb\nccc");
    assert_eq!(cmd.code(), "a\nbb\nccc");
    assert_eq!(Command::new().code(), "");
}

#[test]
fn redraw_marks() {
    let mut cmd = Command::new();
    cmd.mark_drawn();
    assert!(!cmd.needs_redraw());
    cmd.add_char('q');
    assert!(cmd.needs_redraw());
    cmd.mark_drawn();
    cmd.mark_dirty();
    assert!(cmd.needs_redraw());
}
