use myshell::buffer::Command;
use myshell::render::{buffer_plan, emit_plan, prompt_plan, split_text, RenderOp};

fn written(ops: &[RenderOp]) -> Vec<String> {
    ops.iter()
        .filter_map(|op| match op {
            RenderOp::Write(s) => Some(s.clone()),
            _ => None,
        })
        .collect()
}

fn count(ops: &[RenderOp], f: impl Fn(&RenderOp) -> bool) -> usize {
    ops.iter().filter(|op| f(op)).count()
}

#[test]
fn split_text_on_line_feeds() {
    assert_eq!(split_text("a\nb"), vec!["a".to_string(), "b".to_string()]);
    assert_eq!(split_text(""), vec![String::new()]);
    assert_eq!(
        split_text("one\n\ntwo\n"),
        vec!["one".to_string(), String::new(), "two".to_string(), String::new()]
    );
}

#[test]
fn emit_plan_writes_every_line() {
    let ops = emit_plan("hello\nworld", 24, 10).expect("cursor on screen");
    assert_eq!(written(&ops), vec!["hello".to_string(), "world".to_string()]);
    assert_eq!(count(&ops, |op| matches!(op, RenderOp::NextLine)), 1);
    assert_eq!(count(&ops, |op| matches!(op, RenderOp::ScrollUp)), 0);
    assert!(matches!(ops.last(), Some(RenderOp::EnableBlink)));
}

#[test]
fn emit_plan_scrolls_past_the_bottom() {
    // Three lines into one remaining row: the second and third line each
    // request a one-row scroll.
    let ops = emit_plan("a\nb\nc", 5, 4).expect("cursor on screen");
    assert_eq!(count(&ops, |op| matches!(op, RenderOp::ScrollUp)), 2);
    assert_eq!(written(&ops), vec!["a".to_string(), "b".to_string(), "c".to_string()]);
}

#[test]
fn emit_plan_refuses_cursor_below_screen() {
    assert!(emit_plan("x", 10, 11).is_none());
    assert!(emit_plan("x", 10, 10).is_some());
}

#[test]
fn prompt_plan_moves_clears_and_writes() {
    let ops = prompt_plan((2, 7), "$ ");
    assert!(matches!(ops[0], RenderOp::MoveTo(2, 7)));
    assert!(matches!(ops[1], RenderOp::ClearDown));
    match &ops[2] {
        RenderOp::Write(s) => assert_eq!(s, "$ "),
        _ => panic!("the prompt must be written"),
    }
    assert_eq!(ops.len(), 3);
}

#[test]
fn buffer_plan_places_cursor_after_prompt_on_first_line() {
    let mut cmd = Command::new();
    for c in "abc".chars() {
        cmd.add_char(c);
    }
    cmd.left();
    // anchor at row 5, prompt ended at column 2 of row 5
    let (ops, anchor) = buffer_plan(&cmd, 24, (0, 5), (2, 5)).expect("plan fits");
    assert_eq!(anchor, (0, 5));
    let n = ops.len();
    assert!(matches!(ops[n - 1], RenderOp::ShowCursor));
    assert!(matches!(ops[n - 2], RenderOp::MoveTo(4, 5)), "prompt column 2 + cursor column 2");
    assert_eq!(written(&ops), vec!["abc".to_string()]);
}

#[test]
fn buffer_plan_uses_absolute_column_on_later_lines() {
    let mut cmd = Command::new();
    for c in "ab\ncd".chars() {
        cmd.add_char(c);
    }
    let (ops, _) = buffer_plan(&cmd, 24, (0, 5), (2, 5)).expect("plan fits");
    let n = ops.len();
    assert!(matches!(ops[n - 2], RenderOp::MoveTo(2, 6)), "absolute column 2, one row down");
}

#[test]
fn buffer_plan_scroll_compensates_anchor() {
    let mut cmd = Command::new();
    for c in "a\nb\nc".chars() {
        cmd.add_char(c);
    }
    // anchor row 4 of a 5-row terminal: one row available, two scrolls
    let (ops, anchor) = buffer_plan(&cmd, 5, (0, 4), (2, 4)).expect("plan fits");
    assert_eq!(
        ops.iter().filter(|op| matches!(op, RenderOp::ScrollUp)).count(),
        2
    );
    assert_eq!(anchor, (0, 2), "the anchor moves up one row per scroll");
}

#[test]
fn buffer_plan_refuses_what_the_screen_cannot_take() {
    let mut cmd = Command::new();
    for c in "a\nb\nc".chars() {
        cmd.add_char(c);
    }
    // two scrolls needed, but the anchor is already at row 1
    assert!(buffer_plan(&cmd, 2, (0, 1), (2, 1)).is_none());
    // anchor below the screen
    assert!(buffer_plan(&cmd, 3, (0, 4), (2, 4)).is_none());
}
