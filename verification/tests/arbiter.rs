use myshell::arbiter::{
    classify_submission, error_table, exit_code_text, passthrough_eligible, process_result_table,
    trim_trailing, ShellState, Verdict,
};

#[test]
fn captured_run_yields_path_code_stdout_stderr_row() {
    // A program at some path wrote "hello" (plus the usual newline) to its
    // stdout and exited 0.
    let t = process_result_table("/usr/bin/hello".to_string(), Some(0), "hello\n", "");
    assert_eq!(
        t.header,
        vec!["path".to_string(), "code".to_string(), "stdout".to_string(), "stderr".to_string()]
    );
    assert_eq!(
        t.entries,
        vec![vec![
            "/usr/bin/hello".to_string(),
            "0".to_string(),
            "hello".to_string(),
            String::new(),
        ]]
    );
}

#[test]
fn signal_termination_reports_sentinel_code() {
    let t = process_result_table("/bin/kill-me".to_string(), None, "", "");
    assert_eq!(t.entries[0][1], "-1");
}

#[test]
fn exit_code_text_exact_values() {
    assert_eq!(exit_code_text(Some(0)), "0");
    assert_eq!(exit_code_text(Some(7)), "7");
    assert_eq!(exit_code_text(Some(42)), "42");
    assert_eq!(exit_code_text(Some(100)), "100");
    assert_eq!(exit_code_text(Some(-9)), "-9");
    assert_eq!(exit_code_text(Some(i32::MAX)), "2147483647");
    assert_eq!(exit_code_text(Some(i32::MIN)), "-2147483648");
    assert_eq!(exit_code_text(None), "-1");
}

#[test]
fn trailing_whitespace_is_trimmed() {
    assert_eq!(trim_trailing("hello\n"), "hello");
    assert_eq!(trim_trailing("a b \t\r\n"), "a b");
    assert_eq!(trim_trailing("  lead kept"), "  lead kept");
    assert_eq!(trim_trailing("\n\n"), "");
    assert_eq!(trim_trailing(""), "");
}

#[test]
fn error_table_is_one_row() {
    let t = error_table("spawn failed".to_string());
    assert_eq!(t.header, vec!["Error".to_string()]);
    assert_eq!(t.entries, vec![vec!["spawn failed".to_string()]]);
}

#[test]
fn passthrough_invocation_restores_modes() {
    // Regardless of how the child exits, after the invocation the flag is
    // down and raw-input mode is on again.
    let mut s = ShellState { mode_flag: false, raw_mode: true };
    s.set_mode_flag(true);
    let passthrough = s.begin_invocation();
    assert!(passthrough);
    assert!(!s.raw_mode, "the terminal belongs to the child");
    // ... the child runs and exits, normally or not ...
    s.finish_invocation(passthrough);
    assert!(!s.mode_flag);
    assert!(s.raw_mode);
}

#[test]
fn captured_invocation_keeps_raw_mode() {
    let mut s = ShellState { mode_flag: false, raw_mode: true };
    let passthrough = s.begin_invocation();
    assert!(!passthrough);
    assert!(s.raw_mode);
    s.finish_invocation(passthrough);
    assert!(!s.mode_flag);
    assert!(s.raw_mode);
}

#[test]
fn eligibility_is_single_statement_without_assignment() {
    assert!(passthrough_eligible(0, 0));
    assert!(passthrough_eligible(1, 0));
    assert!(!passthrough_eligible(2, 0));
    assert!(!passthrough_eligible(1, 1));
}

#[test]
fn bare_call_classifies_passthrough() {
    assert_eq!(classify_submission("ls()"), Verdict::Passthrough);
    assert_eq!(classify_submission("cargo(\"build\")"), Verdict::Passthrough);
}

#[test]
fn assignment_classifies_captured() {
    assert_eq!(classify_submission("x = ls()"), Verdict::Captured);
    assert_eq!(classify_submission("a = 1"), Verdict::Captured);
}

#[test]
fn compound_submission_classifies_captured() {
    assert_eq!(classify_submission("ls()\nls()"), Verdict::Captured);
}
