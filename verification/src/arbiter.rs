//! The process execution arbiter's decisions. A single mode flag selects,
//! per invocation, whether the child inherits the terminal or has its
//! output captured; the arbiter reads it once, releases raw-input mode for
//! a passthrough child, and on finishing re-enables raw mode and clears
//! the flag unconditionally. Captured output becomes a one-row table.
//! A submission may run passthrough only when it is a single bare call,
//! which a parse of the submitted text decides.

use vstd::prelude::*;
use crate::table::TableRes;
use crate::text::push_char;
use tree_sitter::StreamingIterator;
use vstd::string::StrSliceExecFns;
use vstd::string::StringExecFns;

verus! {

/// The shared terminal-mode state: the flag that selects passthrough for
/// the next invocation, and whether raw-input mode is on.
#[derive(Clone, Copy, Debug, PartialEq, Eq, Structural)]
pub struct ShellState {
    pub mode_flag: bool,
    pub raw_mode: bool,
}

impl ShellState {
    /// Starting an invocation: the flag is read once; a passthrough child
    /// takes the terminal, so raw-input mode is released for it.
    pub open spec fn spec_begin(self) -> (bool, ShellState) {
        (
            self.mode_flag,
            ShellState { mode_flag: self.mode_flag, raw_mode: self.raw_mode && !self.mode_flag },
        )
    }

    /// Finishing an invocation: raw-input mode is re-acquired after a
    /// passthrough child whatever its exit was, and the flag is cleared so
    /// nested calls inside one evaluation default to captured mode.
    pub open spec fn spec_finish(self, passthrough: bool) -> ShellState {
        ShellState { mode_flag: false, raw_mode: self.raw_mode || passthrough }
    }

    /// Record the classifier's verdict for the next invocation.
    pub fn set_mode_flag(&mut self, v: bool)
        ensures
            final(self).mode_flag == v,
            final(self).raw_mode == old(self).raw_mode,
    {
        self.mode_flag = v;
    }

    /// Read the flag once and release raw-input mode when the child takes
    /// the terminal; reports whether this invocation is passthrough.
    pub fn begin_invocation(&mut self) -> (passthrough: bool)
        ensures
            (passthrough, *final(self)) == old(self).spec_begin(),
    {
        let passthrough = self.mode_flag;
        if passthrough {
            self.raw_mode = false;
        }
        passthrough
    }

    /// Re-acquire raw-input mode unconditionally after a passthrough child
    /// and clear the flag before returning.
    pub fn finish_invocation(&mut self, passthrough: bool)
        ensures
            *final(self) == old(self).spec_finish(passthrough),
    {
        if passthrough {
            self.raw_mode = true;
        }
        self.mode_flag = false;
    }
}

/// After any passthrough invocation — begin, child runs, finish — the mode
/// flag is false and raw-input mode is re-enabled, regardless of how the
/// child exited: the child's status never enters these transitions. After
/// a captured invocation raw-input mode is exactly what it was.
pub proof fn lemma_passthrough_restores(s: ShellState)
    ensures
        ({
            let (p, s1) = s.spec_begin();
            &&& s1.spec_finish(p).mode_flag == false
            &&& p ==> s1.spec_finish(p).raw_mode == true
            &&& !p ==> s1.spec_finish(p).raw_mode == s.raw_mode
        }),
{
}

/// The exit code a process reports: its own, or the sentinel -1 when a
/// signal ended it before it could have one.
pub open spec fn exit_code_of(code: Option<i32>) -> int {
    match code {
        Some(c) => c as int,
        None => -1,
    }
}

/// The decimal digit characters of `n`, most significant first.
pub open spec fn dec_seq(n: int) -> Seq<char>
    decreases n,
{
    if n < 10 {
        seq![digit_char(n)]
    } else {
        dec_seq(n / 10).push(digit_char(n % 10))
    }
}

/// The decimal text of `n`, with a leading minus sign when negative.
pub open spec fn int_dec(n: int) -> Seq<char> {
    if n < 0 {
        seq!['-'] + dec_seq(-n)
    } else {
        dec_seq(n)
    }
}

/// The character of one decimal digit.
pub open spec fn digit_char(d: int) -> char {
    if d == 0 {
        '0'
    } else if d == 1 {
        '1'
    } else if d == 2 {
        '2'
    } else if d == 3 {
        '3'
    } else if d == 4 {
        '4'
    } else if d == 5 {
        '5'
    } else if d == 6 {
        '6'
    } else if d == 7 {
        '7'
    } else if d == 8 {
        '8'
    } else {
        '9'
    }
}

/// The character of one decimal digit.
fn digit(d: u64) -> (c: char)
    requires
        d < 10,
    ensures
        c == digit_char(d as int),
{
    match d {
        0 => '0',
        1 => '1',
        2 => '2',
        3 => '3',
        4 => '4',
        5 => '5',
        6 => '6',
        7 => '7',
        8 => '8',
        _ => '9',
    }
}

/// The decimal text of `n`.
fn dec_string(n: u64) -> (s: String)
    ensures
        s@ == dec_seq(n as int),
    decreases n,
{
    if n < 10 {
        let mut s = String::new();
        push_char(&mut s, digit(n));
        proof {
            assert(s@ =~= seq![digit_char(n as int)]);
        }
        s
    } else {
        let mut s = dec_string(n / 10);
        push_char(&mut s, digit(n % 10));
        s
    }
}

/// The text of a process's exit code, sentinel -1 included.
pub fn exit_code_text(code: Option<i32>) -> (s: String)
    ensures
        s@ == int_dec(exit_code_of(code)),
{
    let v: i64 = match code {
        Some(c) => c as i64,
        None => -1,
    };
    if v < 0 {
        let mut s = String::new();
        push_char(&mut s, '-');
        let digits = dec_string((-v) as u64);
        s.append(digits.as_str());
        proof {
            assert(s@ =~= seq!['-'] + dec_seq(-v as int));
        }
        s
    } else {
        dec_string(v as u64)
    }
}

/// Whitespace for output trimming.
pub open spec fn is_space(c: char) -> bool {
    c == ' ' || c == '\t' || c == '\n' || c == '\r'
}

/// The text with its trailing whitespace removed.
pub open spec fn trim_end(s: Seq<char>) -> Seq<char>
    decreases s.len(),
{
    if s.len() > 0 && is_space(s.last()) {
        trim_end(s.drop_last())
    } else {
        s
    }
}

/// A prefix that ends at the last non-space character is the trimmed text.
proof fn lemma_trim_end_prefix(s: Seq<char>, end: int)
    requires
        0 <= end <= s.len(),
        forall|k: int| end <= k < s.len() ==> is_space(#[trigger] s[k]),
        end > 0 ==> !is_space(s[end - 1]),
    ensures
        trim_end(s) == s.subrange(0, end),
    decreases s.len() - end,
{
    if end == s.len() {
        assert(s.subrange(0, end) =~= s);
    } else {
        assert(is_space(s.last()));
        lemma_trim_end_prefix(s.drop_last(), end);
        assert(s.drop_last().subrange(0, end) =~= s.subrange(0, end));
    }
}

/// Whitespace for output trimming, decided on a character.
fn is_space_char(c: char) -> (r: bool)
    ensures
        r == is_space(c),
{
    c == ' ' || c == '\t' || c == '\n' || c == '\r'
}

/// Remove trailing whitespace, as captured process output is trimmed.
pub fn trim_trailing(s: &str) -> (r: String)
    ensures
        r@ == trim_end(s@),
{
    let n = s.unicode_len();
    let mut end = n;
    loop
        invariant
            end <= n,
            n == s@.len(),
            forall|k: int| end <= k < n ==> is_space(#[trigger] s@[k]),
        ensures
            end <= n,
            forall|k: int| end <= k < n ==> is_space(#[trigger] s@[k]),
            end > 0 ==> !is_space(s@[end - 1]),
        decreases end,
    {
        if end == 0 {
            break;
        }
        let c = s.get_char(end - 1);
        if !is_space_char(c) {
            break;
        }
        end = end - 1;
    }
    proof {
        lemma_trim_end_prefix(s@, end as int);
    }
    s.substring_char(0, end).to_owned()
}

/// The one-row table of a captured invocation: the program's path, its
/// exit code (sentinel -1 for a signal), and its trimmed output streams.
pub fn process_result_table(path: String, code: Option<i32>, stdout: &str, stderr: &str) -> (r:
    TableRes)
    ensures
        r.header_view() =~= seq!["path"@, "code"@, "stdout"@, "stderr"@],
        r.rows_view() =~= seq![
            seq![path@, int_dec(exit_code_of(code)), trim_end(stdout@), trim_end(stderr@)],
        ],
        r.well_formed(),
{
    let mut header: Vec<String> = Vec::new();
    header.push("path".to_owned());
    header.push("code".to_owned());
    header.push("stdout".to_owned());
    header.push("stderr".to_owned());
    let mut row: Vec<String> = Vec::new();
    row.push(path);
    row.push(exit_code_text(code));
    row.push(trim_trailing(stdout));
    row.push(trim_trailing(stderr));
    let mut rows: Vec<Vec<String>> = Vec::new();
    rows.push(row);
    let r = TableRes { header, entries: rows };
    proof {
        assert(r.header_view() =~= seq!["path"@, "code"@, "stdout"@, "stderr"@]);
        assert(r.rows_view()[0] == r.entries@[0].deep_view());
        assert(r.entries@[0].deep_view() =~= seq![
            path@,
            int_dec(exit_code_of(code)),
            trim_end(stdout@),
            trim_end(stderr@),
        ]);
        assert(r.rows_view() =~= seq![
            seq![path@, int_dec(exit_code_of(code)), trim_end(stdout@), trim_end(stderr@)],
        ]);
    }
    r
}

/// The one-row error table every locally recovered failure renders.
pub fn error_table(msg: String) -> (r: TableRes)
    ensures
        r.header_view() =~= seq!["Error"@],
        r.rows_view() =~= seq![seq![msg@]],
        r.well_formed(),
{
    let mut header: Vec<String> = Vec::new();
    header.push("Error".to_owned());
    let mut row: Vec<String> = Vec::new();
    row.push(msg);
    let mut rows: Vec<Vec<String>> = Vec::new();
    rows.push(row);
    let r = TableRes { header, entries: rows };
    proof {
        assert(r.header_view() =~= seq!["Error"@]);
        assert(r.rows_view()[0] == r.entries@[0].deep_view());
        assert(r.entries@[0].deep_view() =~= seq![msg@]);
        assert(r.rows_view() =~= seq![seq![msg@]]);
    }
    r
}

/// What the syntax classifier found in a submission: the number of
/// top-level statements under the parse root and the number of assignment
/// statements anywhere in it; nothing when the text cannot be parsed.
pub uninterp spec fn lua_syntax_stats(code: Seq<char>) -> Option<(usize, usize)>;

/// Relies on tree_sitter's Parser and Query with tree_sitter_lua's
/// grammar: parsing is a function of the source text alone, and the query
/// counts the `assignment_statement` nodes of the parse tree.
#[verifier::external_body]
fn parse_stats(code: &str) -> (r: Option<(usize, usize)>)
    ensures
        r == lua_syntax_stats(code@),
{
    let mut parser = tree_sitter::Parser::new();
    parser.set_language(&tree_sitter_lua::LANGUAGE.into()).ok()?;
    let tree = parser.parse(code, None)?;
    let root = tree.root_node();
    let query =
        tree_sitter::Query::new(&tree_sitter_lua::LANGUAGE.into(), "(assignment_statement)").ok()?;
    let n = tree_sitter::QueryCursor::new().matches(&query, root, "".as_bytes()).count();
    Some((root.child_count() as usize, n))
}

/// True when a submitted expression may inherit the terminal: the parse
/// found a single top-level statement and no assignment anywhere in it.
pub fn passthrough_eligible(child_count: usize, assignment_count: usize) -> (r: bool)
    ensures
        r == (child_count <= 1 && assignment_count == 0),
{
    child_count <= 1 && assignment_count == 0
}

/// How a submission is to run.
#[derive(Clone, Copy, Debug, PartialEq, Eq, Structural)]
pub enum Verdict {
    /// A single bare call: the child inherits the terminal.
    Passthrough,
    /// Anything else that parses: output is captured.
    Captured,
    /// The text cannot be parsed: an evaluation error, run captured.
    Unparsable,
}

/// The verdict the classifier's finding yields.
pub open spec fn verdict_of(stats: Option<(usize, usize)>) -> Verdict {
    match stats {
        Some(s) => if s.0 <= 1 && s.1 == 0 {
            Verdict::Passthrough
        } else {
            Verdict::Captured
        },
        None => Verdict::Unparsable,
    }
}

/// Classify a submission: passthrough only for a single bare call, never
/// an assignment or compound expression; unparsable text stays captured.
pub fn classify_submission(code: &str) -> (r: Verdict)
    ensures
        r == verdict_of(lua_syntax_stats(code@)),
{
    match parse_stats(code) {
        Some((children, assignments)) => {
            if passthrough_eligible(children, assignments) {
                Verdict::Passthrough
            } else {
                Verdict::Captured
            }
        },
        None => Verdict::Unparsable,
    }
}

} // verus!
