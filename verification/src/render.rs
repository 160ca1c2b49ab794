//! The terminal render planner. Drawing is modelled as a sequence of plain
//! operations — move, clear, write, scroll — computed from the buffer, the
//! terminal height and the prompt anchor. The host applies each operation
//! to the real terminal in order; whenever a written line would pass the
//! bottom of the screen the plan scrolls one row and the anchor moves up
//! one row to compensate.

use vstd::prelude::*;
use crate::buffer::{views_of, BufView, Command};
use crate::text::push_char;
use vstd::string::StrSliceExecFns;

verus! {

/// One terminal operation of a render plan.
#[derive(Debug)]
pub enum RenderOp {
    /// Move the real cursor to (column, row).
    MoveTo(u16, u16),
    /// Clear from the real cursor to the bottom of the screen.
    ClearDown,
    /// Write text at the real cursor.
    Write(String),
    /// Scroll the whole screen up one row.
    ScrollUp,
    /// Move the real cursor to the start of the next row.
    NextLine,
    /// Show the cursor.
    ShowCursor,
    /// Re-enable cursor blinking.
    EnableBlink,
}

/// The abstract form of a render operation, its text as characters.
#[verifier::ext_equal]
pub enum RenderOpV {
    MoveTo(u16, u16),
    ClearDown,
    Write(Seq<char>),
    ScrollUp,
    NextLine,
    ShowCursor,
    EnableBlink,
}

impl View for RenderOp {
    type V = RenderOpV;

    open spec fn view(&self) -> RenderOpV {
        match self {
            RenderOp::MoveTo(c, r) => RenderOpV::MoveTo(*c, *r),
            RenderOp::ClearDown => RenderOpV::ClearDown,
            RenderOp::Write(s) => RenderOpV::Write(s@),
            RenderOp::ScrollUp => RenderOpV::ScrollUp,
            RenderOp::NextLine => RenderOpV::NextLine,
            RenderOp::ShowCursor => RenderOpV::ShowCursor,
            RenderOp::EnableBlink => RenderOpV::EnableBlink,
        }
    }
}

/// A plan as its abstract operations.
pub open spec fn ops_view(v: Seq<RenderOp>) -> Seq<RenderOpV> {
    v.map_values(|o: RenderOp| o@)
}

/// Text split at line feeds; a trailing line feed yields a final empty
/// line, and empty text is one empty line.
pub open spec fn split_lines(s: Seq<char>) -> Seq<Seq<char>>
    decreases s.len(),
{
    if s.len() == 0 {
        seq![Seq::empty()]
    } else if s.last() == '\n' {
        split_lines(s.drop_last()).push(Seq::empty())
    } else {
        let r = split_lines(s.drop_last());
        r.update(r.len() - 1, r.last().push(s.last()))
    }
}

/// The operations that put line number `i` on the screen when `avail` rows
/// lie between the anchor and the bottom: scroll when past the bottom,
/// advance a physical row after the first line, then write.
pub open spec fn line_ops(l: Seq<char>, i: int, avail: int) -> Seq<RenderOpV> {
    (if i >= avail {
        seq![RenderOpV::ScrollUp]
    } else {
        Seq::empty()
    }) + (if i > 0 {
        seq![RenderOpV::NextLine]
    } else {
        Seq::empty()
    }) + seq![RenderOpV::Write(l)]
}

/// The operations that put every line on the screen, in order.
pub open spec fn emit_ops(lines: Seq<Seq<char>>, avail: int) -> Seq<RenderOpV>
    decreases lines.len(),
{
    if lines.len() == 0 {
        Seq::empty()
    } else {
        emit_ops(lines.drop_last(), avail) + line_ops(lines.last(), lines.len() - 1, avail)
    }
}

/// How many one-row scrolls writing `n` lines into `avail` rows requests.
pub open spec fn scroll_count(n: int, avail: int) -> int {
    if n > avail {
        n - avail
    } else {
        0
    }
}

/// Split text at line feeds into owned lines.
pub fn split_text(s: &str) -> (r: Vec<String>)
    ensures
        views_of(r@) =~= split_lines(s@),
        r@.len() == split_lines(s@).len(),
{
    let n = s.unicode_len();
    let mut done: Vec<String> = Vec::new();
    let mut cur = String::new();
    let mut i: usize = 0;
    while i < n
        invariant
            i <= n,
            n == s@.len(),
            views_of(done@).push(cur@) =~= split_lines(s@.subrange(0, i as int)),
        decreases n - i,
    {
        let c = s.get_char(i);
        if c == '\n' {
            done.push(cur);
            cur = String::new();
        } else {
            push_char(&mut cur, c);
        }
        i = i + 1;
        proof {
            let pfx = s@.subrange(0, i as int);
            assert(pfx.drop_last() =~= s@.subrange(0, i - 1));
            assert(pfx.last() == s@[i - 1]);
            assert(views_of(done@).push(cur@) =~= split_lines(pfx));
        }
    }
    proof {
        assert(s@.subrange(0, n as int) =~= s@);
    }
    done.push(cur);
    proof {
        assert(views_of(done@) =~= split_lines(s@));
    }
    done
}

/// The plan that writes arbitrary text — process output, a result — from
/// the real cursor at `cursor_row`, scrolling past the bottom of a
/// `term_height`-row screen; refused only when the cursor lies below the
/// screen.
pub fn emit_plan(text: &str, term_height: u16, cursor_row: u16) -> (r: Option<Vec<RenderOp>>)
    ensures
        r is Some <==> cursor_row <= term_height,
        r matches Some(ops) ==> ops_view(ops@) =~= emit_ops(
            split_lines(text@),
            term_height - cursor_row,
        ) + seq![RenderOpV::EnableBlink],
{
    if cursor_row > term_height {
        return None;
    }
    let avail = term_height - cursor_row;
    let lines = split_text(text);
    let mut ops: Vec<RenderOp> = Vec::new();
    push_line_ops(&mut ops, &lines, avail);
    ops.push(RenderOp::EnableBlink);
    proof {
        assert(ops_view(ops@) =~= emit_ops(split_lines(text@), term_height - cursor_row) + seq![
            RenderOpV::EnableBlink,
        ]);
    }
    Some(ops)
}

/// Concatenation of plans is concatenation of their abstract operations.
proof fn lemma_ops_view_add(a: Seq<RenderOp>, b: Seq<RenderOp>)
    ensures
        ops_view(a + b) =~= ops_view(a) + ops_view(b),
{
}

/// The operations that write one line, as a plan of its own.
fn one_line_ops(line: &String, i: usize, avail: u16) -> (r: Vec<RenderOp>)
    ensures
        ops_view(r@) =~= line_ops(line@, i as int, avail as int),
{
    let mut r: Vec<RenderOp> = Vec::new();
    if i >= avail as usize && i > 0 {
        r.push(RenderOp::ScrollUp);
        r.push(RenderOp::NextLine);
        r.push(RenderOp::Write(line.clone()));
        proof {
            assert(ops_view(r@) =~= line_ops(line@, i as int, avail as int));
        }
    } else if i >= avail as usize {
        r.push(RenderOp::ScrollUp);
        r.push(RenderOp::Write(line.clone()));
        proof {
            assert(ops_view(r@) =~= line_ops(line@, i as int, avail as int));
        }
    } else if i > 0 {
        r.push(RenderOp::NextLine);
        r.push(RenderOp::Write(line.clone()));
        proof {
            assert(ops_view(r@) =~= line_ops(line@, i as int, avail as int));
        }
    } else {
        r.push(RenderOp::Write(line.clone()));
        proof {
            assert(ops_view(r@) =~= line_ops(line@, i as int, avail as int));
        }
    }
    r
}

/// Append the operations that write every given line, scrolling from line
/// number `avail` on.
fn push_line_ops(ops: &mut Vec<RenderOp>, lines: &Vec<String>, avail: u16)
    ensures
        ops_view(final(ops)@) =~= ops_view(old(ops)@) + emit_ops(views_of(lines@), avail as int),
{
    let mut i: usize = 0;
    while i < lines.len()
        invariant
            i <= lines@.len(),
            ops_view(ops@) =~= ops_view(old(ops)@) + emit_ops(
                views_of(lines@).subrange(0, i as int),
                avail as int,
            ),
        decreases lines@.len() - i,
    {
        let ghost snap = ops@;
        let mut chunk = one_line_ops(&lines[i], i, avail);
        let ghost chunk_snap = chunk@;
        ops.append(&mut chunk);
        i = i + 1;
        proof {
            let pfx = views_of(lines@).subrange(0, i as int);
            assert(pfx.drop_last() =~= views_of(lines@).subrange(0, i - 1));
            assert(pfx.last() == lines@[i - 1]@);
            assert(emit_ops(pfx, avail as int) == emit_ops(pfx.drop_last(), avail as int)
                + line_ops(pfx.last(), i - 1, avail as int));
            lemma_ops_view_add(snap, chunk_snap);
            assert(ops_view(ops@) == ops_view(snap) + ops_view(chunk_snap));
            assert(ops_view(ops@) =~= ops_view(old(ops)@) + emit_ops(pfx, avail as int));
        }
    }
    proof {
        assert(views_of(lines@).subrange(0, lines@.len() as int) =~= views_of(lines@));
    }
}

/// The plan that begins a redraw: move to the anchor, clear everything
/// below it, write the prompt.
pub fn prompt_plan(anchor: (u16, u16), prompt: &str) -> (r: Vec<RenderOp>)
    ensures
        ops_view(r@) =~= seq![
            RenderOpV::MoveTo(anchor.0, anchor.1),
            RenderOpV::ClearDown,
            RenderOpV::Write(prompt@),
        ],
{
    let mut ops: Vec<RenderOp> = Vec::new();
    ops.push(RenderOp::MoveTo(anchor.0, anchor.1));
    ops.push(RenderOp::ClearDown);
    ops.push(RenderOp::Write(prompt.to_owned()));
    proof {
        assert(ops_view(ops@) =~= seq![
            RenderOpV::MoveTo(anchor.0, anchor.1),
            RenderOpV::ClearDown,
            RenderOpV::Write(prompt@),
        ]);
    }
    ops
}

/// Where the real cursor lands for the logical cursor: offset from the
/// end of the prompt on the first line, absolute column on later lines,
/// on the row shifted up by the scrolls the plan requested.
pub open spec fn physical_cursor(b: BufView, after_prompt: (u16, u16), sc: int) -> (int, int) {
    if b.row == 0 {
        (after_prompt.0 + b.col, after_prompt.1 - sc)
    } else {
        (b.col, after_prompt.1 - sc + b.row)
    }
}

/// When the buffer plan can be built: the anchor on the screen, enough
/// rows above the anchor and the prompt to absorb the scrolls, and a
/// physical cursor that fits the terminal's coordinate range.
pub open spec fn buffer_plan_ok(
    b: BufView,
    term_height: u16,
    anchor: (u16, u16),
    after_prompt: (u16, u16),
) -> bool {
    let sc = scroll_count(b.lines.len() as int, term_height - anchor.1);
    &&& anchor.1 <= term_height
    &&& sc <= anchor.1
    &&& sc <= after_prompt.1
    &&& physical_cursor(b, after_prompt, sc).0 <= u16::MAX
    &&& physical_cursor(b, after_prompt, sc).1 <= u16::MAX
}

/// The plan that redraws the whole buffer below the anchor and parks the
/// real cursor under the logical one, with the anchor the plan's scrolls
/// leave behind. Refused exactly when the screen cannot take it, which
/// the caller must treat as a fatal display state.
pub fn buffer_plan(
    cmd: &Command,
    term_height: u16,
    anchor: (u16, u16),
    after_prompt: (u16, u16),
) -> (r: Option<(Vec<RenderOp>, (u16, u16))>)
    requires
        cmd@.wf(),
    ensures
        r is Some <==> buffer_plan_ok(cmd@, term_height, anchor, after_prompt),
        r matches Some((ops, na)) ==> ({
            let sc = scroll_count(cmd@.lines.len() as int, term_height - anchor.1);
            let pc = physical_cursor(cmd@, after_prompt, sc);
            &&& ops_view(ops@) =~= emit_ops(cmd@.lines, term_height - anchor.1) + seq![
                RenderOpV::MoveTo(pc.0 as u16, pc.1 as u16),
                RenderOpV::ShowCursor,
            ]
            &&& na.0 == anchor.0
            &&& na.1 == anchor.1 - sc
        }),
{
    if anchor.1 > term_height {
        return None;
    }
    let avail = term_height - anchor.1;
    let n = cmd.cmd.len();
    let sc: usize = if n > avail as usize {
        n - avail as usize
    } else {
        0
    };
    if sc > anchor.1 as usize || sc > after_prompt.1 as usize {
        return None;
    }
    let shifted_row = after_prompt.1 - sc as u16;
    let (pcol, prow): (u16, u16) = if cmd.cursor.1 == 0 {
        if cmd.cursor.0 > u16::MAX as usize {
            return None;
        }
        let px = after_prompt.0 as u32 + cmd.cursor.0 as u32;
        if px > u16::MAX as u32 {
            return None;
        }
        (px as u16, shifted_row)
    } else {
        if cmd.cursor.0 > u16::MAX as usize || cmd.cursor.1 > u16::MAX as usize {
            return None;
        }
        let py = shifted_row as u32 + cmd.cursor.1 as u32;
        if py > u16::MAX as u32 {
            return None;
        }
        (cmd.cursor.0 as u16, py as u16)
    };
    let mut ops: Vec<RenderOp> = Vec::new();
    push_line_ops(&mut ops, &cmd.cmd, avail);
    ops.push(RenderOp::MoveTo(pcol, prow));
    ops.push(RenderOp::ShowCursor);
    proof {
        let scs = scroll_count(cmd@.lines.len() as int, term_height - anchor.1);
        assert(scs == sc);
        let pc = physical_cursor(cmd@, after_prompt, scs);
        assert(pc.0 == pcol && pc.1 == prow);
        assert(ops_view(ops@) =~= emit_ops(cmd@.lines, term_height - anchor.1) + seq![
            RenderOpV::MoveTo(pcol, prow),
            RenderOpV::ShowCursor,
        ]);
    }
    Some((ops, (anchor.0, anchor.1 - sc as u16)))
}

} // verus!
