//! The control loop's decisions. While editing, each key either edits the
//! buffer, moves the cursor, submits the buffer, or ends the loop; after
//! an evaluation the buffer is discarded on success and kept for
//! correction on error. The host's loop reads events, asks these
//! functions what to do, and performs the terminal work.

use vstd::prelude::*;
use crate::buffer::{BufView, Command};

verus! {

/// A key the loop reacts to, the terminal's modifiers already resolved.
#[derive(Clone, Copy, Debug, PartialEq, Eq, Structural)]
pub enum InputKey {
    /// A character key inserts it.
    Char(char),
    /// Enter inserts a line break; it never submits.
    Enter,
    /// Backspace deletes leftward.
    Backspace,
    /// Delete removes the character under the cursor, joining at a line end.
    Delete,
    Left,
    Right,
    Up,
    Down,
    /// The dedicated submit chord evaluates the buffer.
    Submit,
    /// The dedicated interrupt chord ends the loop.
    Interrupt,
    /// Anything else is ignored.
    Other,
}

/// What the loop does after a key.
#[derive(Clone, Copy, Debug, PartialEq, Eq, Structural)]
pub enum LoopAction {
    /// Keep editing.
    Continue,
    /// Classify and evaluate the buffer.
    Submit,
    /// End the loop and the process.
    Exit,
}

/// Forward deletion: step right with wrapping, then delete leftward; at
/// the very end of the buffer, nothing.
pub open spec fn delete_forward(b: BufView) -> BufView {
    if b.col < b.cur_line().len() || b.row < b.lines.len() - 1 {
        b.move_right(true).delete_backward()
    } else {
        b
    }
}

/// What a key does to the buffer.
pub open spec fn key_effect(b: BufView, key: InputKey) -> BufView {
    match key {
        InputKey::Char(c) => b.apply_char(c),
        InputKey::Enter => b.apply_char('\n'),
        InputKey::Backspace => b.delete_backward(),
        InputKey::Delete => delete_forward(b),
        InputKey::Left => b.move_left(),
        InputKey::Right => b.move_right(false),
        InputKey::Up => b.move_up(),
        InputKey::Down => b.move_down(),
        InputKey::Submit => b,
        InputKey::Interrupt => b,
        InputKey::Other => b,
    }
}

/// What the loop does on a key: only the interrupt chord exits, only the
/// submit chord evaluates.
pub open spec fn action_of(key: InputKey) -> LoopAction {
    match key {
        InputKey::Submit => LoopAction::Submit,
        InputKey::Interrupt => LoopAction::Exit,
        _ => LoopAction::Continue,
    }
}

/// Apply one key while editing: the buffer changes exactly as
/// [`key_effect`] says, and the returned action is [`action_of`] the key.
pub fn handle_key(cmd: &mut Command, key: InputKey) -> (r: LoopAction)
    requires
        old(cmd)@.wf(),
        key matches InputKey::Char(_) ==> old(cmd)@.cur_line().len() < usize::MAX,
    ensures
        final(cmd)@ == key_effect(old(cmd)@, key),
        final(cmd)@.wf(),
        r == action_of(key),
{
    match key {
        InputKey::Char(c) => {
            cmd.add_char(c);
            LoopAction::Continue
        },
        InputKey::Enter => {
            cmd.add_char('\n');
            LoopAction::Continue
        },
        InputKey::Backspace => {
            cmd.remove_char();
            LoopAction::Continue
        },
        InputKey::Delete => {
            if cmd.right(true) {
                cmd.remove_char();
            }
            LoopAction::Continue
        },
        InputKey::Left => {
            cmd.left();
            LoopAction::Continue
        },
        InputKey::Right => {
            cmd.right(false);
            LoopAction::Continue
        },
        InputKey::Up => {
            cmd.up();
            LoopAction::Continue
        },
        InputKey::Down => {
            cmd.down();
            LoopAction::Continue
        },
        InputKey::Submit => LoopAction::Submit,
        InputKey::Interrupt => LoopAction::Exit,
        InputKey::Other => LoopAction::Continue,
    }
}

/// Leave the Submitted state: a successful evaluation discards the buffer
/// for a fresh one; an error keeps it untouched for correction and only
/// asks for a redraw, the anchor having moved below the error text.
pub fn finish_evaluation(cmd: &mut Command, success: bool)
    requires
        old(cmd)@.wf(),
    ensures
        success ==> final(cmd)@.lines =~= seq![Seq::<char>::empty()] && final(cmd)@.col == 0
            && final(cmd)@.row == 0,
        !success ==> final(cmd)@ == old(cmd)@,
        final(cmd)@.wf(),
        final(cmd).redraw,
{
    if success {
        *cmd = Command::new();
    } else {
        cmd.mark_dirty();
    }
}

} // verus!
