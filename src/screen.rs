//! Where the terminal cursor stands, and the operations that move it as
//! characters are echoed and modes change.
use crate::editor::Modes;
use vstd::prelude::*;

verus! {

/// A cursor position, one-based as the terminal counts.
#[derive(Clone, Copy, Debug, PartialEq, Eq, Structural)]
pub struct CursorPosition {
    pub row: u16,
    pub col: u16,
}

/// An operation on the terminal.
#[derive(Clone, Copy, Debug, PartialEq, Eq, Structural)]
pub enum ScreenOp {
    /// Clear the line under the cursor.
    ClearLine,
    /// Move the cursor.
    Goto(CursorPosition),
    /// Write a character at the cursor.
    Write(char),
}

/// One more than `x`, kept at the largest value.
pub open spec fn succ(x: u16) -> u16 {
    if x < u16::MAX {
        (x + 1) as u16
    } else {
        x
    }
}

/// The cursor after echoing `ch`: a line feed moves to the start of the
/// next row, anything else one column right.
pub open spec fn advanced(p: CursorPosition, ch: char) -> CursorPosition {
    if ch == '\n' {
        CursorPosition { row: succ(p.row), col: 1 }
    } else {
        CursorPosition { row: p.row, col: succ(p.col) }
    }
}

/// The cursor of the terminal, where it stood before the command line took
/// it, and the mode shown.
pub struct Screen {
    pub position: CursorPosition,
    pub last_position: CursorPosition,
    pub mode: Modes,
}

fn next(x: u16) -> (r: u16)
    ensures
        r == succ(x),
{
    if x < u16::MAX {
        x + 1
    } else {
        x
    }
}

impl Screen {
    /// The cursor at the top left corner, in normal mode.
    pub fn new() -> (s: Screen)
        ensures
            s.position == (CursorPosition { row: 1, col: 1 }),
            s.last_position == (CursorPosition { row: 1, col: 1 }),
            s.mode == Modes::Normal,
    {
        Screen {
            position: CursorPosition { row: 1, col: 1 },
            last_position: CursorPosition { row: 1, col: 1 },
            mode: Modes::Normal,
        }
    }

    /// Echoes `ch` at the cursor and moves the cursor past it.
    pub fn write_char(&mut self, ch: char) -> (ops: Vec<ScreenOp>)
        ensures
            final(self).position == advanced(old(self).position, ch),
            final(self).last_position == old(self).last_position,
            final(self).mode == old(self).mode,
            ops@ == seq![ScreenOp::Write(ch), ScreenOp::Goto(final(self).position)],
    {
        if ch == '\n' {
            self.position = CursorPosition { row: next(self.position.row), col: 1 };
        } else {
            self.position = CursorPosition { row: self.position.row, col: next(self.position.col) };
        }
        let ops = vec![ScreenOp::Write(ch), ScreenOp::Goto(self.position)];
        ops
    }

    /// Switches the screen to `mode`. Leaving command mode clears the
    /// command line and puts the cursor back; entering it saves the cursor
    /// and writes the prompt at the start of row `last_row`.
    pub fn change_mode(&mut self, mode: Modes, last_row: u16) -> (ops: Vec<ScreenOp>)
        ensures
            final(self).mode == mode,
            ({
                let back = if old(self).mode == Modes::Command {
                    old(self).last_position
                } else {
                    old(self).position
                };
                let leave = if old(self).mode == Modes::Command {
                    seq![ScreenOp::ClearLine, ScreenOp::Goto(back)]
                } else {
                    Seq::empty()
                };
                let prompt = CursorPosition { row: last_row, col: 1 };
                if mode == Modes::Command {
                    &&& final(self).last_position == back
                    &&& final(self).position == advanced(prompt, ':')
                    &&& ops@ == leave + seq![
                        ScreenOp::Goto(prompt),
                        ScreenOp::Write(':'),
                        ScreenOp::Goto(advanced(prompt, ':')),
                    ]
                } else {
                    &&& final(self).last_position == old(self).last_position
                    &&& final(self).position == back
                    &&& ops@ == leave
                }
            }),
    {
        let mut ops: Vec<ScreenOp> = Vec::new();
        if self.mode == Modes::Command {
            ops.push(ScreenOp::ClearLine);
            self.position = self.last_position;
            ops.push(ScreenOp::Goto(self.position));
        }
        if mode == Modes::Command {
            self.last_position = self.position;
            self.position = CursorPosition { row: last_row, col: 1 };
            ops.push(ScreenOp::Goto(self.position));
            let mut echo = self.write_char(':');
            ops.append(&mut echo);
        }
        self.mode = mode;
        ops
    }
}

} // verus!
