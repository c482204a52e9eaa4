//! The viewport: the first visible line, kept in step with the root
//! selection, and the translation of document offsets to grid points.
use crate::buffer::{vertical_target, Buffer};
use crate::display::Point;
use crate::lines::{
    column, lemma_line_extent, lemma_line_of_mono, lemma_offset_in_line, line_count, line_of,
};
use crate::rope::rope_chars;
use ropey::Rope;
use vstd::prelude::*;

verus! {

/// The largest first line for a document of `total` lines on a pane
/// `height` rows high, one of which is the command line: the one that
/// shows the last line on the last text row.
pub open spec fn max_top(total: nat, height: nat) -> nat {
    if total + 1 > height {
        (total + 1 - height) as nat
    } else {
        0
    }
}

/// Line `line` is on screen below first line `top`: the pane shows
/// `height - 1` lines.
pub open spec fn is_visible(top: nat, height: nat, line: nat) -> bool {
    top <= line && line + 2 <= top + height
}

/// The first line after reconciling with the selection's line: the least
/// scroll that brings the line on screen, kept within the document.
pub open spec fn reconciled_top(top: nat, selection_line: nat, total: nat, height: nat) -> nat {
    let t = if selection_line < top {
        selection_line
    } else if selection_line + 2 > top + height {
        (selection_line + 2 - height) as nat
    } else {
        top
    };
    if t > max_top(total, height) {
        max_top(total, height)
    } else {
        t
    }
}

/// `v1` and `b1` are `v0` and `b0` after `scroll_up` on a pane `height`
/// rows high.
pub open spec fn scrolled_up(v0: Viewport, b0: Buffer, v1: Viewport, b1: Buffer, height: nat) -> bool {
    let line = line_of(b0.text(), b0.root().start as int);
    &&& v1.top == (if v0.top > 0 {
        v0.top - 1
    } else {
        0
    })
    &&& if v0.top > 0 && line + 2 >= v0.top + height {
        b0.stepped_up(&b1)
    } else {
        b1 == b0
    }
}

/// `v1` and `b1` are `v0` and `b0` after `scroll_down` on a pane `height`
/// rows high.
pub open spec fn scrolled_down(v0: Viewport, b0: Buffer, v1: Viewport, b1: Buffer, height: nat) -> bool {
    let total = line_count(b0.text());
    let line = line_of(b0.text(), b0.root().start as int);
    let moves = v0.top < max_top(total, height);
    &&& v1.top == (if moves {
        v0.top + 1
    } else {
        v0.top as int
    })
    &&& if moves && line <= v0.top {
        b0.stepped_down(&b1)
    } else {
        b1 == b0
    }
}

/// The first visible line of the document.
#[derive(Clone, Copy, Debug, PartialEq, Eq, Structural)]
pub struct Viewport {
    pub top: usize,
}

impl Viewport {
    /// A viewport on the first line.
    pub fn new() -> (v: Viewport)
        ensures
            v.top == 0,
    {
        Viewport { top: 0 }
    }

    /// Scrolls as little as brings `selection_line` on screen, keeping the
    /// first line within `[0, max(0, total_lines + 1 - height)]`.
    pub fn reconcile(&mut self, selection_line: usize, total_lines: usize, height: usize)
        requires
            height >= 2,
        ensures
            final(self).top == reconciled_top(
                old(self).top as nat,
                selection_line as nat,
                total_lines as nat,
                height as nat,
            ),
    {
        let band = height - 2;
        if selection_line < self.top {
            self.top = selection_line;
        } else if selection_line - self.top > band {
            self.top = selection_line - band;
        }
        let max_top = if total_lines >= height {
            total_lines - height + 1
        } else {
            0
        };
        if self.top > max_top {
            self.top = max_top;
        }
    }

    /// Scrolls up one line of a pane `height` rows high (a text row and the
    /// command row at least), unless on the first line. A root selection on
    /// the last visible line would leave the screen, so it moves up a line.
    pub fn scroll_up(&mut self, buffer: &mut Buffer, height: usize)
        requires
            old(buffer).wf(),
            height >= 2,
        ensures
            final(buffer).wf(),
            scrolled_up(*old(self), *old(buffer), *final(self), *final(buffer), height as nat),
    {
        if self.top > 0 {
            let line = buffer.get_root_selection_line();
            if line as u128 + 2 >= self.top as u128 + height as u128 {
                buffer.select_char_up();
            }
            self.top = self.top - 1;
        }
    }

    /// Scrolls down one line of a pane `height` rows high (a text row and
    /// the command row at least), unless the last page is already shown. A
    /// root selection on the first visible line would leave the screen, so
    /// it moves down a line.
    pub fn scroll_down(&mut self, buffer: &mut Buffer, height: usize)
        requires
            old(buffer).wf(),
            height >= 2,
        ensures
            final(buffer).wf(),
            scrolled_down(*old(self), *old(buffer), *final(self), *final(buffer), height as nat),
    {
        let total = buffer.len_lines();
        if (self.top as u128) + (height as u128) <= total as u128 {
            let line = buffer.get_root_selection_line();
            if line <= self.top {
                buffer.select_char_down();
            }
            self.top = self.top + 1;
        }
    }
}

/// After reconciling, the first line stays within
/// `[0, max(0, total_lines + 1 - height)]` (the last line may be shown on
/// the last text row, one row being left to the command line), and the
/// selection's line is on screen.
pub proof fn lemma_reconcile_shows_selection(top: nat, selection_line: nat, total: nat, height: nat)
    requires
        height >= 2,
        selection_line < total,
    ensures
        reconciled_top(top, selection_line, total, height) <= max_top(total, height),
        is_visible(reconciled_top(top, selection_line, total, height), height, selection_line),
{
}

/// Scrolling keeps a root selection that is on screen on screen: where
/// the scroll would leave it behind, it moves one line along.
pub proof fn lemma_scroll_keeps_selection_visible(
    v0: Viewport,
    b0: Buffer,
    v1: Viewport,
    b1: Buffer,
    height: nat,
    down: bool,
)
    requires
        b0.wf(),
        height >= 2,
        is_visible(v0.top as nat, height, line_of(b0.text(), b0.root().start as int)),
        down ==> scrolled_down(v0, b0, v1, b1, height),
        !down ==> scrolled_up(v0, b0, v1, b1, height),
    ensures
        is_visible(v1.top as nat, height, line_of(b1.text(), b1.root().start as int)),
{
    let s = b0.text();
    let line = line_of(s, b0.root().start as int);
    lemma_offset_in_line(s, b0.root().start as int);
    assert(0 <= b0.desired_col() <= usize::MAX) by {
        lemma_line_extent(s, line);
    }
    if down {
        if v0.top < max_top(line_count(s), height) && line <= v0.top {
            lemma_line_extent(s, line + 1);
            let p = vertical_target(s, line + 1, b0.desired_col());
            assert(b1.root().start == p);
        }
    } else {
        if v0.top > 0 && line + 2 >= v0.top + height {
            lemma_line_extent(s, (line - 1) as nat);
            let p = vertical_target(s, (line - 1) as nat, b0.desired_col());
            assert(b1.root().start == p);
        }
    }
}

/// Grid point of offset `i` on a window that starts at offset `offset`:
/// the row counted from the line of `offset`, the column from `offset` on
/// that line and from the start of the line below it.
pub open spec fn point_of(s: Seq<char>, offset: int, i: int) -> Point {
    Point {
        row: (line_of(s, i) - line_of(s, offset)) as usize,
        col: (if line_of(s, i) == line_of(s, offset) {
            i - offset
        } else {
            column(s, i)
        }) as usize,
    }
}

/// The grid points of the offsets `start` and `end` of `content`, on a
/// window that starts at `offset`: rows counted from the line of
/// `offset`, columns from `offset` on that line and from the start of
/// each line below it.
pub fn char_idxs_to_points(start: usize, end: usize, offset: usize, content: &Rope) -> (r: (
    Point,
    Point,
))
    requires
        offset <= start <= end <= rope_chars(*content).len(),
    ensures
        r.0 == point_of(rope_chars(*content), offset as int, start as int),
        r.1 == point_of(rope_chars(*content), offset as int, end as int),
{
    let ghost s = rope_chars(*content);
    proof {
        lemma_line_of_mono(s, offset as int, start as int);
        lemma_line_of_mono(s, offset as int, end as int);
        lemma_offset_in_line(s, start as int);
        lemma_offset_in_line(s, end as int);
    }
    let offset_row = content.char_to_line(offset);
    let start_row = content.char_to_line(start);
    let end_row = content.char_to_line(end);
    let start_col = if start_row == offset_row {
        start - offset
    } else {
        start - content.line_to_char(start_row)
    };
    let end_col = if end_row == offset_row {
        end - offset
    } else {
        end - content.line_to_char(end_row)
    };
    (
        Point { row: start_row - offset_row, col: start_col },
        Point { row: end_row - offset_row, col: end_col },
    )
}

} // verus!
