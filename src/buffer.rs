//! A document together with its selections and the column memory of
//! vertical moves.
use crate::lines::{
    column, content_len, lemma_line_extent, lemma_offset_in_line, line_count, line_of, line_start,
};
use crate::rope::rope_chars;
use ropey::Rope;
use vstd::prelude::*;

verus! {

/// A half-open range of character offsets.
#[derive(Clone, Copy, Debug, PartialEq, Eq, Structural)]
pub struct Selection {
    pub start: usize,
    pub end: usize,
}

/// A selection fits a document of `n` characters: it is not inverted, it
/// starts within the document, and its width can be added to any offset of
/// the document.
pub open spec fn selection_fits(sel: Selection, n: nat) -> bool {
    &&& sel.start <= sel.end
    &&& sel.start <= n
    &&& n + (sel.end - sel.start) <= usize::MAX
}

/// `sel` moved to start at `start`, its width kept.
pub open spec fn moved_to(sel: Selection, start: int) -> Selection {
    Selection { start: start as usize, end: (start + (sel.end - sel.start)) as usize }
}

/// Offset reached by a vertical move onto line `target` with the desired
/// column `col`: that column, or the end of the line's content where the
/// line is shorter.
pub open spec fn vertical_target(s: Seq<char>, target: nat, col: int) -> int {
    line_start(s, target) + if col < content_len(s, target) {
        col
    } else {
        content_len(s, target)
    }
}

/// The text, the selections (the first one is the root, which movements
/// act on) and the column that consecutive vertical moves aim for.
pub struct Buffer {
    pub data: Rope,
    pub selections: Vec<Selection>,
    pub scroll_col: Option<usize>,
}

impl Buffer {
    /// The characters of the document.
    pub open spec fn text(&self) -> Seq<char> {
        rope_chars(self.data)
    }

    /// The root selection.
    pub open spec fn root(&self) -> Selection {
        self.selections@[0]
    }

    pub open spec fn wf(&self) -> bool {
        &&& self.selections@.len() >= 1
        &&& selection_fits(self.root(), self.text().len())
    }

    /// The column that a vertical move aims for: the remembered one, else
    /// the root's current column.
    pub open spec fn desired_col(&self) -> int {
        match self.scroll_col {
            Some(c) => c as int,
            None => column(self.text(), self.root().start as int),
        }
    }

    /// The buffer after a vertical move of the root onto line `target`.
    pub open spec fn moved_vertically(&self, after: &Buffer, target: nat) -> bool {
        &&& after.data == self.data
        &&& after.selections@ == self.selections@.update(
            0,
            moved_to(self.root(), vertical_target(self.text(), target, self.desired_col())),
        )
        &&& after.scroll_col == Some(self.desired_col() as usize)
    }

    /// The buffer after a horizontal move of the root to `start`.
    pub open spec fn moved_horizontally(&self, after: &Buffer, start: int) -> bool {
        &&& after.data == self.data
        &&& after.selections@ == self.selections@.update(0, moved_to(self.root(), start))
        &&& after.scroll_col == Some(column(self.text(), start) as usize)
    }

    /// `after` is this buffer after `select_char_down`.
    pub open spec fn stepped_down(&self, after: &Buffer) -> bool {
        let l = line_of(self.text(), self.root().start as int);
        if l + 1 < line_count(self.text()) {
            self.moved_vertically(after, l + 1)
        } else {
            *after == *self
        }
    }

    /// `after` is this buffer after `select_char_up`.
    pub open spec fn stepped_up(&self, after: &Buffer) -> bool {
        let l = line_of(self.text(), self.root().start as int);
        if l > 0 {
            self.moved_vertically(after, (l - 1) as nat)
        } else {
            *after == *self
        }
    }

    /// `after` is this buffer after `select_char_left`.
    pub open spec fn stepped_left(&self, after: &Buffer) -> bool {
        if self.root().start > 0 {
            self.moved_horizontally(after, self.root().start - 1)
        } else {
            *after == *self
        }
    }

    /// `after` is this buffer after `select_char_right`.
    pub open spec fn stepped_right(&self, after: &Buffer) -> bool {
        if self.root().end < self.text().len() {
            self.moved_horizontally(after, self.root().start + 1)
        } else {
            *after == *self
        }
    }

    /// A buffer over `data` with the single selection `[0, 1)`.
    pub fn new(data: String) -> (b: Buffer)
        requires
            data@.len() < usize::MAX,
        ensures
            b.wf(),
            b.text() == data@,
            b.selections@ == seq![Selection { start: 0, end: 1 }],
            b.scroll_col is None,
    {
        Buffer {
            data: Rope::from_str(data.as_str()),
            selections: vec![Selection { start: 0, end: 1 }],
            scroll_col: None,
        }
    }

    pub fn len_lines(&mut self) -> (n: usize)
        ensures
            *final(self) == *old(self),
            n == line_count(old(self).text()),
    {
        self.data.len_lines()
    }

    /// The root selection.
    pub fn get_root_selection(&self) -> (sel: Selection)
        requires
            self.selections@.len() >= 1,
        ensures
            sel == self.root(),
    {
        self.selections[0]
    }

    /// The line that holds the start of the root selection.
    pub fn get_root_selection_line(&self) -> (l: usize)
        requires
            self.wf(),
        ensures
            l == line_of(self.text(), self.root().start as int),
            l < line_count(self.text()),
    {
        proof {
            lemma_offset_in_line(self.text(), self.root().start as int);
        }
        self.data.char_to_line(self.selections[0].start)
    }

    /// The column of the start of the root selection.
    pub fn get_root_selection_col(&self) -> (c: usize)
        requires
            self.wf(),
        ensures
            c == column(self.text(), self.root().start as int),
    {
        let selection = self.get_root_selection();
        let line_idx = self.get_root_selection_line();
        let line_pos = self.data.line_to_char(line_idx);
        proof {
            lemma_offset_in_line(self.text(), selection.start as int);
        }
        selection.start - line_pos
    }

    /// The column to aim for, remembered from now on.
    fn remember_col(&mut self) -> (c: usize)
        requires
            old(self).wf(),
        ensures
            c == old(self).desired_col(),
            final(self).scroll_col == Some(c),
            final(self).data == old(self).data,
            final(self).selections == old(self).selections,
    {
        match self.scroll_col {
            Some(col) => col,
            None => {
                let col = self.get_root_selection_col();
                self.scroll_col = Some(col);
                col
            },
        }
    }

    /// Moves the root onto line `target` at the column aimed for.
    fn move_to_line(&mut self, target: usize)
        requires
            old(self).wf(),
            target < line_count(old(self).text()),
        ensures
            final(self).wf(),
            old(self).moved_vertically(final(self), target as nat),
    {
        let ghost s = self.text();
        let selection = self.get_root_selection();
        let col = self.remember_col();
        let n_lines = self.data.len_lines();
        let line_char_idx = self.data.line_to_char(target);
        let next_line_char_idx = self.data.line_to_char(target + 1);
        proof {
            lemma_line_extent(s, target as nat);
        }
        let line_len = if target + 1 < n_lines {
            next_line_char_idx - 1 - line_char_idx
        } else {
            next_line_char_idx - line_char_idx
        };
        let new_start_pos = if col < line_len {
            line_char_idx + col
        } else {
            line_char_idx + line_len
        };
        self.selections.set(
            0,
            Selection {
                start: new_start_pos,
                end: new_start_pos + (selection.end - selection.start),
            },
        );
    }

    /// Moves the root one line down, to the column aimed for (or the end
    /// of a shorter line), keeping its width; nothing happens on the last
    /// line.
    pub fn select_char_down(&mut self)
        requires
            old(self).wf(),
        ensures
            final(self).wf(),
            old(self).stepped_down(final(self)),
    {
        let selection_line_idx = self.get_root_selection_line();
        let n_lines = self.data.len_lines();
        if selection_line_idx + 1 < n_lines {
            self.move_to_line(selection_line_idx + 1);
        }
    }

    /// Moves the root one line up, to the column aimed for (or the end of a
    /// shorter line), keeping its width; nothing happens on the first line.
    pub fn select_char_up(&mut self)
        requires
            old(self).wf(),
        ensures
            final(self).wf(),
            old(self).stepped_up(final(self)),
    {
        let selection_line_idx = self.get_root_selection_line();
        if selection_line_idx > 0 {
            self.move_to_line(selection_line_idx - 1);
        }
    }

    /// Moves the root one character left and remembers its new column;
    /// nothing happens at the start of the document.
    pub fn select_char_left(&mut self)
        requires
            old(self).wf(),
        ensures
            final(self).wf(),
            old(self).stepped_left(final(self)),
    {
        let selection = self.get_root_selection();
        if selection.start > 0 && selection.end > 0 {
            self.selections.set(
                0,
                Selection { start: selection.start - 1, end: selection.end - 1 },
            );
            let col = self.get_root_selection_col();
            self.scroll_col = Some(col);
        }
    }

    /// Moves the root one character right and remembers its new column;
    /// nothing happens once it reaches the end of the document.
    pub fn select_char_right(&mut self)
        requires
            old(self).wf(),
        ensures
            final(self).wf(),
            old(self).stepped_right(final(self)),
    {
        let selection = self.get_root_selection();
        if selection.end < self.data.len_chars() {
            self.selections.set(
                0,
                Selection { start: selection.start + 1, end: selection.end + 1 },
            );
            let col = self.get_root_selection_col();
            self.scroll_col = Some(col);
        }
    }
}

/// Moving the root right and then left gives back its range, unless it
/// already reached the end of the document.
pub proof fn lemma_right_then_left(b0: Buffer, b1: Buffer, b2: Buffer)
    requires
        b0.wf(),
        b0.root().end < b0.text().len(),
        b0.stepped_right(&b1),
        b1.stepped_left(&b2),
    ensures
        b2.root() == b0.root(),
        b2.selections@ == b0.selections@,
        b2.text() == b0.text(),
{
    assert(b2.selections@ =~= b0.selections@);
}

/// A move down followed by a move up, from any line but the last, leaves
/// the column memory at the column aimed for before. Where that column is
/// the root's own and the line below is at least as long as the root's
/// line (as in a document whose lines all have one length), the root is
/// back where it was.
pub proof fn lemma_down_then_up(b0: Buffer, b1: Buffer, b2: Buffer)
    requires
        b0.wf(),
        line_of(b0.text(), b0.root().start as int) + 1 < line_count(b0.text()),
        b0.stepped_down(&b1),
        b1.stepped_up(&b2),
    ensures
        b2.scroll_col == Some(b0.desired_col() as usize),
        ({
            let s = b0.text();
            let l = line_of(s, b0.root().start as int);
            b0.desired_col() == column(s, b0.root().start as int) && content_len(s, l)
                <= content_len(s, l + 1) ==> b2.selections@ == b0.selections@
        }),
{
    let s = b0.text();
    let start = b0.root().start as int;
    let l = line_of(s, start);
    lemma_offset_in_line(s, start);
    lemma_line_extent(s, l);
    lemma_line_extent(s, l + 1);
    let p = vertical_target(s, l + 1, b0.desired_col());
    assert(b1.root().start == p);
    assert(line_of(s, p) == l + 1);
    assert(0 <= b0.desired_col() <= usize::MAX);
    assert(b1.desired_col() == b0.desired_col());
    if b0.desired_col() == column(s, start) && content_len(s, l) <= content_len(s, l + 1) {
        assert(vertical_target(s, l, b1.desired_col()) == start);
        assert(b2.selections@ =~= b0.selections@);
    }
}

} // verus!
