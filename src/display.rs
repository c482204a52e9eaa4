//! The display grid: styled cells laid out row by row, overlaid with style
//! spans and serialised to the characters written to the terminal.
use crate::strings::push_char;
use crate::style::{reset_bg, reset_bg_seq, reset_fg, reset_fg_seq};
use vstd::prelude::*;

verus! {

/// A position on the grid.
#[derive(Clone, Copy, Debug, PartialEq, Eq, Structural)]
pub struct Point {
    pub row: usize,
    pub col: usize,
}

/// The size of the grid, in cells.
#[derive(Clone, Copy, Debug, PartialEq, Eq, Structural)]
pub struct Rect {
    pub width: u16,
    pub height: u16,
}

/// One character cell with its foreground and background sequences.
pub struct Cell {
    pub char: char,
    pub fg: String,
    pub bg: String,
}

/// Where the `i`-th character of `t` goes on a grid `width` cells wide:
/// its cell index and its column. A line feed or a full row moves on to
/// the start of the next row.
pub open spec fn place(t: Seq<char>, width: nat, i: nat) -> (nat, nat)
    decreases i,
{
    if i == 0 {
        (0, 0)
    } else {
        let prev = place(t, width, (i - 1) as nat);
        if t[i - 1] == '\n' || prev.1 + 1 == width {
            ((prev.0 - prev.1 + width) as nat, 0)
        } else {
            (prev.0 + 1, prev.1 + 1)
        }
    }
}

/// The characters of a grid of `n` cells, `width` wide, once the first `k`
/// characters of `t` are laid out on a blank grid; a character whose cell
/// lies beyond the grid is dropped.
pub open spec fn glyphs(t: Seq<char>, width: nat, n: nat, k: nat) -> Seq<char>
    decreases k,
{
    if k == 0 {
        Seq::new(n, |i: int| ' ')
    } else {
        let g = glyphs(t, width, n, (k - 1) as nat);
        let p = place(t, width, (k - 1) as nat).0;
        if p < n {
            g.update(p as int, t[k - 1])
        } else {
            g
        }
    }
}

/// The characters of a grid of `n` cells, `width` wide, showing `t`.
pub open spec fn layout(t: Seq<char>, width: nat, n: nat) -> Seq<char> {
    glyphs(t, width, n, t.len())
}

/// Cell index of a point on a grid `width` wide.
pub open spec fn linear(p: Point, width: nat) -> int {
    p.row * width + p.col
}

/// The number of cells of a grid of this size.
pub open spec fn area(size: Rect) -> nat {
    size.width as nat * size.height as nat
}

/// Within a row, a cell lies left of the width; the cell index never
/// falls behind the column.
proof fn lemma_place_bounds(t: Seq<char>, width: nat, i: nat)
    requires
        width > 0,
    ensures
        place(t, width, i).1 < width,
        place(t, width, i).1 <= place(t, width, i).0,
    decreases i,
{
    if i > 0 {
        lemma_place_bounds(t, width, (i - 1) as nat);
    }
}

/// Cell indices grow along the text.
proof fn lemma_place_grows(t: Seq<char>, width: nat, i: nat, j: nat)
    requires
        width > 0,
        i <= j,
    ensures
        place(t, width, i).0 + (j - i) <= place(t, width, j).0,
    decreases j - i,
{
    if i < j {
        lemma_place_grows(t, width, i, (j - 1) as nat);
        lemma_place_bounds(t, width, (j - 1) as nat);
    }
}

/// A grid keeps its number of cells as text is laid out on it.
pub proof fn lemma_glyphs_len(t: Seq<char>, width: nat, n: nat, k: nat)
    ensures
        glyphs(t, width, n, k).len() == n,
    decreases k,
{
    if k > 0 {
        lemma_glyphs_len(t, width, n, (k - 1) as nat);
    }
}

/// Once a character falls beyond the grid, so do all that follow it.
proof fn lemma_glyphs_settled(t: Seq<char>, width: nat, n: nat, k: nat, j: nat)
    requires
        k <= j,
        width > 0 && n <= place(t, width, k).0 || n == 0,
    ensures
        glyphs(t, width, n, j) == glyphs(t, width, n, k),
    decreases j - k,
{
    if k < j {
        lemma_glyphs_settled(t, width, n, k, (j - 1) as nat);
        if width > 0 {
            lemma_place_grows(t, width, k, (j - 1) as nat);
        }
        assert(place(t, width, (j - 1) as nat).0 >= n);
        assert(glyphs(t, width, n, j) == glyphs(t, width, n, (j - 1) as nat));
    }
}

/// The characters written for cell `i` of a grid `width` wide: its
/// background, then its foreground, where they differ from the cell before
/// (the first cell is compared with the default colors); its character
/// unless it is a line feed; and a space, a carriage return and a line feed
/// after the last cell of each row.
pub open spec fn cell_text(cells: Seq<Cell>, width: nat, i: int) -> Seq<char> {
    let c = cells[i];
    let prev_fg = if i == 0 {
        reset_fg_seq()
    } else {
        cells[i - 1].fg@
    };
    let prev_bg = if i == 0 {
        reset_bg_seq()
    } else {
        cells[i - 1].bg@
    };
    (if c.bg@ != prev_bg {
        c.bg@
    } else {
        Seq::empty()
    }) + (if c.fg@ != prev_fg {
        c.fg@
    } else {
        Seq::empty()
    }) + (if c.char != '\n' {
        seq![c.char]
    } else {
        Seq::empty()
    }) + (if ends_row(width, cells.len(), i) {
        seq![' ', '\r', '\n']
    } else {
        Seq::empty()
    })
}

/// Cell `i` of `n` is the last of its row on a grid `width` wide.
pub open spec fn ends_row(width: nat, n: nat, i: int) -> bool {
    (width > 0 && (i + 1) % (width as int) == 0) || i + 1 == n
}

/// What the first `k` cells write.
pub open spec fn frame_upto(cells: Seq<Cell>, width: nat, k: nat) -> Seq<char>
    decreases k,
{
    if k == 0 {
        Seq::empty()
    } else {
        frame_upto(cells, width, (k - 1) as nat) + cell_text(cells, width, k - 1)
    }
}

/// What a grid `width` wide writes to the terminal.
pub open spec fn frame(cells: Seq<Cell>, width: nat) -> Seq<char> {
    frame_upto(cells, width, cells.len())
}

/// Two grids that agree on every cell's character and style sequences
/// write the same characters; so serialising a grid that has not changed
/// gives the same output again.
pub proof fn lemma_frame_depends_on_cells(a: Seq<Cell>, b: Seq<Cell>, width: nat)
    requires
        a.len() == b.len(),
        forall|i: int|
            0 <= i < a.len() ==> {
                &&& (#[trigger] a[i]).char == b[i].char
                &&& a[i].fg@ == b[i].fg@
                &&& a[i].bg@ == b[i].bg@
            },
    ensures
        frame(a, width) == frame(b, width),
{
    lemma_frame_upto_depends_on_cells(a, b, width, a.len());
}

proof fn lemma_frame_upto_depends_on_cells(a: Seq<Cell>, b: Seq<Cell>, width: nat, k: nat)
    requires
        a.len() == b.len(),
        k <= a.len(),
        forall|i: int|
            0 <= i < a.len() ==> {
                &&& (#[trigger] a[i]).char == b[i].char
                &&& a[i].fg@ == b[i].fg@
                &&& a[i].bg@ == b[i].bg@
            },
    ensures
        frame_upto(a, width, k) == frame_upto(b, width, k),
    decreases k,
{
    if k > 0 {
        lemma_frame_upto_depends_on_cells(a, b, width, (k - 1) as nat);
        let i = k - 1;
        assert(a[i].char == b[i].char);
        if i > 0 {
            assert(a[i - 1].char == b[i - 1].char);
        }
        assert(cell_text(a, width, i) == cell_text(b, width, i));
    }
}

/// Within a row of cells that keep the colors of the cell before, no
/// style sequence is written: the cell writes only its character and, at
/// the end of a row, the row's end.
pub proof fn lemma_run_writes_no_style(cells: Seq<Cell>, width: nat, i: int)
    requires
        0 < i < cells.len(),
        cells[i].fg@ == cells[i - 1].fg@,
        cells[i].bg@ == cells[i - 1].bg@,
    ensures
        cell_text(cells, width, i) == (if cells[i].char != '\n' {
            seq![cells[i].char]
        } else {
            Seq::<char>::empty()
        }) + (if ends_row(width, cells.len(), i) {
            seq![' ', '\r', '\n']
        } else {
            Seq::<char>::empty()
        }),
{
    assert(Seq::<char>::empty() + Seq::<char>::empty() + (if cells[i].char != '\n' {
        seq![cells[i].char]
    } else {
        Seq::<char>::empty()
    }) =~= (if cells[i].char != '\n' {
        seq![cells[i].char]
    } else {
        Seq::<char>::empty()
    }));
}

impl Cell {
    /// A cell that shows `char` in the terminal's default colors.
    pub fn new(char: char) -> (c: Cell)
        ensures
            c.char == char,
            c.fg@ == reset_fg_seq(),
            c.bg@ == reset_bg_seq(),
    {
        Cell { char: char, fg: reset_fg(), bg: reset_bg() }
    }
}

/// A grid of `width * height` cells and the size it was made for.
pub struct Display {
    pub content: Vec<Cell>,
    pub size: Rect,
}

impl Display {
    /// All cells are blank and in the default colors.
    pub open spec fn is_blank_styled(&self) -> bool {
        forall|i: int|
            0 <= i < self.content@.len() ==> {
                &&& (#[trigger] self.content@[i]).fg@ == reset_fg_seq()
                &&& self.content@[i].bg@ == reset_bg_seq()
            }
    }

    /// The grid shows `t` in the default colors.
    pub open spec fn shows(&self, t: Seq<char>) -> bool {
        let n = area(self.size);
        &&& self.content@.len() == n
        &&& self.is_blank_styled()
        &&& forall|i: int|
            0 <= i < n ==> (#[trigger] self.content@[i]).char == layout(
                t,
                self.size.width as nat,
                n,
            )[i]
    }

    /// `after` is this grid with `fg` and `bg`, where given, applied to the
    /// cells from `start` up to `end`.
    pub open spec fn overlaid(
        &self,
        after: &Display,
        start: Point,
        end: Point,
        fg: Option<Seq<char>>,
        bg: Option<Seq<char>>,
    ) -> bool {
        &&& after.size == self.size
        &&& after.content@.len() == self.content@.len()
        &&& forall|i: int|
            0 <= i < self.content@.len() ==> {
                let c = #[trigger] after.content@[i];
                let o = self.content@[i];
                let w = self.size.width as nat;
                let inside = linear(start, w) <= i < linear(end, w);
                &&& c.char == o.char
                &&& c.fg@ == (if inside && fg is Some {
                    fg.unwrap()
                } else {
                    o.fg@
                })
                &&& c.bg@ == (if inside && bg is Some {
                    bg.unwrap()
                } else {
                    o.bg@
                })
            }
    }

    /// A grid of the given size showing `content`.
    pub fn new(size: Rect, content: &String) -> (d: Display)
        ensures
            d.size == size,
            d.shows(content@),
    {
        let mut display = Display { content: vec![], size: size };
        display.set_content(content);
        display
    }

    /// Blanks the grid: `width * height` spaces in the default colors.
    pub fn empty(&mut self)
        ensures
            final(self).size == old(self).size,
            final(self).shows(Seq::empty()),
    {
        let w = self.size.width as usize;
        let h = self.size.height as usize;
        assert(w * h <= 0xffff * 0xffff) by (nonlinear_arith)
            requires
                w <= 0xffff,
                h <= 0xffff,
        ;
        let n = w * h;
        let mut content: Vec<Cell> = Vec::new();
        while content.len() < n
            invariant
                content@.len() <= n,
                forall|i: int|
                    0 <= i < content@.len() ==> {
                        &&& (#[trigger] content@[i]).char == ' '
                        &&& content@[i].fg@ == reset_fg_seq()
                        &&& content@[i].bg@ == reset_bg_seq()
                    },
            decreases n - content@.len(),
        {
            content.push(Cell::new(' '));
        }
        self.content = content;
        assert(layout(Seq::empty(), w as nat, n as nat) == Seq::new(n as nat, |i: int| ' '));
    }

    /// Lays `content` out on the blanked grid, row by row: a line feed or a
    /// full row moves on to the next row, and what does not fit is dropped.
    pub fn set_content(&mut self, content: &String)
        ensures
            final(self).size == old(self).size,
            final(self).shows(content@),
    {
        self.empty();
        let ghost t = content@;
        let ghost n = self.content@.len();
        let ghost w = self.size.width as nat;
        let ghost size0 = self.size;
        let width = self.size.width as usize;
        let mut pos: usize = 0;
        let mut col: usize = 0;
        assert(area(self.size) <= 0xffff * 0xffff) by (nonlinear_arith)
            requires
                self.size.width <= 0xffff,
                self.size.height <= 0xffff,
        ;
        assert(w == 0 ==> n == 0) by (nonlinear_arith)
            requires
                n == w * size0.height,
        ;
        proof {
            broadcast use vstd::string::axiom_spec_iter;
        }
        let ghost mut settled_at: nat = 0;
        for ch in it: content.chars()
            invariant
                it.seq() == t,
                self.size == size0,
                size0 == old(self).size,
                n == area(size0),
                n <= 0xffff * 0xffff,
                w == 0 ==> n == 0,
                w == size0.width,
                width == w,
                self.content@.len() == n,
                self.is_blank_styled(),
                it.index() <= t.len(),
                pos < n ==> (pos as nat, col as nat) == place(t, w, it.index() as nat),
                pos >= n ==> settled_at <= it.index() && (w > 0 && n <= place(
                    t,
                    w,
                    settled_at,
                ).0 || n == 0),
                forall|i: int|
                    0 <= i < n ==> (#[trigger] self.content@[i]).char == glyphs(
                        t,
                        w,
                        n,
                        it.index() as nat,
                    )[i],
        {
            let ghost k = it.index() as nat;
            proof {
                lemma_glyphs_len(t, w, n, k);
                lemma_glyphs_len(t, w, n, k + 1);
            }
            if pos < self.content.len() {
                assert(ch == t[k as int]);
                assert(glyphs(t, w, n, k + 1) == glyphs(t, w, n, k).update(pos as int, ch));
                let ghost before = self.content@;
                self.content[pos].char = ch;
                assert forall|i: int|
                    0 <= i < n implies (#[trigger] self.content@[i]).char == glyphs(
                    t,
                    w,
                    n,
                    k + 1,
                )[i] by {
                    if i != pos {
                        assert(self.content@[i] == before[i]);
                    }
                }
                proof {
                    lemma_place_bounds(t, w, k);
                    assert(0xffff * 0xffff + 0xffff <= usize::MAX);
                }
                if ch == '\n' || col + 1 == width {
                    pos = pos - col + width;
                    col = 0;
                } else {
                    pos = pos + 1;
                    col = col + 1;
                }
                proof {
                    settled_at = k + 1;
                }
            } else {
                proof {
                    lemma_glyphs_settled(t, w, n, settled_at, k);
                    lemma_glyphs_settled(t, w, n, settled_at, k + 1);
                }
            }
        }
    }

    /// The characters that draw the grid, row by row: style sequences only
    /// where the colors change, and each row closed by a space, a carriage
    /// return and a line feed.
    pub fn rendered(&self) -> (r: String)
        ensures
            r@ == frame(self.content@, self.size.width as nat),
    {
        let mut rendered = String::new();
        let reset_f = reset_fg();
        let reset_b = reset_bg();
        let width = self.size.width as usize;
        let n = self.content.len();
        let mut col: usize = 0;
        let mut i: usize = 0;
        while i < n
            invariant
                n == self.content@.len(),
                width == self.size.width,
                reset_f@ == reset_fg_seq(),
                reset_b@ == reset_bg_seq(),
                i <= n,
                col <= i,
                width > 0 ==> col as int == (i as int) % (width as int),
                rendered@ == frame_upto(self.content@, width as nat, i as nat),
            decreases n - i,
        {
            proof {
                if width > 0 {
                    lemma_next_col(i as int, width as int, col as int);
                }
            }
            let row_end = col + 1 == width || i + 1 == n;
            self.write_cell(&mut rendered, i, row_end, &reset_f, &reset_b);
            if width > 0 && col + 1 == width {
                col = 0;
            } else {
                col = col + 1;
            }
            i = i + 1;
        }
        rendered
    }

    /// Appends what cell `i` writes.
    fn write_cell(
        &self,
        rendered: &mut String,
        i: usize,
        row_end: bool,
        reset_f: &String,
        reset_b: &String,
    )
        requires
            i < self.content@.len(),
            row_end == ends_row(self.size.width as nat, self.content@.len(), i as int),
            reset_f@ == reset_fg_seq(),
            reset_b@ == reset_bg_seq(),
        ensures
            final(rendered)@ == old(rendered)@ + cell_text(
                self.content@,
                self.size.width as nat,
                i as int,
            ),
    {
        let cell = &self.content[i];
        let prev_fg = if i == 0 {
            reset_f
        } else {
            &self.content[i - 1].fg
        };
        let prev_bg = if i == 0 {
            reset_b
        } else {
            &self.content[i - 1].bg
        };
        let ghost before = rendered@;
        let ghost bg_part = if cell.bg@ != prev_bg@ {
            cell.bg@
        } else {
            Seq::empty()
        };
        let ghost fg_part = if cell.fg@ != prev_fg@ {
            cell.fg@
        } else {
            Seq::empty()
        };
        let ghost glyph = if cell.char != '\n' {
            seq![cell.char]
        } else {
            Seq::empty()
        };
        if !prev_bg.eq(&cell.bg) {
            rendered.append(cell.bg.as_str());
        }
        assert(rendered@ =~= before + bg_part);
        if !prev_fg.eq(&cell.fg) {
            rendered.append(cell.fg.as_str());
        }
        assert(rendered@ =~= before + bg_part + fg_part);
        if cell.char != '\n' {
            push_char(rendered, cell.char);
        }
        assert(rendered@ =~= before + bg_part + fg_part + glyph);
        let ghost mid = rendered@;
        if row_end {
            push_char(rendered, ' ');
            push_char(rendered, '\r');
            push_char(rendered, '\n');
            assert(rendered@ =~= mid + seq![' ', '\r', '\n']);
        } else {
            assert(rendered@ =~= mid + Seq::<char>::empty());
        }
        assert(rendered@ =~= before + cell_text(self.content@, self.size.width as nat, i as int));
    }

    /// Applies `fg` and `bg`, where given, to the cells from `start` up to
    /// `end`, counted row by row; cells past the grid are left out.
    pub fn highlight(&mut self, start: Point, end: Point, fg: Option<&String>, bg: Option<&String>)
        ensures
            old(self).overlaid(final(self), start, end, style_of(fg), style_of(bg)),
    {
        let n = self.content.len();
        let start_idx = clipped_index(start, self.size.width, n);
        let end_idx = clipped_index(end, self.size.width, n);
        let ghost old_content = self.content@;
        let ghost size0 = self.size;
        let mut i = start_idx;
        while i < end_idx
            invariant
                fg is Some ==> style_of(fg) == Some(fg.unwrap()@),
                bg is Some ==> style_of(bg) == Some(bg.unwrap()@),
                self.size == size0,
                size0 == old(self).size,
                i <= end_idx || i == start_idx,
                start_idx <= i <= n,
                end_idx <= n,
                start_idx == (if linear(start, self.size.width as nat) < n {
                    linear(start, self.size.width as nat)
                } else {
                    n as int
                }),
                end_idx == (if linear(end, self.size.width as nat) < n {
                    linear(end, self.size.width as nat)
                } else {
                    n as int
                }),
                self.content@.len() == n,
                old_content.len() == n,
                forall|j: int|
                    0 <= j < n ==> {
                        let c = #[trigger] self.content@[j];
                        let o = old_content[j];
                        let done = start_idx <= j < i;
                        &&& c.char == o.char
                        &&& c.fg@ == (if done && fg is Some {
                            fg.unwrap()@
                        } else {
                            o.fg@
                        })
                        &&& c.bg@ == (if done && bg is Some {
                            bg.unwrap()@
                        } else {
                            o.bg@
                        })
                    },
            decreases end_idx - i,
        {
            if let Some(color) = fg {
                self.content[i].fg = color.clone();
            }
            if let Some(color) = bg {
                self.content[i].bg = color.clone();
            }
            i = i + 1;
        }
        assert forall|j: int| 0 <= j < n implies #[trigger] self.content@[j] == self.content@[j] && (
        start_idx <= j < i) == (linear(start, size0.width as nat) <= j < linear(
            end,
            size0.width as nat,
        )) by {}
    }
}

proof fn lemma_next_col(i: int, w: int, col: int)
    requires
        0 <= i,
        0 < w,
        col == i % w,
    ensures
        col + 1 == w <==> (i + 1) % w == 0,
        col + 1 < w ==> (i + 1) % w == col + 1,
{
    assert(0 <= col < w) by (nonlinear_arith)
        requires
            0 < w,
            col == i % w,
    ;
    assert(i == (i / w) * w + col) by (nonlinear_arith)
        requires
            0 < w,
            col == i % w,
    ;
    if col + 1 == w {
        vstd::arithmetic::div_mod::lemma_mod_multiples_basic(i / w + 1, w);
        assert((i / w + 1) * w == i + 1) by (nonlinear_arith)
            requires
                i == (i / w) * w + col,
                col + 1 == w,
        ;
    } else {
        vstd::arithmetic::div_mod::lemma_mod_multiples_vanish(i / w, col + 1, w);
        vstd::arithmetic::div_mod::lemma_small_mod((col + 1) as nat, w as nat);
        assert((i / w) * w + (col + 1) == i + 1);
        assert(w * (i / w) == (i / w) * w) by (nonlinear_arith);
    }
}

/// The style sequence given, if any.
pub open spec fn style_of(s: Option<&String>) -> Option<Seq<char>> {
    match s {
        Some(x) => Some(x@),
        None => None,
    }
}

/// A background overlay (a selection) over cells that a foreground overlay
/// (syntax) colored before sets their background and keeps their
/// foreground.
pub proof fn lemma_selection_over_syntax(
    d0: Display,
    d1: Display,
    d2: Display,
    span_start: Point,
    span_end: Point,
    syntax: Seq<char>,
    sel_start: Point,
    sel_end: Point,
    selection: Seq<char>,
    i: int,
)
    requires
        d0.overlaid(&d1, span_start, span_end, Some(syntax), None),
        d1.overlaid(&d2, sel_start, sel_end, None, Some(selection)),
        0 <= i < d0.content@.len(),
        linear(span_start, d0.size.width as nat) <= i < linear(span_end, d0.size.width as nat),
        linear(sel_start, d0.size.width as nat) <= i < linear(sel_end, d0.size.width as nat),
    ensures
        d2.content@[i].fg@ == syntax,
        d2.content@[i].bg@ == selection,
        d2.content@[i].char == d0.content@[i].char,
{
    assert(d1.content@[i].fg@ == syntax);
    assert(d2.content@[i].bg@ == selection);
}

/// The cell index of `p` on a grid `width` wide, or `n` where it lies at
/// or past the `n`-th cell.
fn clipped_index(p: Point, width: u16, n: usize) -> (r: usize)
    ensures
        r == (if linear(p, width as nat) < n {
            linear(p, width as nat)
        } else {
            n as int
        }),
{
    let row = p.row as u128;
    let col = p.col as u128;
    let w = width as u128;
    assert(row * w + col <= 0xffff_ffff_ffff_ffff * 0xffff + 0xffff_ffff_ffff_ffff) by (nonlinear_arith)
        requires
            row <= 0xffff_ffff_ffff_ffff,
            col <= 0xffff_ffff_ffff_ffff,
            w <= 0xffff,
    ;
    let idx = row * w + col;
    if idx < n as u128 {
        idx as usize
    } else {
        n
    }
}

} // verus!
