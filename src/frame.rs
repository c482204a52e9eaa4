//! A frame: the visible window of the document laid out on a grid, colored
//! by syntax spans and marked by the selections.
use crate::buffer::{Buffer, Selection};
use crate::display::{linear, Display, Rect};
use crate::highlight::{span_view, syntax_spans, Highlight, Highlighter};
use crate::lines::{lemma_line_of_mono, line_count, line_start};
use crate::rope::{rope_chars, slice_text};
use crate::style::{bg_seq, reset_bg_seq, reset_fg_seq, selection_bg, Color};
use crate::viewport::{point_of, reconciled_top, Viewport};
use vstd::prelude::*;

verus! {

/// The last line (exclusive) of a window of `rows` lines from line `top`.
pub open spec fn window_end_line(s: Seq<char>, top: nat, rows: nat) -> nat {
    if top + rows < line_count(s) {
        top + rows
    } else {
        line_count(s)
    }
}

/// The character range of a window of `rows` lines from line `top`.
pub open spec fn window(s: Seq<char>, top: nat, rows: nat) -> (int, int) {
    (line_start(s, top), line_start(s, window_end_line(s, top, rows)))
}

/// The cell of offset `i` on a window that starts at offset `ws`.
pub open spec fn cell_of(s: Seq<char>, ws: int, i: int, width: nat) -> int {
    linear(point_of(s, ws, i), width)
}

/// A span can be drawn on a window that starts at offset `ws`.
pub open spec fn drawable(s: Seq<char>, ws: int, span: (int, int, Seq<char>)) -> bool {
    ws <= span.0 <= span.1 <= s.len()
}

/// The foreground of cell `c` once the first `k` spans are drawn: the
/// color of the last drawable span that covers it, else the default.
pub open spec fn fg_after(
    s: Seq<char>,
    ws: int,
    width: nat,
    spans: Seq<(int, int, Seq<char>)>,
    k: nat,
    c: int,
) -> Seq<char>
    decreases k,
{
    if k == 0 {
        reset_fg_seq()
    } else {
        let h = spans[k - 1];
        if drawable(s, ws, h) && cell_of(s, ws, h.0, width) <= c < cell_of(s, ws, h.1, width) {
            h.2
        } else {
            fg_after(s, ws, width, spans, (k - 1) as nat, c)
        }
    }
}

/// `x` brought into `[lo, hi]`.
pub open spec fn clamp(x: int, lo: int, hi: int) -> int {
    if x < lo {
        lo
    } else if x > hi {
        hi
    } else {
        x
    }
}

/// The part of a selection that a window from offset `ws` can mark: its
/// range brought within `[ws, len]`.
pub open spec fn marked_range(s: Seq<char>, ws: int, sel: Selection) -> (int, int) {
    let a = clamp(sel.start as int, ws, s.len() as int);
    (a, clamp(sel.end as int, a, s.len() as int))
}

/// Cell `c` is marked by one of the first `k` selections.
pub open spec fn marked(s: Seq<char>, ws: int, width: nat, sels: Seq<Selection>, k: nat, c: int) -> bool
    decreases k,
{
    if k == 0 {
        false
    } else {
        let r = marked_range(s, ws, sels[k - 1]);
        (cell_of(s, ws, r.0, width) <= c < cell_of(s, ws, r.1, width)) || marked(
            s,
            ws,
            width,
            sels,
            (k - 1) as nat,
            c,
        )
    }
}

/// `d` is the frame of `buffer` from line `top` on a grid of `size`, with
/// `spans` drawn: the window's text laid out, each cell in the color of
/// the last span over it and with the selection background where a
/// selection marks it.
pub open spec fn is_frame(
    d: &Display,
    buffer: &Buffer,
    top: nat,
    size: Rect,
    spans: Seq<(int, int, Seq<char>)>,
) -> bool {
    let s = buffer.text();
    let (ws, we) = window(s, top, size.height as nat);
    let w = size.width as nat;
    &&& d.size == size
    &&& d.content@.len() == size.width * size.height
    &&& forall|c: int|
        0 <= c < d.content@.len() ==> {
            &&& (#[trigger] d.content@[c]).char == crate::display::layout(
                s.subrange(ws, we),
                w,
                d.content@.len(),
            )[c]
            &&& d.content@[c].fg@ == fg_after(s, ws, w, spans, spans.len(), c)
            &&& d.content@[c].bg@ == (if marked(
                s,
                ws,
                w,
                buffer.selections@,
                buffer.selections@.len(),
                c,
            ) {
                bg_seq(Color::LightBlack)
            } else {
                reset_bg_seq()
            })
        }
}

/// The character range of the lines from `top` that fill `rows` rows.
pub fn visible_range(buffer: &Buffer, top: usize, rows: usize) -> (r: (usize, usize))
    requires
        top < line_count(buffer.text()),
    ensures
        r.0 == window(buffer.text(), top as nat, rows as nat).0,
        r.1 == window(buffer.text(), top as nat, rows as nat).1,
        r.0 <= r.1 <= buffer.text().len(),
{
    let ghost s = buffer.text();
    let total = buffer.data.len_lines();
    let last = if rows < total - top {
        top + rows
    } else {
        total
    };
    let start = buffer.data.line_to_char(top);
    let end = buffer.data.line_to_char(last);
    proof {
        crate::lines::lemma_line_start(s, top as nat);
        if last < total {
            crate::lines::lemma_line_start(s, last as nat);
            if line_start(s, last as nat) < line_start(s, top as nat) {
                lemma_line_of_mono(s, line_start(s, last as nat), line_start(s, top as nat));
            }
        }
    }
    (start, end)
}

/// Draws the window of `buffer` from line `top` on a grid of `size`: its
/// text, the drawable `highlights` as foreground colors, then each
/// selection, brought within the window, as the selection background.
pub fn compose(buffer: &Buffer, top: usize, size: Rect, highlights: &Vec<Highlight>) -> (d: Display)
    requires
        top < line_count(buffer.text()),
    ensures
        is_frame(&d, buffer, top as nat, size, highlights@.map_values(|h: Highlight| span_view(&h))),
{
    let ghost s = buffer.text();
    let ghost spans = highlights@.map_values(|h: Highlight| span_view(&h));
    let (ws, we) = visible_range(buffer, top, size.height as usize);
    let text = slice_text(&buffer.data, ws, we);
    let mut display = Display::new(size, &text);
    let ghost n = display.content@.len();
    let ghost w = size.width as nat;
    let ghost laid = crate::display::layout(s.subrange(ws as int, we as int), w, n);
    proof {
        crate::display::lemma_glyphs_len(s.subrange(ws as int, we as int), w, n, (we - ws) as nat);
    }
    let mut k: usize = 0;
    while k < highlights.len()
        invariant
            k <= highlights@.len(),
            spans == highlights@.map_values(|h: Highlight| span_view(&h)),
            display.size == size,
            display.content@.len() == n,
            n == size.width * size.height,
            ws == window(s, top as nat, size.height as nat).0,
            ws <= s.len(),
            s == rope_chars(buffer.data),
            laid.len() == n,
            w == size.width,
            forall|c: int|
                0 <= c < n ==> {
                    &&& (#[trigger] display.content@[c]).char == laid[c]
                    &&& display.content@[c].fg@ == fg_after(s, ws as int, w, spans, k as nat, c)
                    &&& display.content@[c].bg@ == reset_bg_seq()
                },
        decreases highlights@.len() - k,
    {
        let h = &highlights[k];
        assert(spans[k as int] == span_view(h));
        if ws <= h.start && h.start <= h.end && h.end <= buffer.data.len_chars() {
            let (start_point, end_point) = crate::viewport::char_idxs_to_points(
                h.start,
                h.end,
                ws,
                &buffer.data,
            );
            display.highlight(start_point, end_point, Some(&h.color), None);
        }
        assert forall|c: int| 0 <= c < n implies #[trigger] display.content@[c].fg@ == fg_after(
            s,
            ws as int,
            w,
            spans,
            (k + 1) as nat,
            c,
        ) by {}
        k = k + 1;
    }
    let sel_bg = selection_bg();
    let len = buffer.data.len_chars();
    let mut j: usize = 0;
    while j < buffer.selections.len()
        invariant
            j <= buffer.selections@.len(),
            spans == highlights@.map_values(|h: Highlight| span_view(&h)),
            spans.len() == highlights@.len(),
            display.size == size,
            display.content@.len() == n,
            n == size.width * size.height,
            ws == window(s, top as nat, size.height as nat).0,
            ws <= len,
            len == s.len(),
            s == rope_chars(buffer.data),
            laid.len() == n,
            w == size.width,
            sel_bg@ == bg_seq(Color::LightBlack),
            forall|c: int|
                0 <= c < n ==> {
                    &&& (#[trigger] display.content@[c]).char == laid[c]
                    &&& display.content@[c].fg@ == fg_after(
                        s,
                        ws as int,
                        w,
                        spans,
                        spans.len(),
                        c,
                    )
                    &&& display.content@[c].bg@ == (if marked(
                        s,
                        ws as int,
                        w,
                        buffer.selections@,
                        j as nat,
                        c,
                    ) {
                        bg_seq(Color::LightBlack)
                    } else {
                        reset_bg_seq()
                    })
                },
        decreases buffer.selections@.len() - j,
    {
        let sel = buffer.selections[j];
        let a = if sel.start < ws {
            ws
        } else if sel.start > len {
            len
        } else {
            sel.start
        };
        let b = if sel.end < a {
            a
        } else if sel.end > len {
            len
        } else {
            sel.end
        };
        let (start_point, end_point) = crate::viewport::char_idxs_to_points(a, b, ws, &buffer.data);
        display.highlight(start_point, end_point, None, Some(&sel_bg));
        assert(marked_range(s, ws as int, buffer.selections@[j as int]) == (a as int, b as int));
        assert forall|c: int| 0 <= c < n implies #[trigger] display.content@[c].bg@ == (if marked(
            s,
            ws as int,
            w,
            buffer.selections@,
            (j + 1) as nat,
            c,
        ) {
            bg_seq(Color::LightBlack)
        } else {
            reset_bg_seq()
        }) by {}
        j = j + 1;
    }
    display
}

/// Brings the root selection on screen on a terminal `width` by `height`
/// and draws the frame: `height - 1` rows of text, the last row being left
/// to the command line, with the syntax spans of the document that fall
/// within the window.
pub fn render_frame(
    buffer: &Buffer,
    viewport: &mut Viewport,
    highlighter: &mut Highlighter,
    width: u16,
    height: u16,
) -> (r: String)
    requires
        buffer.wf(),
        height >= 2,
    ensures
        final(viewport).top == reconciled_top(
            old(viewport).top as nat,
            crate::lines::line_of(buffer.text(), buffer.root().start as int),
            line_count(buffer.text()),
            height as nat,
        ),
        ({
            let size = Rect { width: width, height: (height - 1) as u16 };
            let (ws, we) = window(buffer.text(), final(viewport).top as nat, size.height as nat);
            exists|d: Display|
                #[trigger] is_frame(
                    &d,
                    buffer,
                    final(viewport).top as nat,
                    size,
                    syntax_spans(buffer.text(), ws, we),
                ) && r@ == crate::display::frame(d.content@, width as nat)
        }),
{
    let selection_line = buffer.get_root_selection_line();
    let total = buffer.data.len_lines();
    viewport.reconcile(selection_line, total, height as usize);
    proof {
        crate::viewport::lemma_reconcile_shows_selection(
            old(viewport).top as nat,
            selection_line as nat,
            total as nat,
            height as nat,
        );
    }
    let size = Rect { width: width, height: height - 1 };
    let (ws, we) = visible_range(buffer, viewport.top, size.height as usize);
    let text = slice_text(&buffer.data, 0, buffer.data.len_chars());
    assert(text@ =~= buffer.text());
    let highlights = highlighter.get_highlights(&text, ws, we);
    let display = compose(buffer, viewport.top, size, &highlights);
    let r = display.rendered();
    assert(is_frame(
        &display,
        buffer,
        viewport.top as nat,
        size,
        syntax_spans(buffer.text(), ws as int, we as int),
    ));
    r
}

} // verus!
