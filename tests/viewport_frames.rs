use editor_core::buffer::{Buffer, Selection};
use editor_core::display::{Point, Rect};
use editor_core::frame::{compose, render_frame, visible_range};
use editor_core::highlight::{Highlight, Highlighter};
use editor_core::viewport::{char_idxs_to_points, Viewport};

const RESET_FG: &str = "\x1b[39m";
const RESET_BG: &str = "\x1b[49m";
const RED: &str = "\x1b[38;5;1m";
const SELECTED: &str = "\x1b[48;5;8m";

fn lines(n: usize) -> String {
    (0..n).map(|i| format!("line{}\n", i)).collect()
}

#[test]
fn reconcile_scrolls_down_to_the_selection() {
    let mut v = Viewport { top: 0 };
    v.reconcile(10, 20, 5);
    assert_eq!(v.top, 7);
    assert!(v.top <= 10 && 10 <= v.top + 5 - 2);
}

#[test]
fn reconcile_scrolls_up_to_the_selection() {
    let mut v = Viewport { top: 12 };
    v.reconcile(4, 20, 5);
    assert_eq!(v.top, 4);
}

#[test]
fn reconcile_keeps_a_visible_selection_still() {
    let mut v = Viewport { top: 3 };
    v.reconcile(5, 20, 5);
    assert_eq!(v.top, 3);
}

#[test]
fn reconcile_keeps_top_within_the_document() {
    let mut v = Viewport { top: 50 };
    v.reconcile(18, 20, 5);
    assert_eq!(v.top, 16);
    let mut short = Viewport { top: 3 };
    short.reconcile(1, 3, 10);
    assert_eq!(short.top, 0);
}

#[test]
fn reconcile_on_every_line_of_a_tall_document() {
    let (total, height) = (30usize, 6usize);
    for top in 0..total {
        for line in 0..total {
            let mut v = Viewport { top };
            v.reconcile(line, total, height);
            assert!(v.top <= total + 1 - height);
            assert!(v.top <= line && line <= v.top + height - 2);
        }
    }
}

#[test]
fn scroll_down_moves_a_selection_on_the_first_visible_line() {
    let mut b = Buffer::new(lines(20));
    let mut v = Viewport::new();
    v.scroll_down(&mut b, 5);
    assert_eq!(v.top, 1);
    assert_eq!(b.get_root_selection_line(), 1);
}

#[test]
fn scroll_down_stops_on_the_last_page() {
    let mut b = Buffer::new(lines(3));
    let mut v = Viewport::new();
    v.scroll_down(&mut b, 5);
    assert_eq!(v.top, 0);
    assert_eq!(b.get_root_selection(), Selection { start: 0, end: 1 });
}

#[test]
fn scroll_up_moves_a_selection_on_the_last_visible_line() {
    let mut b = Buffer::new(lines(20));
    b.selections[0] = Selection { start: 36, end: 37 };
    assert_eq!(b.get_root_selection_line(), 6);
    let mut v = Viewport { top: 3 };
    v.scroll_up(&mut b, 5);
    assert_eq!(v.top, 2);
    assert_eq!(b.get_root_selection_line(), 5);
    let mut at_top = Viewport { top: 0 };
    at_top.scroll_up(&mut b, 5);
    assert_eq!(at_top.top, 0);
    assert_eq!(b.get_root_selection_line(), 5);
}

#[test]
fn points_are_relative_to_the_window() {
    let b = Buffer::new("ab\ncde\nfg\n".to_string());
    let (start, end) = char_idxs_to_points(4, 8, 3, &b.data);
    assert_eq!(start, Point { row: 0, col: 1 });
    assert_eq!(end, Point { row: 1, col: 1 });
}

#[test]
fn first_row_columns_count_from_the_offset() {
    let b = Buffer::new("abcd\nef".to_string());
    let (start, end) = char_idxs_to_points(3, 6, 2, &b.data);
    assert_eq!(start, Point { row: 0, col: 1 });
    assert_eq!(end, Point { row: 1, col: 1 });
}

#[test]
fn reconcile_shows_the_last_line() {
    let mut v = Viewport { top: 0 };
    v.reconcile(19, 20, 5);
    assert_eq!(v.top, 16);
    assert!(19 <= v.top + 5 - 2);
}

#[test]
fn visible_range_covers_whole_lines() {
    let b = Buffer::new("ab\ncde\nfg\n".to_string());
    assert_eq!(visible_range(&b, 1, 1), (3, 7));
    assert_eq!(visible_range(&b, 1, 10), (3, 10));
}

#[test]
fn compose_draws_window_spans_and_selections() {
    let mut b = Buffer::new("ab\ncd\nef\n".to_string());
    b.selections[0] = Selection { start: 4, end: 5 };
    let spans = vec![
        Highlight { start: 3, end: 5, color: RED.to_string() },
        Highlight { start: 0, end: 1, color: RED.to_string() },
    ];
    let d = compose(&b, 1, Rect { width: 3, height: 2 }, &spans);
    let text: String = d.content.iter().map(|c| c.char).collect();
    assert_eq!(text, "cd\nef\n");
    let fgs: Vec<&str> = d.content.iter().map(|c| c.fg.as_str()).collect();
    assert_eq!(fgs, vec![RED, RED, RESET_FG, RESET_FG, RESET_FG, RESET_FG]);
    let bgs: Vec<&str> = d.content.iter().map(|c| c.bg.as_str()).collect();
    assert_eq!(bgs, vec![RESET_BG, SELECTED, RESET_BG, RESET_BG, RESET_BG, RESET_BG]);
}

#[test]
fn frame_of_a_small_document() {
    let b = Buffer::new("let x = 1;\n".to_string());
    let mut v = Viewport::new();
    let mut h = Highlighter::new().expect("the Rust highlight query compiles");
    let frame = render_frame(&b, &mut v, &mut h, 12, 3);
    assert_eq!(v.top, 0);
    assert!(frame.ends_with(" \r\n"));
    assert_eq!(frame.matches("\r\n").count(), 2);
    assert!(frame.contains(SELECTED));
    assert!(frame.contains("x"));
}

#[test]
fn highlighter_colors_keywords() {
    let mut h = Highlighter::new().expect("the Rust highlight query compiles");
    let spans = h.get_highlights(&"fn main() {}".to_string(), 0, 12);
    assert!(!spans.is_empty());
    assert_eq!(spans[0].start, 0);
    assert_eq!(spans[0].end, 2);
    assert_eq!(spans[0].color, "\x1b[38;5;4m");
    for s in &spans {
        assert!(s.start < s.end && s.end <= 12);
    }
}
