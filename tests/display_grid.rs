use editor_core::display::{Cell, Display, Point, Rect};
use editor_core::style::{fg_string, reset_bg, reset_fg, selection_bg, Color};

const RESET_FG: &str = "\x1b[39m";
const RESET_BG: &str = "\x1b[49m";
const RED: &str = "\x1b[38;5;1m";
const BLUE: &str = "\x1b[38;5;4m";
const SELECTED: &str = "\x1b[48;5;8m";

fn chars(d: &Display) -> String {
    d.content.iter().map(|c| c.char).collect()
}

fn styled(ch: char, fg: &str, bg: &str) -> Cell {
    Cell { char: ch, fg: fg.to_string(), bg: bg.to_string() }
}

#[test]
fn style_sequences_are_termions() {
    assert_eq!(fg_string(Color::Red), RED);
    assert_eq!(fg_string(Color::Blue), BLUE);
    assert_eq!(fg_string(Color::LightCyan), "\x1b[38;5;14m");
    assert_eq!(reset_fg(), RESET_FG);
    assert_eq!(reset_bg(), RESET_BG);
    assert_eq!(selection_bg(), SELECTED);
}

#[test]
fn new_cell_is_in_default_colors() {
    let c = Cell::new('x');
    assert_eq!(c.char, 'x');
    assert_eq!(c.fg, RESET_FG);
    assert_eq!(c.bg, RESET_BG);
}

#[test]
fn grid_has_width_times_height_cells() {
    let d = Display::new(Rect { width: 4, height: 3 }, &String::new());
    assert_eq!(d.content.len(), 12);
    assert_eq!(chars(&d), " ".repeat(12));
    assert!(d.content.iter().all(|c| c.fg == RESET_FG && c.bg == RESET_BG));
}

#[test]
fn line_feed_starts_a_new_row() {
    let d = Display::new(Rect { width: 3, height: 2 }, &"ab\ncd".to_string());
    assert_eq!(chars(&d), "ab\ncd ");
}

#[test]
fn long_lines_wrap_and_overflow_is_dropped() {
    let d = Display::new(Rect { width: 3, height: 2 }, &"abcdefgh".to_string());
    assert_eq!(chars(&d), "abcdef");
}

#[test]
fn rows_beyond_the_grid_are_dropped() {
    let d = Display::new(Rect { width: 2, height: 2 }, &"a\nb\nc\n".to_string());
    assert_eq!(chars(&d), "a\nb\n");
}

#[test]
fn set_content_replaces_what_was_shown() {
    let mut d = Display::new(Rect { width: 3, height: 1 }, &"abc".to_string());
    d.highlight(Point { row: 0, col: 0 }, Point { row: 0, col: 3 }, Some(&RED.to_string()), None);
    d.set_content(&"x".to_string());
    assert_eq!(chars(&d), "x  ");
    assert!(d.content.iter().all(|c| c.fg == RESET_FG));
}

#[test]
fn empty_blanks_the_grid() {
    let mut d = Display::new(Rect { width: 2, height: 2 }, &"abcd".to_string());
    d.empty();
    assert_eq!(chars(&d), "    ");
}

#[test]
fn zero_sized_grid_renders_nothing() {
    let d = Display::new(Rect { width: 0, height: 5 }, &"abc".to_string());
    assert_eq!(d.content.len(), 0);
    assert_eq!(d.rendered(), "");
}

#[test]
fn rendered_closes_each_row() {
    let d = Display::new(Rect { width: 3, height: 2 }, &"ab\ncd".to_string());
    assert_eq!(d.rendered(), "ab \r\ncd  \r\n");
}

#[test]
fn rendering_twice_gives_the_same_bytes_and_one_sequence_per_run() {
    let mut cells = Vec::new();
    for _ in 0..3 {
        cells.push(styled('a', RED, RESET_BG));
    }
    cells.push(styled('b', RED, SELECTED));
    for _ in 0..5 {
        cells.push(styled('c', BLUE, SELECTED));
    }
    let d = Display { content: cells, size: Rect { width: 9, height: 1 } };
    let first = d.rendered();
    let second = d.rendered();
    assert_eq!(first, second);
    let expected = format!("{}aaa{}b{}ccccc \r\n", RED, SELECTED, BLUE);
    assert_eq!(first, expected);
    assert_eq!(first.matches('\x1b').count(), 3);
}

#[test]
fn first_cell_is_compared_with_the_default_colors() {
    let d = Display {
        content: vec![styled('a', RED, SELECTED), styled('b', RESET_FG, RESET_BG)],
        size: Rect { width: 2, height: 1 },
    };
    let expected = format!("{}{}a{}{}b \r\n", SELECTED, RED, RESET_BG, RESET_FG);
    assert_eq!(d.rendered(), expected);
}

#[test]
fn highlight_colors_the_cells_between_the_points() {
    let mut d = Display::new(Rect { width: 4, height: 2 }, &"abcd\nefgh".to_string());
    d.highlight(Point { row: 0, col: 2 }, Point { row: 1, col: 1 }, Some(&RED.to_string()), None);
    let fgs: Vec<&str> = d.content.iter().map(|c| c.fg.as_str()).collect();
    assert_eq!(fgs, vec![RESET_FG, RESET_FG, RED, RED, RED, RESET_FG, RESET_FG, RESET_FG]);
    assert!(d.content.iter().all(|c| c.bg == RESET_BG));
}

#[test]
fn highlight_is_clipped_at_the_grid() {
    let mut d = Display::new(Rect { width: 2, height: 1 }, &"ab".to_string());
    d.highlight(Point { row: 0, col: 1 }, Point { row: 9, col: 0 }, None, Some(&SELECTED.to_string()));
    assert_eq!(d.content[0].bg, RESET_BG);
    assert_eq!(d.content[1].bg, SELECTED);
    d.highlight(Point { row: 5, col: 0 }, Point { row: 6, col: 0 }, Some(&RED.to_string()), None);
    assert!(d.content.iter().all(|c| c.fg == RESET_FG));
}

#[test]
fn reversed_points_change_nothing() {
    let mut d = Display::new(Rect { width: 3, height: 1 }, &"abc".to_string());
    d.highlight(Point { row: 0, col: 2 }, Point { row: 0, col: 1 }, Some(&RED.to_string()), None);
    assert!(d.content.iter().all(|c| c.fg == RESET_FG));
}

#[test]
fn selection_background_wins_over_syntax_and_keeps_its_foreground() {
    let mut d = Display::new(Rect { width: 5, height: 1 }, &"hello".to_string());
    d.highlight(Point { row: 0, col: 0 }, Point { row: 0, col: 5 }, Some(&RED.to_string()), None);
    d.highlight(Point { row: 0, col: 0 }, Point { row: 0, col: 5 }, None, Some(&SELECTED.to_string()));
    for cell in &d.content {
        assert_eq!(cell.fg, RED);
        assert_eq!(cell.bg, SELECTED);
    }
    assert_eq!(chars(&d), "hello");
}
