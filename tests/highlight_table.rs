use editor_core::highlight::{
    collect_highlights, get_highlight_color, get_highlight_config, get_highlight_names,
    HighlightColor, SpanEvent,
};
use editor_core::style::Color;

const RESET_FG: &str = "\x1b[39m";

#[test]
fn names_follow_the_table_order() {
    let names = get_highlight_names();
    assert_eq!(names.len(), 21);
    assert_eq!(names[0], "attribute");
    assert_eq!(names[3], "keyword");
    assert_eq!(names[10], "string");
    assert_eq!(names[18], "comment");
    assert_eq!(names[20], "function.special");
}

#[test]
fn config_pairs_each_index_with_its_color() {
    let config = get_highlight_config();
    assert_eq!(config.len(), 21);
    for (i, entry) in config.iter().enumerate() {
        assert_eq!(entry.0, i);
    }
    assert_eq!(config[8].1.name, "punctuation.bracket");
    assert_eq!(config[8].1.color, "\x1b[38;5;14m");
}

#[test]
fn colors_by_capture_index() {
    assert_eq!(get_highlight_color(3), "\x1b[38;5;4m");
    assert_eq!(get_highlight_color(10), "\x1b[38;5;2m");
    assert_eq!(get_highlight_color(18), "\x1b[38;5;8m");
    assert_eq!(get_highlight_color(17), "\x1b[38;5;13m");
}

#[test]
fn unknown_capture_index_gets_the_default_foreground() {
    assert_eq!(get_highlight_color(21), RESET_FG);
    assert_eq!(get_highlight_color(usize::MAX), RESET_FG);
}

#[test]
fn highlight_color_holds_the_foreground_sequence() {
    let h = HighlightColor::new("keyword", Color::Blue);
    assert_eq!(h.name, "keyword");
    assert_eq!(h.color, "\x1b[38;5;4m");
}

#[test]
fn spans_take_the_innermost_capture_color() {
    let events = vec![
        SpanEvent::Source { start: 0, end: 2 },
        SpanEvent::Start(3),
        SpanEvent::Source { start: 2, end: 4 },
        SpanEvent::Start(10),
        SpanEvent::Source { start: 4, end: 6 },
        SpanEvent::End,
        SpanEvent::Source { start: 6, end: 7 },
        SpanEvent::End,
        SpanEvent::Source { start: 7, end: 9 },
    ];
    let spans = collect_highlights(&events, 0, 100);
    let got: Vec<(usize, usize, String)> =
        spans.into_iter().map(|h| (h.start, h.end, h.color)).collect();
    assert_eq!(
        got,
        vec![
            (0, 2, RESET_FG.to_string()),
            (2, 4, "\x1b[38;5;4m".to_string()),
            (4, 6, "\x1b[38;5;2m".to_string()),
            (6, 7, "\x1b[38;5;4m".to_string()),
            (7, 9, RESET_FG.to_string()),
        ]
    );
}

#[test]
fn spans_are_clipped_to_the_bounds() {
    let events = vec![
        SpanEvent::Source { start: 0, end: 5 },
        SpanEvent::Source { start: 5, end: 8 },
        SpanEvent::Source { start: 8, end: 20 },
        SpanEvent::Source { start: 20, end: 30 },
    ];
    let spans = collect_highlights(&events, 3, 10);
    let got: Vec<(usize, usize)> = spans.iter().map(|h| (h.start, h.end)).collect();
    assert_eq!(got, vec![(3, 5), (5, 8), (8, 10)]);
}

#[test]
fn no_events_give_no_spans() {
    assert!(collect_highlights(&Vec::new(), 0, 10).is_empty());
    let unmatched_end = vec![SpanEvent::End, SpanEvent::Source { start: 0, end: 1 }];
    let spans = collect_highlights(&unmatched_end, 0, 10);
    assert_eq!(spans.len(), 1);
    assert_eq!(spans[0].color, RESET_FG);
}
