//! Syntax highlighting: the table of capture names and their colors, and
//! the spans that a stream of highlight events gives.
use crate::utf8::{char_offset, char_offsets, chars_before};
use crate::style::{fg_seq, fg_string, reset_fg, reset_fg_seq, Color};
use tree_sitter::Language;
use tree_sitter_highlight::HighlightConfiguration;
use tree_sitter_highlight::HighlightEvent;
use tree_sitter_highlight::Highlighter as TSHighlighter;
use vstd::prelude::*;

verus! {

/// The number of capture names in the table.
pub const CAPTURE_COUNT: usize = 21;

/// The capture name with index `i`.
pub open spec fn capture_name(i: int) -> Seq<char> {
    if i == 0 {
        "attribute"@
    } else if i == 1 {
        "constant"@
    } else if i == 2 {
        "function.builtin"@
    } else if i == 3 {
        "keyword"@
    } else if i == 4 {
        "function"@
    } else if i == 5 {
        "operator"@
    } else if i == 6 {
        "property"@
    } else if i == 7 {
        "punctuation"@
    } else if i == 8 {
        "punctuation.bracket"@
    } else if i == 9 {
        "punctuation.delimiter"@
    } else if i == 10 {
        "string"@
    } else if i == 11 {
        "string.special"@
    } else if i == 12 {
        "tag"@
    } else if i == 13 {
        "type"@
    } else if i == 14 {
        "type.builtin"@
    } else if i == 15 {
        "variable"@
    } else if i == 16 {
        "variable.builtin"@
    } else if i == 17 {
        "variable.parameter"@
    } else if i == 18 {
        "comment"@
    } else if i == 19 {
        "function.method"@
    } else {
        "function.special"@
    }
}

/// The color of the capture with index `i`.
pub open spec fn capture_color(i: int) -> Color {
    if i == 0 || i == 1 || i == 2 || i == 4 || i == 12 || i == 13 || i == 15 || i == 20 {
        Color::Red
    } else if i == 3 || i == 5 || i == 14 {
        Color::Blue
    } else if i == 6 {
        Color::Magenta
    } else if i == 7 || i == 11 {
        Color::LightGreen
    } else if i == 8 {
        Color::LightCyan
    } else if i == 9 || i == 19 {
        Color::Yellow
    } else if i == 10 {
        Color::Green
    } else if i == 16 {
        Color::LightYellow
    } else if i == 17 {
        Color::LightMagenta
    } else {
        Color::LightBlack
    }
}

/// The foreground sequence for capture index `i`; the default foreground
/// for an index outside the table.
pub open spec fn color_of_capture(i: int) -> Seq<char> {
    if 0 <= i < CAPTURE_COUNT {
        fg_seq(capture_color(i))
    } else {
        reset_fg_seq()
    }
}

/// A capture name and the foreground sequence it is drawn with.
pub struct HighlightColor {
    pub name: String,
    pub color: String,
}

impl HighlightColor {
    pub fn new(name: &str, color: Color) -> (h: HighlightColor)
        ensures
            h.name@ == name@,
            h.color@ == fg_seq(color),
    {
        HighlightColor { name: String::from_str(name), color: fg_string(color) }
    }
}

/// Appends the table entry with index `i`.
fn push_entry(config: &mut Vec<(usize, HighlightColor)>, name: &str, color: Color)
    requires
        old(config)@.len() < CAPTURE_COUNT,
        name@ == capture_name(old(config)@.len() as int),
        color == capture_color(old(config)@.len() as int),
    ensures
        final(config)@.len() == old(config)@.len() + 1,
        forall|i: int| 0 <= i < old(config)@.len() ==> final(config)@[i] == old(config)@[i],
        final(config)@[old(config)@.len() as int].0 == old(config)@.len(),
        final(config)@[old(config)@.len() as int].1.name@ == capture_name(
            old(config)@.len() as int,
        ),
        final(config)@[old(config)@.len() as int].1.color@ == fg_seq(
            capture_color(old(config)@.len() as int),
        ),
{
    let i = config.len();
    config.push((i, HighlightColor::new(name, color)));
}

/// The table: entry `i` holds index `i`, the capture name and its color.
pub open spec fn is_capture_table(config: Seq<(usize, HighlightColor)>) -> bool {
    &&& config.len() == CAPTURE_COUNT
    &&& forall|i: int|
        0 <= i < CAPTURE_COUNT ==> {
            &&& (#[trigger] config[i]).0 == i
            &&& config[i].1.name@ == capture_name(i)
            &&& config[i].1.color@ == fg_seq(capture_color(i))
        }
}

/// The capture names that the highlighter recognises, with their colors.
pub fn get_highlight_config() -> (config: Vec<(usize, HighlightColor)>)
    ensures
        is_capture_table(config@),
{
    let mut config: Vec<(usize, HighlightColor)> = Vec::new();
    push_entry(&mut config, "attribute", Color::Red);
    push_entry(&mut config, "constant", Color::Red);
    push_entry(&mut config, "function.builtin", Color::Red);
    push_entry(&mut config, "keyword", Color::Blue);
    push_entry(&mut config, "function", Color::Red);
    push_entry(&mut config, "operator", Color::Blue);
    push_entry(&mut config, "property", Color::Magenta);
    push_entry(&mut config, "punctuation", Color::LightGreen);
    push_entry(&mut config, "punctuation.bracket", Color::LightCyan);
    push_entry(&mut config, "punctuation.delimiter", Color::Yellow);
    push_entry(&mut config, "string", Color::Green);
    push_entry(&mut config, "string.special", Color::LightGreen);
    push_entry(&mut config, "tag", Color::Red);
    push_entry(&mut config, "type", Color::Red);
    push_entry(&mut config, "type.builtin", Color::Blue);
    push_entry(&mut config, "variable", Color::Red);
    push_entry(&mut config, "variable.builtin", Color::LightYellow);
    push_entry(&mut config, "variable.parameter", Color::LightMagenta);
    push_entry(&mut config, "comment", Color::LightBlack);
    push_entry(&mut config, "function.method", Color::Yellow);
    push_entry(&mut config, "function.special", Color::Red);
    config
}

/// The capture names, in the order of their indices.
pub fn get_highlight_names() -> (names: Vec<String>)
    ensures
        names@.len() == CAPTURE_COUNT,
        forall|i: int| 0 <= i < CAPTURE_COUNT ==> (#[trigger] names@[i])@ == capture_name(i),
{
    let config = get_highlight_config();
    let mut names: Vec<String> = Vec::new();
    let mut i: usize = 0;
    while i < config.len()
        invariant
            is_capture_table(config@),
            i <= config@.len(),
            names@.len() == i,
            forall|j: int| 0 <= j < i ==> (#[trigger] names@[j])@ == capture_name(j),
        decreases config@.len() - i,
    {
        names.push(config[i].1.name.clone());
        i = i + 1;
    }
    names
}

/// The foreground sequence of capture index `color`; the default
/// foreground for an index outside the table.
pub fn get_highlight_color(color: usize) -> (r: String)
    ensures
        r@ == color_of_capture(color as int),
{
    let config = get_highlight_config();
    let mut i: usize = 0;
    while i < config.len()
        invariant
            is_capture_table(config@),
            i <= config@.len(),
            forall|j: int| 0 <= j < i ==> config@[j].0 != color,
        decreases config@.len() - i,
    {
        if config[i].0 == color {
            return config[i].1.color.clone();
        }
        i = i + 1;
    }
    assert(!(0 <= color < CAPTURE_COUNT)) by {
        if 0 <= color < CAPTURE_COUNT {
            assert(config@[color as int].0 == color);
        }
    }
    reset_fg()
}

/// A colored range of character offsets.
pub struct Highlight {
    pub start: usize,
    pub end: usize,
    pub color: String,
}

/// One event of a highlighter's walk over a text: a range of source text,
/// or the start or end of a capture, by index.
#[derive(Clone, Copy, Debug, PartialEq, Eq, Structural)]
pub enum SpanEvent {
    Source { start: usize, end: usize },
    Start(usize),
    End,
}

/// The captures open after `events`, innermost last.
pub open spec fn open_captures(events: Seq<SpanEvent>) -> Seq<usize>
    decreases events.len(),
{
    if events.len() == 0 {
        Seq::empty()
    } else {
        let open = open_captures(events.drop_last());
        match events.last() {
            SpanEvent::Start(c) => open.push(c),
            SpanEvent::End => if open.len() > 0 {
                open.drop_last()
            } else {
                open
            },
            SpanEvent::Source { .. } => open,
        }
    }
}

/// The color of source text under the open captures `open`: that of the
/// innermost capture, or the default foreground.
pub open spec fn color_under(open: Seq<usize>) -> Seq<char> {
    if open.len() > 0 {
        color_of_capture(open.last() as int)
    } else {
        reset_fg_seq()
    }
}

/// The smaller of two numbers.
pub open spec fn min_of(a: int, b: int) -> int {
    if a < b {
        a
    } else {
        b
    }
}

/// The larger of two numbers.
pub open spec fn max_of(a: int, b: int) -> int {
    if a > b {
        a
    } else {
        b
    }
}

/// The spans that `events` give within `[lo, hi)`: each source range,
/// clipped to the bounds and dropped where nothing is left of it, in the
/// color of the innermost capture open around it.
pub open spec fn spans_of(events: Seq<SpanEvent>, lo: int, hi: int) -> Seq<(int, int, Seq<char>)>
    decreases events.len(),
{
    if events.len() == 0 {
        Seq::empty()
    } else {
        let before = spans_of(events.drop_last(), lo, hi);
        match events.last() {
            SpanEvent::Source { start, end } => {
                let a = max_of(start as int, lo);
                let b = min_of(end as int, hi);
                if a < b {
                    before.push((a, b, color_under(open_captures(events.drop_last()))))
                } else {
                    before
                }
            },
            _ => before,
        }
    }
}

/// The view of a highlight: its range and color.
pub open spec fn span_view(h: &Highlight) -> (int, int, Seq<char>) {
    (h.start as int, h.end as int, h.color@)
}

/// The highlights that `events` give between `start_bound` and
/// `end_bound`.
pub fn collect_highlights(events: &Vec<SpanEvent>, start_bound: usize, end_bound: usize) -> (r: Vec<
    Highlight,
>)
    ensures
        r@.len() == spans_of(events@, start_bound as int, end_bound as int).len(),
        forall|i: int|
            0 <= i < r@.len() ==> span_view(&#[trigger] r@[i]) == spans_of(
                events@,
                start_bound as int,
                end_bound as int,
            )[i],
        forall|i: int|
            0 <= i < r@.len() ==> start_bound <= (#[trigger] r@[i]).start < r@[i].end <= end_bound,
{
    let mut hls: Vec<Highlight> = Vec::new();
    let mut open: Vec<usize> = Vec::new();
    let mut k: usize = 0;
    while k < events.len()
        invariant
            k <= events@.len(),
            open@ == open_captures(events@.take(k as int)),
            hls@.len() == spans_of(events@.take(k as int), start_bound as int, end_bound as int).len(),
            forall|i: int|
                0 <= i < hls@.len() ==> span_view(&#[trigger] hls@[i]) == spans_of(
                    events@.take(k as int),
                    start_bound as int,
                    end_bound as int,
                )[i],
            forall|i: int|
                0 <= i < hls@.len() ==> start_bound <= (#[trigger] hls@[i]).start < hls@[i].end
                    <= end_bound,
        decreases events@.len() - k,
    {
        let ghost prefix = events@.take(k as int);
        assert(events@.take(k + 1).drop_last() == prefix);
        match events[k] {
            SpanEvent::Start(c) => {
                open.push(c);
            },
            SpanEvent::End => {
                if open.len() > 0 {
                    open.pop();
                }
            },
            SpanEvent::Source { start, end } => {
                let a = if start > start_bound {
                    start
                } else {
                    start_bound
                };
                let b = if end < end_bound {
                    end
                } else {
                    end_bound
                };
                if a < b {
                    let color = if open.len() > 0 {
                        get_highlight_color(open[open.len() - 1])
                    } else {
                        reset_fg()
                    };
                    hls.push(Highlight { start: a, end: b, color: color });
                }
            },
        }
        k = k + 1;
        assert(open@ =~= open_captures(events@.take(k as int)));
    }
    assert(events@.take(events@.len() as int) == events@);
    hls
}

#[verifier::external_type_specification]
#[verifier::external_body]
pub struct ExLanguage(Language);

#[verifier::external_type_specification]
#[verifier::external_body]
pub struct ExHighlightConfiguration(HighlightConfiguration);

#[verifier::external_type_specification]
#[verifier::external_body]
pub struct ExTSHighlighter(TSHighlighter);

/// Relies on `tree_sitter_rust::language`: the Rust grammar.
pub assume_specification[ tree_sitter_rust::language ]() -> Language;

/// Relies on `tree_sitter_highlight::Highlighter::new`: a highlighter with
/// no parse state.
pub assume_specification[ TSHighlighter::new ]() -> TSHighlighter;

/// Relies on `tree_sitter_rust::HIGHLIGHT_QUERY`: the grammar's highlight
/// query.
#[verifier::external_body]
fn rust_highlight_query() -> &'static str {
    tree_sitter_rust::HIGHLIGHT_QUERY
}

/// Relies on `HighlightConfiguration::new`: the configuration for a
/// language and its queries, or `None` where a query does not compile.
#[verifier::external_body]
fn highlight_configuration(
    language: Language,
    highlights: &str,
    injections: &str,
    locals: &str,
) -> Option<HighlightConfiguration> {
    HighlightConfiguration::new(language, highlights, injections, locals).ok()
}

/// Relies on `HighlightConfiguration::configure`: captures are reported by
/// their index among `names`.
#[verifier::external_body]
fn configure(config: &mut HighlightConfiguration, names: &Vec<String>) {
    config.configure(names.as_slice())
}

/// The events of the walk of the Rust highlighter, configured with the
/// capture table, over `source`; `None` where the walk fails.
pub uninterp spec fn rust_events_of(source: Seq<char>) -> Option<Seq<SpanEvent>>;

/// Relies on `tree_sitter_highlight::Highlighter::highlight`, run with the
/// highlighter's configuration, no cancellation flag and no injections:
/// the events of a walk over the UTF-8 bytes of `source`, with byte
/// offsets, or `None` where the walk fails. The walk depends on the text
/// alone.
#[verifier::external_body]
fn highlight_events(highlighter: &mut Highlighter, source: &str) -> (r: Option<Vec<SpanEvent>>)
    ensures
        match r {
            Some(v) => rust_events_of(source@) == Some(v@),
            None => rust_events_of(source@) is None,
        },
{
    let mut out = Vec::new();
    let walk = highlighter.highlighter.highlight(&highlighter.rust_config, source.as_bytes(), None, |_| None);
    for event in walk.ok()? {
        out.push(match event.ok()? {
            HighlightEvent::Source { start, end } => SpanEvent::Source { start, end },
            HighlightEvent::HighlightStart(h) => SpanEvent::Start(h.0),
            HighlightEvent::HighlightEnd => SpanEvent::End,
        });
    }
    Some(out)
}

/// `e` with its source range moved from byte offsets of `text` to
/// character offsets.
pub open spec fn in_chars(text: Seq<char>, e: SpanEvent) -> SpanEvent {
    match e {
        SpanEvent::Source { start, end } => SpanEvent::Source {
            start: chars_before(text, start as int) as usize,
            end: chars_before(text, end as int) as usize,
        },
        _ => e,
    }
}

/// The events with their source ranges given in characters of `text`
/// rather than bytes of its encoding.
pub fn events_in_chars(events: &Vec<SpanEvent>, text: &String) -> (r: Vec<SpanEvent>)
    ensures
        r@.len() == events@.len(),
        forall|i: int| 0 <= i < r@.len() ==> r@[i] == in_chars(text@, #[trigger] events@[i]),
{
    let table = char_offsets(text);
    let mut r: Vec<SpanEvent> = Vec::new();
    let mut i: usize = 0;
    while i < events.len()
        invariant
            i <= events@.len(),
            table@.len() == crate::utf8::byte_len(text@) + 1,
            forall|b: int| 0 <= b < table@.len() ==> table@[b] == chars_before(text@, b),
            r@.len() == i,
            forall|j: int| 0 <= j < i ==> r@[j] == in_chars(text@, #[trigger] events@[j]),
        decreases events@.len() - i,
    {
        let e = match events[i] {
            SpanEvent::Source { start, end } => SpanEvent::Source {
                start: char_offset(&table, start, Ghost(text@)),
                end: char_offset(&table, end, Ghost(text@)),
            },
            other => other,
        };
        r.push(e);
        i = i + 1;
    }
    r
}

/// The syntax spans of `text` between the character offsets `lo` and
/// `hi`: those that the highlighter's events give, in characters; none
/// where the walk fails.
pub open spec fn syntax_spans(text: Seq<char>, lo: int, hi: int) -> Seq<(int, int, Seq<char>)> {
    match rust_events_of(text) {
        Some(ev) => spans_of(ev.map_values(|e: SpanEvent| in_chars(text, e)), lo, hi),
        None => Seq::empty(),
    }
}

/// Highlights Rust source.
pub struct Highlighter {
    highlighter: TSHighlighter,
    rust_config: HighlightConfiguration,
}

impl Highlighter {
    /// A highlighter for Rust that reports the captures of the table; `None`
    /// where the grammar's query does not compile.
    pub fn new() -> (h: Option<Highlighter>) {
        let rust_language = tree_sitter_rust::language();
        match highlight_configuration(rust_language, rust_highlight_query(), "", "") {
            Some(mut rust_config) => {
                configure(&mut rust_config, &get_highlight_names());
                Some(Highlighter { highlighter: TSHighlighter::new(), rust_config: rust_config })
            },
            None => None,
        }
    }

    /// The highlights of `text` between the character offsets
    /// `start_bound` and `end_bound`: the spans that the walk gives, moved
    /// to characters and clipped to the bounds; none where the walk fails.
    pub fn get_highlights(&mut self, text: &String, start_bound: usize, end_bound: usize) -> (r: Vec<
        Highlight,
    >)
        ensures
            r@.map_values(|h: Highlight| span_view(&h)) == syntax_spans(
                text@,
                start_bound as int,
                end_bound as int,
            ),
            forall|i: int|
                0 <= i < r@.len() ==> start_bound <= (#[trigger] r@[i]).start < r@[i].end
                    <= end_bound,
    {
        match highlight_events(self, text.as_str()) {
            Some(events) => {
                let moved = events_in_chars(&events, text);
                assert(moved@ =~= events@.map_values(|e: SpanEvent| in_chars(text@, e)));
                let r = collect_highlights(&moved, start_bound, end_bound);
                assert(r@.map_values(|h: Highlight| span_view(&h)) =~= syntax_spans(
                    text@,
                    start_bound as int,
                    end_bound as int,
                ));
                r
            },
            None => {
                let r: Vec<Highlight> = Vec::new();
                assert(r@.map_values(|h: Highlight| span_view(&h)) =~= Seq::<(int, int, Seq<char>)>::empty());
                r
            },
        }
    }
}

} // verus!
