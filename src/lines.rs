//! Line structure of a character sequence.
//!
//! A line ends with a line feed, which belongs to the line it ends; the text
//! after the last line feed (possibly empty) is the last line.
use vstd::prelude::*;

verus! {

/// Number of line feeds among the first `i` characters of `s`: the index of
/// the line that holds offset `i`.
pub open spec fn line_of(s: Seq<char>, i: int) -> nat
    decreases i,
{
    if i <= 0 {
        0
    } else if i > s.len() {
        line_of(s, s.len() as int)
    } else {
        line_of(s, i - 1) + (if s[i - 1] == '\n' { 1nat } else { 0nat })
    }
}

/// Number of lines of `s`: one more than its line feeds.
pub open spec fn line_count(s: Seq<char>) -> nat {
    line_of(s, s.len() as int) + 1
}

/// `i` is the first offset of line `l`.
pub open spec fn starts_line(s: Seq<char>, l: nat, i: int) -> bool {
    &&& 0 <= i <= s.len()
    &&& line_of(s, i) == l
    &&& (i == 0 || s[i - 1] == '\n')
}

/// Offset of the first character of line `l`; one past the end for
/// `l == line_count(s)` and beyond.
pub open spec fn line_start(s: Seq<char>, l: nat) -> int {
    if l >= line_count(s) {
        s.len() as int
    } else {
        choose|i: int| starts_line(s, l, i)
    }
}

/// Number of characters of line `l` other than its line feed.
pub open spec fn content_len(s: Seq<char>, l: nat) -> int {
    if l + 1 < line_count(s) {
        line_start(s, l + 1) - 1 - line_start(s, l)
    } else {
        s.len() - line_start(s, l)
    }
}

/// Column of offset `i`: its distance from the start of its line.
pub open spec fn column(s: Seq<char>, i: int) -> int {
    i - line_start(s, line_of(s, i))
}

/// The line index grows with the offset, by at most one per character.
pub proof fn lemma_line_of_mono(s: Seq<char>, i: int, j: int)
    requires
        0 <= i <= j <= s.len(),
    ensures
        line_of(s, i) <= line_of(s, j),
        line_of(s, j) - line_of(s, i) <= j - i,
    decreases j - i,
{
    if i < j {
        lemma_line_of_mono(s, i, j - 1);
    }
}

proof fn lemma_starts_line_exists(s: Seq<char>, k: int, l: nat)
    requires
        0 <= k <= s.len(),
        l <= line_of(s, k),
    ensures
        exists|i: int| starts_line(s, l, i) && i <= k,
    decreases k,
{
    if k == 0 {
        assert(starts_line(s, l, 0));
    } else if l <= line_of(s, k - 1) {
        lemma_starts_line_exists(s, k - 1, l);
        let i = choose|i: int| starts_line(s, l, i) && i <= k - 1;
        assert(starts_line(s, l, i) && i <= k);
    } else {
        assert(starts_line(s, l, k));
    }
}

/// Line `l` starts at the first offset whose line index is `l`.
pub proof fn lemma_line_start(s: Seq<char>, l: nat)
    requires
        l < line_count(s),
    ensures
        starts_line(s, l, line_start(s, l)),
        l == 0 <==> line_start(s, l) == 0,
        forall|i: int| 0 <= i <= s.len() && line_of(s, i) == l ==> line_start(s, l) <= i,
{
    lemma_starts_line_exists(s, s.len() as int, l);
    let a = line_start(s, l);
    assert forall|i: int| 0 <= i <= s.len() && line_of(s, i) == l implies a <= i by {
        if a > i {
            lemma_line_of_mono(s, i, a - 1);
        }
    }
}

/// Facts on the extent of line `l`: its content lies within `s`, is
/// followed by a line feed unless it is the last line, and every offset from
/// its start to the end of its content belongs to it.
pub proof fn lemma_line_extent(s: Seq<char>, l: nat)
    requires
        l < line_count(s),
    ensures
        0 <= line_start(s, l),
        0 <= content_len(s, l),
        line_start(s, l) + content_len(s, l) <= s.len(),
        l + 1 < line_count(s) ==> line_start(s, l + 1) == line_start(s, l) + content_len(s, l)
            + 1,
        l + 1 < line_count(s) ==> s[line_start(s, l) + content_len(s, l)] == '\n',
        forall|i: int|
            line_start(s, l) <= i <= line_start(s, l) + content_len(s, l) ==> #[trigger] line_of(
                s,
                i,
            ) == l,
{
    lemma_line_start(s, l);
    let a = line_start(s, l);
    if l + 1 < line_count(s) {
        lemma_line_start(s, l + 1);
        let b = line_start(s, l + 1);
        assert(line_of(s, b - 1) == l);
        assert forall|i: int| a <= i <= b - 1 implies #[trigger] line_of(s, i) == l by {
            lemma_line_of_mono(s, a, i);
            lemma_line_of_mono(s, i, b - 1);
        }
    } else {
        assert forall|i: int| a <= i <= s.len() implies #[trigger] line_of(s, i) == l by {
            lemma_line_of_mono(s, a, i);
            lemma_line_of_mono(s, i, s.len() as int);
        }
    }
}

/// Every offset lies on a line of `s`, between its start and the end of its
/// content.
pub proof fn lemma_offset_in_line(s: Seq<char>, i: int)
    requires
        0 <= i <= s.len(),
    ensures
        line_of(s, i) < line_count(s),
        line_start(s, line_of(s, i)) <= i,
        0 <= column(s, i) <= content_len(s, line_of(s, i)),
{
    let l = line_of(s, i);
    lemma_line_of_mono(s, i, s.len() as int);
    lemma_line_start(s, l);
    lemma_line_extent(s, l);
    if l + 1 < line_count(s) {
        lemma_line_start(s, l + 1);
        let b = line_start(s, l + 1);
        if i >= b {
            lemma_line_of_mono(s, b, i);
        }
    }
}

} // verus!
