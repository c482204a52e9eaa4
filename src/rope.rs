//! The document store: ropey's `Rope`, with the contracts that this library
//! relies on. The crate is built with line feed as the only line break.
use crate::lines::{line_count, line_of, line_start};
use ropey::Rope;
use vstd::prelude::*;

verus! {

#[verifier::external_type_specification]
#[verifier::external_body]
pub struct ExRope(Rope);

/// The characters that a rope holds.
pub uninterp spec fn rope_chars(r: Rope) -> Seq<char>;

/// Relies on `Rope::from_str`: the rope holds the characters of `text`.
pub assume_specification[ Rope::from_str ](text: &str) -> (r: Rope)
    ensures
        rope_chars(r) == text@,
;

/// Relies on `Rope::len_chars`: the number of characters.
pub assume_specification[ Rope::len_chars ](r: &Rope) -> (n: usize)
    ensures
        n == rope_chars(*r).len(),
;

/// Relies on `Rope::len_lines`: line breaks plus one.
pub assume_specification[ Rope::len_lines ](r: &Rope) -> (n: usize)
    ensures
        n == line_count(rope_chars(*r)),
;

/// Relies on `Rope::char_to_line`: the line breaks before `char_idx`; it
/// panics past `len_chars()`.
pub assume_specification[ Rope::char_to_line ](r: &Rope, char_idx: usize) -> (l: usize)
    requires
        char_idx <= rope_chars(*r).len(),
    ensures
        l == line_of(rope_chars(*r), char_idx as int),
;

/// Relies on `Rope::line_to_char`: the first offset of a line, or
/// `len_chars()` for `len_lines()`; it panics beyond.
pub assume_specification[ Rope::line_to_char ](r: &Rope, line_idx: usize) -> (c: usize)
    requires
        line_idx <= line_count(rope_chars(*r)),
    ensures
        c == line_start(rope_chars(*r), line_idx as nat),
;

/// Relies on `Rope::slice` and the `Display` of the slice it returns: the
/// characters from `start` up to `end`. `slice` panics on a reversed range
/// or one that ends past `len_chars()`.
#[verifier::external_body]
pub(crate) fn slice_text(r: &Rope, start: usize, end: usize) -> (t: String)
    requires
        start <= end <= rope_chars(*r).len(),
    ensures
        t@ == rope_chars(*r).subrange(start as int, end as int),
{
    r.slice(start..end).to_string()
}

} // verus!
