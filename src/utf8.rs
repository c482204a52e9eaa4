//! Byte offsets of UTF-8 text and the character offsets they fall on.
use vstd::prelude::*;

verus! {

/// The number of bytes that UTF-8 takes for `c`.
pub open spec fn utf8_len(c: char) -> nat {
    if (c as u32) < 0x80 {
        1
    } else if (c as u32) < 0x800 {
        2
    } else if (c as u32) < 0x10000 {
        3
    } else {
        4
    }
}

/// The number of bytes of the UTF-8 encoding of `s`.
pub open spec fn byte_len(s: Seq<char>) -> nat
    decreases s.len(),
{
    if s.len() == 0 {
        0
    } else {
        byte_len(s.drop_last()) + utf8_len(s.last())
    }
}

/// The number of characters of `s` whose encoding starts before byte
/// offset `b`: the character offset of a byte offset that starts a
/// character.
pub open spec fn chars_before(s: Seq<char>, b: int) -> nat
    decreases s.len(),
{
    if s.len() == 0 {
        0
    } else if b > byte_len(s.drop_last()) {
        s.len()
    } else {
        chars_before(s.drop_last(), b)
    }
}

/// The number of bytes that UTF-8 takes for `c`.
pub fn utf8_width(c: char) -> (w: usize)
    ensures
        w == utf8_len(c),
{
    let v = c as u32;
    if v < 0x80 {
        1
    } else if v < 0x800 {
        2
    } else if v < 0x10000 {
        3
    } else {
        4
    }
}

/// From the end of the encoding on, every character starts before the
/// offset.
proof fn lemma_chars_before_past_end(s: Seq<char>, b: int)
    requires
        b >= byte_len(s),
    ensures
        chars_before(s, b) == s.len(),
{
    if s.len() > 0 {
        assert(byte_len(s) > byte_len(s.drop_last()));
    }
}

/// Every character takes at least one byte.
proof fn lemma_byte_len_bound(s: Seq<char>)
    ensures
        byte_len(s) >= s.len(),
    decreases s.len(),
{
    if s.len() > 0 {
        lemma_byte_len_bound(s.drop_last());
    }
}

/// For every byte offset `b` of `text`'s encoding (its end included), entry
/// `b` is the number of characters that start before it.
pub fn char_offsets(text: &String) -> (table: Vec<usize>)
    ensures
        table@.len() == byte_len(text@) + 1,
        forall|b: int| 0 <= b < table@.len() ==> table@[b] == chars_before(text@, b),
{
    let ghost s = text@;
    let mut table: Vec<usize> = Vec::new();
    table.push(0);
    let mut k: usize = 0;
    proof {
        broadcast use vstd::string::axiom_spec_iter;
    }
    for c in it: text.chars()
        invariant
            it.seq() == s,
            k == it.index(),
            k <= s.len(),
            table@.len() == byte_len(s.take(k as int)) + 1,
            forall|b: int|
                0 <= b < table@.len() ==> #[trigger] table@[b] == chars_before(
                    s.take(k as int),
                    b,
                ),
    {
        let ghost p = s.take(k as int);
        let ghost q = s.take(k + 1);
        assert(q.drop_last() == p);
        assert(q.last() == c);
        let w = utf8_width(c);
        let ghost base = table@.len();
        proof {
            lemma_byte_len_bound(p);
            assert(q.len() == k + 1);
            assert forall|b: int| 0 <= b < table@.len() implies #[trigger] table@[b] == chars_before(
                q,
                b,
            ) by {
                assert(table@[b] == chars_before(p, b));
            }
        }
        let n = table.len();
        assert(k + 1 <= n);
        let mut j: usize = 0;
        while j < w
            invariant
                j <= w,
                w == utf8_len(c),
                k < s.len(),
                k + 1 <= base,
                k + 1 <= n,
                q.len() == k + 1,
                base == byte_len(p) + 1,
                table@.len() == base + j,
                q.drop_last() == p,
                q.last() == c,
                byte_len(q) == byte_len(p) + w,
                forall|b: int|
                    0 <= b < table@.len() ==> #[trigger] table@[b] == chars_before(q, b),
            decreases w - j,
        {
            let ghost before = table@;
            table.push(k + 1);
            assert forall|b: int| 0 <= b < table@.len() implies #[trigger] table@[b] == chars_before(
                q,
                b,
            ) by {
                if b < before.len() {
                    assert(table@[b] == before[b]);
                }
            }
            j = j + 1;
        }
        k = k + 1;
    }
    assert(s.take(s.len() as int) == s);
    table
}

/// The character offset of byte offset `b` of `s`, read from the table of
/// `s`.
pub fn char_offset(table: &Vec<usize>, b: usize, Ghost(s): Ghost<Seq<char>>) -> (r: usize)
    requires
        table@.len() == byte_len(s) + 1,
        forall|i: int| 0 <= i < table@.len() ==> table@[i] == chars_before(s, i),
    ensures
        r == chars_before(s, b as int),
{
    if b < table.len() {
        table[b]
    } else {
        proof {
            lemma_chars_before_past_end(s, byte_len(s) as int);
            lemma_chars_before_past_end(s, b as int);
        }
        table[table.len() - 1]
    }
}

} // verus!
