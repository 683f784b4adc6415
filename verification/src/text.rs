//! Character-level helpers: whitespace, fields of a line, pieces of a field.

use vstd::prelude::*;
use vstd::string::{is_ascii, is_ascii_spec_bytes, StrSliceExecFns, StringSliceAdditionalSpecFns};
use vstd::utf8::is_ascii_chars;

verus! {

/// Whether `c` is white space (the Unicode class `White_Space`).
pub open spec fn is_space(c: char) -> bool {
    let n = c as u32;
    ||| 0x09 <= n <= 0x0D
    ||| n == 0x20
    ||| n == 0x85
    ||| n == 0xA0
    ||| n == 0x1680
    ||| 0x2000 <= n <= 0x200A
    ||| n == 0x2028
    ||| n == 0x2029
    ||| n == 0x202F
    ||| n == 0x205F
    ||| n == 0x3000
}

/// Tests a character for white space.
pub fn char_is_space(c: char) -> (r: bool)
    ensures
        r == is_space(c),
{
    let n: u32 = c as u32;
    (0x09 <= n && n <= 0x0D) || n == 0x20 || n == 0x85 || n == 0xA0 || n == 0x1680 || (0x2000 <= n
        && n <= 0x200A) || n == 0x2028 || n == 0x2029 || n == 0x202F || n == 0x205F || n == 0x3000
}

/// The characters of a string, in order.
pub fn chars_of(s: &str) -> (r: Vec<char>)
    ensures
        r@ == s@,
{
    let mut out: Vec<char> = Vec::new();
    if s.is_ascii() {
        let bytes = s.as_bytes();
        proof {
            is_ascii_spec_bytes(s);
        }
        let mut i: usize = 0;
        while i < bytes.len()
            invariant
                is_ascii(s),
                bytes@ == s.spec_bytes(),
                bytes@.len() == s@.len(),
                forall|k: int| 0 <= k < s@.len() ==> bytes@[k] == s@[k] as u8,
                i <= bytes@.len(),
                out@ == s@.take(i as int),
            decreases bytes@.len() - i,
        {
            let c = bytes[i] as char;
            assert(c == s@[i as int]) by {
                assert(is_ascii_chars(s@));
                assert(s@[i as int] as u32 <= 0x7f);
            }
            out.push(c);
            assert(s@.take(i + 1) =~= s@.take(i as int).push(c));
            i += 1;
        }
        assert(s@.take(i as int) =~= s@);
    } else {
        let n: usize = s.unicode_len();
        let mut i: usize = 0;
        while i < n
            invariant
                n == s@.len(),
                i <= n,
                out@ == s@.take(i as int),
            decreases n - i,
        {
            let c = s.get_char(i);
            out.push(c);
            assert(s@.take(i + 1) =~= s@.take(i as int).push(c));
            i += 1;
        }
        assert(s@.take(n as int) =~= s@);
    }
    out
}

/// A copy of the characters of `s` from `from` up to, not including, `to`.
pub fn copy_range(s: &Vec<char>, from: usize, to: usize) -> (r: Vec<char>)
    requires
        from <= to <= s@.len(),
    ensures
        r@ == s@.subrange(from as int, to as int),
{
    let mut out: Vec<char> = Vec::new();
    let mut i: usize = from;
    while i < to
        invariant
            from <= i <= to <= s@.len(),
            out@ == s@.subrange(from as int, i as int),
        decreases to - i,
    {
        out.push(s[i]);
        assert(s@.subrange(from as int, i + 1) =~= s@.subrange(from as int, i as int).push(
            s@[i as int],
        ));
        i += 1;
    }
    out
}

/// The first index at or after `from` at which `s` holds `c`; the length of `s` if there is none.
pub open spec fn find_from(s: Seq<char>, from: int, c: char) -> int
    decreases s.len() - from,
{
    if from < 0 || from >= s.len() || s[from] == c {
        from
    } else {
        find_from(s, from + 1, c)
    }
}

/// Finds the first `c` at or after `from`.
pub fn index_of_from(s: &Vec<char>, from: usize, c: char) -> (r: usize)
    requires
        from <= s@.len(),
    ensures
        r == find_from(s@, from as int, c),
        from <= r <= s@.len(),
        r < s@.len() ==> s@[r as int] == c,
        forall|k: int| from <= k < r ==> s@[k] != c,
{
    let mut i: usize = from;
    while i < s.len() && s[i] != c
        invariant
            from <= i <= s@.len(),
            find_from(s@, i as int, c) == find_from(s@, from as int, c),
            forall|k: int| from <= k < i ==> s@[k] != c,
        decreases s@.len() - i,
    {
        i += 1;
    }
    i
}

/// The end of the word that holds position `i`: the first white space at or after `i`, or the
/// length of `s`.
pub open spec fn word_end(s: Seq<char>, i: int) -> int
    decreases s.len() - i,
{
    if i < 0 || i >= s.len() || is_space(s[i]) {
        i
    } else {
        word_end(s, i + 1)
    }
}

/// Whether a word begins at position `i`: a character that is no white space, at the start of
/// `s` or right after white space.
pub open spec fn word_starts_at(s: Seq<char>, i: int) -> bool {
    0 <= i < s.len() && !is_space(s[i]) && (i == 0 || is_space(s[i - 1]))
}

/// A field of a line: the positions of its first character and of the end behind its last.
#[derive(Clone, Copy, Debug, PartialEq, Eq, Structural)]
pub struct Span {
    pub start: usize,
    pub end: usize,
}

/// The fields of `s` that begin at or after `i`, in order: its maximal runs of characters that
/// are no white space.
pub open spec fn spans_from(s: Seq<char>, i: int) -> Seq<Span>
    decreases s.len() - i,
{
    if i < 0 || i >= s.len() {
        Seq::empty()
    } else if word_starts_at(s, i) {
        seq![(Span { start: i as usize, end: word_end(s, i) as usize })] + spans_from(s, i + 1)
    } else {
        spans_from(s, i + 1)
    }
}

/// The white-space separated fields of `s`, as positions.
pub open spec fn field_spans(s: Seq<char>) -> Seq<Span> {
    spans_from(s, 0)
}

/// The text of the field `span` of `s`.
pub open spec fn span_text(s: Seq<char>, span: Span) -> Seq<char> {
    s.subrange(span.start as int, span.end as int)
}

/// Finds the end of the word that holds position `i`.
fn find_word_end(s: &Vec<char>, i: usize) -> (r: usize)
    requires
        i < s@.len(),
        !is_space(s@[i as int]),
    ensures
        r == word_end(s@, i as int),
        i < r <= s@.len(),
        forall|k: int| i <= k < r ==> !is_space(s@[k]),
{
    let n: usize = s.len();
    let mut e: usize = i + 1;
    while e < n && !char_is_space(s[e])
        invariant
            n == s@.len(),
            i < e <= n,
            word_end(s@, e as int) == word_end(s@, i as int),
            forall|k: int| i <= k < e ==> !is_space(s@[k]),
        decreases s@.len() - e,
    {
        e += 1;
    }
    e
}

/// Splits a line at white space. Leading and trailing white space gives no field, and a run
/// of white space separates like a single one.
pub fn split_fields(s: &Vec<char>) -> (r: Vec<Span>)
    ensures
        r@ == field_spans(s@),
        forall|k: int| 0 <= k < r@.len() ==> (#[trigger] r@[k]).start < r@[k].end <= s@.len(),
{
    let mut out: Vec<Span> = Vec::new();
    let mut i: usize = 0;
    while i < s.len()
        invariant
            i <= s@.len(),
            out@ + spans_from(s@, i as int) == field_spans(s@),
            forall|k: int| 0 <= k < out@.len() ==> (#[trigger] out@[k]).start < out@[k].end <= s@.len(),
        decreases s@.len() - i,
    {
        let starts = !char_is_space(s[i]) && (i == 0 || char_is_space(s[i - 1]));
        if starts {
            let e = find_word_end(s, i);
            let span = Span { start: i, end: e };
            proof {
                assert(out@.push(span) + spans_from(s@, i + 1) =~= out@ + spans_from(s@, i as int));
            }
            out.push(span);
        }
        i += 1;
    }
    assert(out@ + Seq::<Span>::empty() =~= out@);
    out
}

/// The piece of `s` between its first and its second colon (up to the end where there is no
/// second one); `None` where `s` holds no colon.
pub open spec fn second_piece(s: Seq<char>) -> Option<Seq<char>> {
    let first = find_from(s, 0, ':');
    if first >= s.len() {
        None
    } else {
        Some(s.subrange(first + 1, find_from(s, first + 1, ':')))
    }
}

/// Cuts `s` at its colons and returns the second piece.
pub fn piece_after_colon(s: &Vec<char>) -> (r: Option<Vec<char>>)
    ensures
        r is Some == second_piece(s@) is Some,
        r is Some ==> r->0@ == second_piece(s@)->0,
{
    let first = index_of_from(s, 0, ':');
    if first >= s.len() {
        None
    } else {
        let next = index_of_from(s, first + 1, ':');
        Some(copy_range(s, first + 1, next))
    }
}

} // verus!
