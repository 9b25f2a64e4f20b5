//! Text as a sequence of characters: conversion, scanning and line splitting.

use vstd::prelude::*;
use vstd::slice::slice_subrange;

verus! {

/// Index of the first character of `s` at or after `from` that equals `a` or
/// `b`; the length of `s` where there is none.
pub open spec fn first_of(s: Seq<char>, from: int, a: char, b: char) -> int
    decreases s.len() - from,
{
    if from < 0 || from >= s.len() {
        s.len() as int
    } else if s[from] == a || s[from] == b {
        from
    } else {
        first_of(s, from + 1, a, b)
    }
}

/// `line` without one trailing carriage return.
pub open spec fn without_cr(line: Seq<char>) -> Seq<char> {
    if line.len() > 0 && line.last() == '\r' {
        line.drop_last()
    } else {
        line
    }
}

/// The lines of `text` from position `pos` on. A line ends at a line feed; a
/// carriage return directly before that line feed belongs to the line ending.
/// The last line needs no line feed, and keeps a carriage return at its end.
pub open spec fn lines_from(text: Seq<char>, pos: int) -> Seq<Seq<char>>
    decreases text.len() - pos,
{
    if pos < 0 || pos >= text.len() {
        Seq::empty()
    } else {
        let feed = first_of(text, pos, '\n', '\n');
        if pos <= feed < text.len() {
            seq![without_cr(text.subrange(pos, feed))].add(lines_from(text, feed + 1))
        } else {
            seq![text.subrange(pos, text.len() as int)]
        }
    }
}

/// The lines of `text`.
pub open spec fn lines_of(text: Seq<char>) -> Seq<Seq<char>> {
    lines_from(text, 0)
}

/// The views of a sequence of strings.
pub open spec fn views_of(strings: Seq<String>) -> Seq<Seq<char>> {
    Seq::new(strings.len(), |i: int| strings[i]@)
}

/// `first_of` lies between `from` and the length, no character before it is
/// `a` or `b`, and the character at it is one of them.
pub proof fn lemma_first_of(s: Seq<char>, from: int, a: char, b: char)
    requires
        0 <= from <= s.len(),
    ensures
        from <= first_of(s, from, a, b) <= s.len(),
        forall|k: int| from <= k < first_of(s, from, a, b) ==> s[k] != a && s[k] != b,
        first_of(s, from, a, b) < s.len() ==> s[first_of(s, from, a, b)] == a || s[first_of(
            s,
            from,
            a,
            b,
        )] == b,
    decreases s.len() - from,
{
    if from < s.len() && !(s[from] == a || s[from] == b) {
        lemma_first_of(s, from + 1, a, b);
    }
}

/// The characters of `s`, in order.
pub fn chars_of(s: &str) -> (out: Vec<char>)
    ensures
        out@ == s@,
{
    let mut out: Vec<char> = Vec::new();
    for c in iter: s.chars()
        invariant
            iter.seq() == s@,
            out@ == iter.seq().take(iter.index()),
    {
        out.push(c);
    }
    out
}

/// The string made of `chars`, in order: `String::from_iter` over the slice,
/// which appends each character in turn to an empty string.
#[verifier::external_body]
pub(crate) fn string_of(chars: &[char]) -> (s: String)
    ensures
        s@ == chars@,
{
    String::from_iter(chars.iter())
}

/// The string made of the characters of `chars` from `from` up to `to`.
pub fn string_between(chars: &[char], from: usize, to: usize) -> (s: String)
    requires
        from <= to <= chars.len(),
    ensures
        s@ == chars@.subrange(from as int, to as int),
{
    string_of(slice_subrange(chars, from, to))
}

/// Finds the first character at or after `from` that equals `a` or `b`.
pub fn find_first(chars: &[char], from: usize, a: char, b: char) -> (at: usize)
    requires
        from <= chars.len(),
    ensures
        at == first_of(chars@, from as int, a, b),
{
    let mut at: usize = from;
    while at < chars.len() && chars[at] != a && chars[at] != b
        invariant
            from <= at <= chars.len(),
            first_of(chars@, from as int, a, b) == first_of(chars@, at as int, a, b),
        decreases chars.len() - at,
    {
        at += 1;
    }
    at
}

/// Where the line that starts at `pos` ends, and where the next line starts.
pub(crate) fn next_line(chars: &[char], pos: usize) -> (span: (usize, usize))
    requires
        pos < chars.len(),
    ensures
        pos <= span.0 <= chars.len(),
        span.0 < span.1 <= chars.len() || (span.0 == chars.len() && span.1 == chars.len()),
        pos < span.1,
        lines_from(chars@, pos as int) == seq![chars@.subrange(pos as int, span.0 as int)].add(
            lines_from(chars@, span.1 as int),
        ),
{
    let feed = find_first(chars, pos, '\n', '\n');
    proof {
        lemma_first_of(chars@, pos as int, '\n', '\n');
    }
    if feed < chars.len() {
        let end = if feed > pos && chars[feed - 1] == '\r' {
            feed - 1
        } else {
            feed
        };
        assert(chars@.subrange(pos as int, end as int) == without_cr(
            chars@.subrange(pos as int, feed as int),
        ));
        (end, feed + 1)
    } else {
        assert(lines_from(chars@, chars.len() as int) == Seq::<Seq<char>>::empty());
        (feed, feed)
    }
}

/// Splits `text` into its lines.
pub fn split_lines(text: &str) -> (lines: Vec<String>)
    ensures
        views_of(lines@) == lines_of(text@),
{
    let chars = chars_of(text);
    let mut lines: Vec<String> = Vec::new();
    let mut pos: usize = 0;
    while pos < chars.len()
        invariant
            pos <= chars.len(),
            lines_of(chars@) == views_of(lines@).add(lines_from(chars@, pos as int)),
        decreases chars.len() - pos,
    {
        let (end, next) = next_line(chars.as_slice(), pos);
        let ghost before = views_of(lines@);
        lines.push(string_between(chars.as_slice(), pos, end));
        assert(views_of(lines@) == before.push(chars@.subrange(pos as int, end as int)));
        pos = next;
    }
    assert(lines_from(chars@, pos as int) == Seq::<Seq<char>>::empty());
    lines
}

} // verus!
