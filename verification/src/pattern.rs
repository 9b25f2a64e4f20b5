//! The shape of a log line that requests a resource, and the matcher for it.
//!
//! A matching line holds, somewhere in it, a time in square brackets, one
//! space, one character that opens the request, and the request itself:
//! `GET /observabilityapp/d/<identifier>/<slug>`. The match that starts
//! leftmost in the line is the one that counts.

use vstd::prelude::*;
use crate::text::{chars_of, find_first, first_of, lemma_first_of, string_between};

verus! {

/// The three parts of a matching line, as sequences of characters.
pub ghost struct Fields {
    pub timestamp: Seq<char>,
    pub identifier: Seq<char>,
    pub slug: Seq<char>,
}

/// The three parts of a matching line.
#[derive(Debug, PartialEq, Eq)]
pub struct Captures {
    pub timestamp: String,
    pub identifier: String,
    pub slug: String,
}

impl View for Captures {
    type V = Fields;

    open spec fn view(&self) -> Fields {
        Fields { timestamp: self.timestamp@, identifier: self.identifier@, slug: self.slug@ }
    }
}

/// The method and route that precede the identifier.
pub open spec fn request_prefix() -> Seq<char> {
    "GET /observabilityapp/d/"@
}

/// Whether `part` stands in `s` at position `at`.
pub open spec fn stands_at(s: Seq<char>, at: int, part: Seq<char>) -> bool {
    0 <= at && at + part.len() <= s.len() && s.subrange(at, at + part.len()) == part
}

/// The match that starts at position `i` of `s`, if there is one.
///
/// It starts with `[`. The timestamp runs up to the next `]` and is not
/// empty. Then come a space, one character other than a line feed, and the
/// request prefix. The identifier runs up to the next `/` and is not empty.
/// The slug runs up to the next space or `?`, or to the end of `s`, and is not
/// empty.
pub open spec fn match_at(s: Seq<char>, i: int) -> Option<Fields> {
    let close = first_of(s, i + 1, ']', ']');
    let id_start = close + 3 + request_prefix().len();
    let id_end = first_of(s, id_start, '/', '/');
    let slug_start = id_end + 1;
    let slug_end = first_of(s, slug_start, ' ', '?');
    if 0 <= i < s.len() && s[i] == '[' && i + 1 < close && close + 2 < s.len() && s[close + 1]
        == ' ' && s[close + 2] != '\n' && stands_at(s, close + 3, request_prefix()) && id_start
        < id_end < s.len() && slug_start < slug_end {
        Some(
            Fields {
                timestamp: s.subrange(i + 1, close),
                identifier: s.subrange(id_start, id_end),
                slug: s.subrange(slug_start, slug_end),
            },
        )
    } else {
        None
    }
}

/// The first match that starts at or after position `from` of `s`.
pub open spec fn match_from(s: Seq<char>, from: int) -> Option<Fields>
    decreases s.len() - from,
{
    if from < 0 || from >= s.len() {
        None
    } else if match_at(s, from) is Some {
        match_at(s, from)
    } else {
        match_from(s, from + 1)
    }
}

/// What a line yields: its leftmost match, if it has one.
pub open spec fn line_fields(line: Seq<char>) -> Option<Fields> {
    match_from(line, 0)
}

/// Tells whether `part` stands in `chars` at position `at`.
pub fn has_at(chars: &[char], at: usize, part: &[char]) -> (found: bool)
    ensures
        found == stands_at(chars@, at as int, part@),
{
    if at > chars.len() || part.len() > chars.len() - at {
        return false;
    }
    let mut k: usize = 0;
    while k < part.len()
        invariant
            k <= part.len(),
            at + part.len() <= chars.len(),
            chars@.subrange(at as int, at + k) == part@.subrange(0, k as int),
        decreases part.len() - k,
    {
        if chars[at + k] != part[k] {
            assert(chars@.subrange(at as int, at + part.len())[k as int] != part@[k as int]);
            return false;
        }
        assert(chars@.subrange(at as int, at + k + 1) == chars@.subrange(at as int, at + k).push(
            chars@[at + k],
        ));
        assert(part@.subrange(0, k + 1) == part@.subrange(0, k as int).push(part@[k as int]));
        k += 1;
    }
    assert(part@.subrange(0, part.len() as int) == part@);
    true
}

/// Matches at position `i` of `line`; `prefix` is the request prefix.
fn capture_at(line: &[char], i: usize, prefix: &[char]) -> (found: Option<Captures>)
    requires
        i < line.len(),
        prefix@ == request_prefix(),
    ensures
        found is Some <==> match_at(line@, i as int) is Some,
        found matches Some(c) ==> Some(c@) == match_at(line@, i as int),
{
    let len = line.len();
    if line[i] != '[' {
        return None;
    }
    let close = find_first(line, i + 1, ']', ']');
    proof {
        lemma_first_of(line@, i + 1, ']', ']');
    }
    if close == i + 1 || close >= len || len - close < 3 {
        return None;
    }
    if line[close + 1] != ' ' || line[close + 2] == '\n' {
        return None;
    }
    if !has_at(line, close + 3, prefix) {
        return None;
    }
    let id_start = close + 3 + prefix.len();
    let id_end = find_first(line, id_start, '/', '/');
    proof {
        lemma_first_of(line@, id_start as int, '/', '/');
    }
    if id_end == id_start || id_end >= len {
        return None;
    }
    let slug_start = id_end + 1;
    let slug_end = find_first(line, slug_start, ' ', '?');
    proof {
        lemma_first_of(line@, slug_start as int, ' ', '?');
    }
    if slug_end == slug_start {
        return None;
    }
    Some(
        Captures {
            timestamp: string_between(line, i + 1, close),
            identifier: string_between(line, id_start, id_end),
            slug: string_between(line, slug_start, slug_end),
        },
    )
}

/// The leftmost match in `line`; `prefix` is the request prefix.
pub(crate) fn capture_chars(line: &[char], prefix: &[char]) -> (found: Option<Captures>)
    requires
        prefix@ == request_prefix(),
    ensures
        found is Some <==> line_fields(line@) is Some,
        found matches Some(c) ==> Some(c@) == line_fields(line@),
{
    let mut i: usize = 0;
    while i < line.len()
        invariant
            i <= line.len(),
            prefix@ == request_prefix(),
            line_fields(line@) == match_from(line@, i as int),
        decreases line.len() - i,
    {
        let found = capture_at(line, i, prefix);
        if found.is_some() {
            return found;
        }
        i += 1;
    }
    None
}

/// The characters of the request prefix.
pub(crate) fn request_prefix_chars() -> (prefix: Vec<char>)
    ensures
        prefix@ == request_prefix(),
{
    chars_of("GET /observabilityapp/d/")
}

/// Matches one line of a log: the timestamp, identifier and slug of its
/// leftmost match, or `None` where the line has no match.
pub fn match_line(line: &str) -> (found: Option<Captures>)
    ensures
        found is Some <==> line_fields(line@) is Some,
        found matches Some(c) ==> Some(c@) == line_fields(line@),
{
    let chars = chars_of(line);
    let prefix = request_prefix_chars();
    capture_chars(chars.as_slice(), prefix.as_slice())
}

} // verus!
