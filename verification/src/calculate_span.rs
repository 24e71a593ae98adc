//! The lines of the source that a range of its bytes covers.
use vstd::prelude::*;
use vstd::utf8::encode_utf8;
use crate::ast::Span;
use crate::context::{Context, default_text};
use crate::syntax::SourceRange;

verus! {

/// The number of line feeds among the first `p` bytes.
pub open spec fn line_feeds_before(bytes: Seq<u8>, p: int) -> int
    decreases p,
{
    if p <= 0 || p > bytes.len() {
        0
    } else if bytes[p - 1] == 10u8 {
        line_feeds_before(bytes, p - 1) + 1
    } else {
        line_feeds_before(bytes, p - 1)
    }
}

/// The line, counted from one, that holds the byte at `p`.
pub open spec fn line_of(bytes: Seq<u8>, p: int) -> int {
    line_feeds_before(bytes, p) + 1
}

/// The first line that goes beyond the byte offset `start`, if `start`
/// lies inside the text.
pub open spec fn first_line(bytes: Seq<u8>, start: int) -> Option<int> {
    if 0 <= start < bytes.len() {
        Some(line_of(bytes, start))
    } else {
        None
    }
}

/// The first line that reaches the byte offset `end`, if the text goes
/// that far.
pub open spec fn last_line(bytes: Seq<u8>, end: int) -> Option<int> {
    if bytes.len() == 0 || end > bytes.len() {
        None
    } else if end <= 0 {
        Some(1)
    } else {
        Some(line_of(bytes, end - 1))
    }
}

/// The lines that the bytes `start..end` cover. The search for the first
/// line ends where the last line is found; a line that was not found
/// counts as the other one, and as line one where neither was found.
pub open spec fn span_in(bytes: Seq<u8>, start: int, end: int) -> (int, int) {
    let last = last_line(bytes, end);
    let first = match (first_line(bytes, start), last) {
        (Some(s), Some(e)) => if s <= e {
            Some(s)
        } else {
            None
        },
        (s, _) => s,
    };
    (
        match first {
            Some(s) => s,
            None => 1,
        },
        match (last, first) {
            (Some(e), _) => e,
            (None, Some(s)) => s,
            (None, None) => 1,
        },
    )
}

/// The first and the last line of a span.
pub open spec fn span_lines(span: Span) -> (int, int) {
    (span.line_start as int, span.line_end as int)
}

/// The lines of `source` that the bytes of `range` cover.
pub fn span_of_range(range: SourceRange, source: &str) -> (r: Span)
    ensures
        span_lines(r) == span_in(encode_utf8(source@), range.start as int, range.end as int),
{
    let bytes = source.as_bytes();
    let ghost all = encode_utf8(source@);
    let mut first: Option<usize> = None;
    let mut last: Option<usize> = None;
    let mut feeds: usize = 0;
    let mut i: usize = 0;
    if bytes.len() > 0 && range.end == 0 {
        last = Some(1);
    }
    while i < bytes.len()
        invariant
            i <= bytes.len(),
            bytes@ == all,
            feeds == line_feeds_before(all, i as int),
            feeds <= i,
            range.start < i ==> first.is_some() && first.unwrap() == line_of(
                all,
                range.start as int,
            ),
            range.start >= i ==> first.is_none(),
            range.end == 0 ==> last.is_some() == (bytes.len() > 0),
            range.end == 0 && bytes.len() > 0 ==> last.unwrap() == 1,
            0 < range.end <= i ==> last.is_some() && last.unwrap() == line_of(all, range.end - 1),
            range.end > i ==> last.is_none(),
        decreases bytes.len() - i,
    {
        if i == range.start {
            first = Some(feeds + 1);
        }
        if range.end > 0 && i == range.end - 1 {
            last = Some(feeds + 1);
        }
        if bytes[i] == 10u8 {
            feeds += 1;
        }
        i += 1;
    }
    let first = match (first, last) {
        (Some(s), Some(e)) => if s <= e {
            Some(s)
        } else {
            None
        },
        (s, _) => s,
    };
    Span {
        line_start: match first {
            Some(s) => s,
            None => 1,
        },
        line_end: match (last, first) {
            (Some(e), _) => e,
            (None, Some(s)) => s,
            (None, None) => 1,
        },
    }
}

/// The lines of a text that the bytes of `range` cover; nothing where
/// there is no text.
pub open spec fn located(text: Option<Seq<char>>, range: SourceRange) -> Option<Span> {
    match text {
        Some(text) => {
            let lines = span_in(encode_utf8(text), range.start as int, range.end as int);
            Some(Span { line_start: lines.0 as usize, line_end: lines.1 as usize })
        },
        None => None,
    }
}

/// The lines of the module's own source that the bytes of `range` cover;
/// nothing where the source map has no source.
pub fn calculate_span(range: SourceRange, ctx: &Context) -> (r: Option<Span>)
    ensures
        r == located(default_text(*ctx.compiled), range),
{
    match ctx.default_source() {
        Some(source) => Some(span_of_range(range, source.as_str())),
        None => None,
    }
}

} // verus!
