//! Doc comments as they stand in the source text: the `//!` lines at the
//! head of a module and the `///` lines right above a declaration.
use vstd::prelude::*;
use crate::ast::Span;
use crate::text::{chars_of, push_char};

verus! {

/// The characters with the Unicode property `White_Space`.
pub open spec fn is_white_space(c: char) -> bool {
    let u = c as u32;
    (0x09 <= u <= 0x0D) || u == 0x20 || u == 0x85 || u == 0xA0 || u == 0x1680 || (0x2000 <= u
        <= 0x200A) || u == 0x2028 || u == 0x2029 || u == 0x202F || u == 0x205F || u == 0x3000
}

/// Whether a character is white space.
pub fn white_space(c: char) -> (r: bool)
    ensures
        r == is_white_space(c),
{
    let u = c as u32;
    (0x09 <= u && u <= 0x0D) || u == 0x20 || u == 0x85 || u == 0xA0 || u == 0x1680 || (0x2000 <= u
        && u <= 0x200A) || u == 0x2028 || u == 0x2029 || u == 0x202F || u == 0x205F || u == 0x3000
}

/// The position of the first line feed of `s` at or after `from`, or the
/// length of `s` where there is none.
pub open spec fn next_break(s: Seq<char>, from: int) -> int
    decreases s.len() - from,
{
    if from < 0 || from >= s.len() {
        s.len() as int
    } else if s[from] == '\n' {
        from
    } else {
        next_break(s, from + 1)
    }
}

/// The line that runs from `from` to the line break at `end`: a carriage
/// return right before a line feed belongs to the break.
pub open spec fn line_stop(s: Seq<char>, from: int, end: int) -> int {
    if end < s.len() && from < end && s[end - 1] == '\r' {
        end - 1
    } else {
        end
    }
}

/// The position of the first character of `s[from..to]` that is no white
/// space, or `to`.
pub open spec fn skip_space(s: Seq<char>, from: int, to: int) -> int
    decreases to - from,
{
    if from < to && 0 <= from < s.len() && is_white_space(s[from]) {
        skip_space(s, from + 1, to)
    } else {
        from
    }
}

/// The lines of `s` from position `from` on, each without leading white
/// space and without its line break. A text that ends in a line break has
/// no empty line after it.
pub open spec fn trimmed_lines(s: Seq<char>, from: int) -> Seq<Seq<char>>
    decreases s.len() - from,
{
    if from < 0 || from >= s.len() {
        Seq::empty()
    } else {
        let end = next_break(s, from);
        let stop = line_stop(s, from, end);
        let line = s.subrange(skip_space(s, from, stop), stop);
        if end < from || end >= s.len() {
            seq![line]
        } else {
            seq![line] + trimmed_lines(s, end + 1)
        }
    }
}

/// Whether `line` begins with the three characters of `marker`.
pub open spec fn has_marker(line: Seq<char>, marker: Seq<char>) -> bool {
    marker.len() == 3 && line.len() >= 3 && line.subrange(0, 3) == marker
}

/// The head comment of a list of trimmed lines: the lines that begin with
/// the marker, each followed by a line feed, up to the first line that is
/// neither such a line nor empty.
pub open spec fn head_comment(lines: Seq<Seq<char>>, marker: Seq<char>) -> Seq<char>
    decreases lines.len(),
{
    if lines.len() == 0 {
        Seq::empty()
    } else if has_marker(lines[0], marker) {
        lines[0].push('\n') + head_comment(lines.drop_first(), marker)
    } else if lines[0].len() == 0 {
        head_comment(lines.drop_first(), marker)
    } else {
        Seq::empty()
    }
}

/// The comment above line `n + 1` of a list of trimmed lines: going up
/// from line `n`, the lines that begin with the marker, in the order of
/// the text and each followed by a line feed, up to the first line that
/// is neither such a line nor empty.
pub open spec fn above_comment(lines: Seq<Seq<char>>, n: int, marker: Seq<char>) -> Seq<char>
    decreases n,
{
    if n <= 0 || n > lines.len() {
        Seq::empty()
    } else if has_marker(lines[n - 1], marker) {
        above_comment(lines, n - 1, marker) + lines[n - 1].push('\n')
    } else if lines[n - 1].len() == 0 {
        above_comment(lines, n - 1, marker)
    } else {
        Seq::empty()
    }
}

/// The marker of a module's own doc comment.
pub open spec fn inner_marker() -> Seq<char> {
    seq!['/', '/', '!']
}

/// The marker of a declaration's doc comment.
pub open spec fn outer_marker() -> Seq<char> {
    seq!['/', '/', '/']
}

/// The number of lines of a text that stand before line `line_start`.
pub open spec fn lines_before(count: int, line_start: int) -> int {
    if line_start <= 0 {
        0
    } else if line_start - 1 < count {
        line_start - 1
    } else {
        count
    }
}

/// One line of a text: where it starts after its leading white space and
/// where it stops.
pub struct LineRange {
    pub start: usize,
    pub stop: usize,
}

/// Whether the ranges are those of the trimmed lines of `s`.
pub open spec fn ranges_of(ranges: Seq<LineRange>, s: Seq<char>, lines: Seq<Seq<char>>) -> bool {
    &&& ranges.len() == lines.len()
    &&& forall|k: int|
        #![trigger lines[k]]
        #![trigger ranges[k]]
        0 <= k < ranges.len() ==> ranges[k].start <= ranges[k].stop <= s.len() && lines[k]
            == s.subrange(ranges[k].start as int, ranges[k].stop as int)
}

/// The position of the next line feed at or after `from`.
fn find_break(chars: &Vec<char>, from: usize) -> (r: usize)
    requires
        from <= chars.len(),
    ensures
        r == next_break(chars@, from as int),
        from <= r <= chars.len(),
{
    let mut i: usize = from;
    while i < chars.len() && chars[i] != '\n'
        invariant
            from <= i <= chars.len(),
            next_break(chars@, from as int) == next_break(chars@, i as int),
        decreases chars.len() - i,
    {
        i += 1;
    }
    i
}

/// The position of the first character of `chars[from..to]` that is no white space.
fn find_text(chars: &Vec<char>, from: usize, to: usize) -> (r: usize)
    requires
        from <= to <= chars.len(),
    ensures
        r == skip_space(chars@, from as int, to as int),
        from <= r <= to,
{
    let mut i: usize = from;
    while i < to && white_space(chars[i])
        invariant
            from <= i <= to <= chars.len(),
            skip_space(chars@, from as int, to as int) == skip_space(chars@, i as int, to as int),
        decreases to - i,
    {
        i += 1;
    }
    i
}

/// The trimmed lines of a text, as ranges of its characters.
pub fn line_ranges(chars: &Vec<char>) -> (r: Vec<LineRange>)
    ensures
        ranges_of(r@, chars@, trimmed_lines(chars@, 0)),
{
    let mut r: Vec<LineRange> = Vec::new();
    let mut pos: usize = 0;
    let ghost mut done: Seq<Seq<char>> = Seq::empty();
    while pos < chars.len()
        invariant
            pos <= chars.len(),
            ranges_of(r@, chars@, done),
            trimmed_lines(chars@, 0) == done + trimmed_lines(chars@, pos as int),
        decreases chars.len() - pos,
    {
        let end = find_break(chars, pos);
        let stop = if end < chars.len() && pos < end && chars[end - 1] == '\r' {
            end - 1
        } else {
            end
        };
        let start = find_text(chars, pos, stop);
        let ghost line = chars@.subrange(start as int, stop as int);
        let ghost earlier = r@;
        let ghost old_done = done;
        r.push(LineRange { start, stop });
        proof {
            done = old_done.push(line);
            assert forall|k: int|
                #![trigger done[k]]
                #![trigger r@[k]]
                0 <= k < r@.len() implies r@[k].start <= r@[k].stop <= chars@.len() && done[k]
                == chars@.subrange(r@[k].start as int, r@[k].stop as int) by {
                if k < earlier.len() {
                    assert(r@[k] == earlier[k]);
                    assert(old_done[k] == chars@.subrange(
                        earlier[k].start as int,
                        earlier[k].stop as int,
                    ));
                }
            }
            if end < chars.len() {
                assert(old_done + (seq![line] + trimmed_lines(chars@, end + 1)) =~= done
                    + trimmed_lines(chars@, end + 1));
            } else {
                assert(old_done + seq![line] =~= done + trimmed_lines(chars@, end as int));
            }
        }
        if end < chars.len() {
            pos = end + 1;
        } else {
            pos = end;
        }
    }
    assert(done + trimmed_lines(chars@, pos as int) =~= done);
    r
}

/// Whether the line in `chars[start..stop]` begins with the marker
/// `//` and the character `third`.
fn line_has_marker(chars: &Vec<char>, start: usize, stop: usize, third: char) -> (r: bool)
    requires
        start <= stop <= chars.len(),
    ensures
        r == has_marker(chars@.subrange(start as int, stop as int), seq!['/', '/', third]),
{
    let ghost line = chars@.subrange(start as int, stop as int);
    let ghost marker = seq!['/', '/', third];
    if stop - start < 3 {
        return false;
    }
    let r = chars[start] == '/' && chars[start + 1] == '/' && chars[start + 2] == third;
    proof {
        assert(line.subrange(0, 3)[0] == chars@[start as int]);
        assert(line.subrange(0, 3)[1] == chars@[start + 1]);
        assert(line.subrange(0, 3)[2] == chars@[start + 2]);
        if r {
            assert(line.subrange(0, 3) =~= marker);
        } else {
            assert(marker[0] == '/' && marker[1] == '/' && marker[2] == third);
        }
    }
    r
}

/// The doc comment at the head of a module's source: the leading lines
/// that begin, after white space, with `//!`, each with a line feed
/// behind it; empty lines between them are passed over, and the first
/// other line ends the comment.
pub fn extract_comments_inner(source: &str) -> (r: String)
    ensures
        r@ == head_comment(trimmed_lines(source@, 0), inner_marker()),
{
    let chars = chars_of(source);
    let ranges = line_ranges(&chars);
    let ghost lines = trimmed_lines(chars@, 0);
    let mut comments = String::new();
    let mut i: usize = 0;
    proof {
        assert(lines.subrange(0, lines.len() as int) =~= lines);
        assert(comments@ + head_comment(lines, inner_marker()) =~= head_comment(
            lines,
            inner_marker(),
        ));
    }
    while i < ranges.len()
        invariant
            i <= ranges.len(),
            chars@ == source@,
            lines == trimmed_lines(chars@, 0),
            ranges_of(ranges@, chars@, lines),
            head_comment(lines, inner_marker()) == comments@ + head_comment(
                lines.subrange(i as int, lines.len() as int),
                inner_marker(),
            ),
        decreases ranges.len() - i,
    {
        let start = ranges[i].start;
        let stop = ranges[i].stop;
        let ghost rest = lines.subrange(i as int, lines.len() as int);
        proof {
            assert(rest[0] == lines[i as int]);
            assert(rest.drop_first() =~= lines.subrange(i + 1, lines.len() as int));
            assert(lines[i as int] == chars@.subrange(
                ranges@[i as int].start as int,
                ranges@[i as int].stop as int,
            ));
            assert(start <= stop <= chars@.len());
        }
        if line_has_marker(&chars, start, stop, '!') {
            let ghost before = comments@;
            let mut k: usize = start;
            assert(comments@ =~= before + chars@.subrange(start as int, start as int));
            while k < stop
                invariant
                    start <= k <= stop <= chars.len(),
                    comments@ == before + chars@.subrange(start as int, k as int),
                decreases stop - k,
            {
                push_char(&mut comments, chars[k]);
                assert(comments@ =~= before + chars@.subrange(start as int, k + 1));
                k += 1;
            }
            push_char(&mut comments, '\n');
            assert(comments@ + head_comment(rest.drop_first(), inner_marker()) =~= before + (
            rest[0].push('\n') + head_comment(rest.drop_first(), inner_marker())));
        } else if start != stop {
            assert(rest[0].len() == stop - start);
            assert(!has_marker(rest[0], inner_marker()));
            assert(head_comment(rest, inner_marker()) =~= Seq::<char>::empty());
            assert(comments@ + Seq::<char>::empty() =~= comments@);
            return comments;
        }
        i += 1;
    }
    assert(lines.subrange(i as int, lines.len() as int) =~= Seq::<Seq<char>>::empty());
    assert(comments@ + Seq::<char>::empty() =~= comments@);
    comments
}

/// The doc comment of the declaration that starts at line
/// `item_span.line_start`: going up from the line before it, the lines
/// that begin, after white space, with `///`, in the order of the text
/// and each with a line feed behind it; empty lines between them are
/// passed over, and the first other line ends the comment.
pub fn extract_comments_outer(item_span: Span, source: &str) -> (r: String)
    ensures
        r@ == above_comment(
            trimmed_lines(source@, 0),
            lines_before(
                trimmed_lines(source@, 0).len() as int,
                item_span.line_start as int,
            ),
            outer_marker(),
        ),
{
    let chars = chars_of(source);
    let ranges = line_ranges(&chars);
    let ghost lines = trimmed_lines(chars@, 0);
    let first: usize = if item_span.line_start == 0 {
        0
    } else if item_span.line_start - 1 < ranges.len() {
        item_span.line_start - 1
    } else {
        ranges.len()
    };
    let mut found: Vec<usize> = Vec::new();
    let mut n: usize = first;
    let ghost mut tail: Seq<char> = Seq::empty();
    let mut open = true;
    while open && n > 0
        invariant
            n <= first <= ranges.len(),
            chars@ == source@,
            lines == trimmed_lines(chars@, 0),
            ranges_of(ranges@, chars@, lines),
            open ==> above_comment(lines, first as int, outer_marker()) == above_comment(
                lines,
                n as int,
                outer_marker(),
            ) + tail,
            !open ==> above_comment(lines, first as int, outer_marker()) == tail,
            tail == picked_text(found@, ranges@, chars@, found@.len() as int),
            forall|k: int| 0 <= k < found@.len() ==> found@[k] < ranges.len(),
        decreases n, open as int,
    {
        let start = ranges[n - 1].start;
        let stop = ranges[n - 1].stop;
        proof {
            assert(lines[n - 1] == chars@.subrange(
                ranges@[n - 1].start as int,
                ranges@[n - 1].stop as int,
            ));
            assert(start <= stop <= chars@.len());
        }
        if line_has_marker(&chars, start, stop, '/') {
            proof {
                let line = lines[n - 1];
                lemma_picked_prefix(found@, (n - 1) as usize, ranges@, chars@, found@.len() as int);
                assert(above_comment(lines, n - 1, outer_marker()) + line.push('\n') + tail
                    =~= above_comment(lines, n - 1, outer_marker()) + (line.push('\n') + tail));
                tail = line.push('\n') + tail;
            }
            found.push(n - 1);
            n -= 1;
        } else if start != stop {
            open = false;
            assert(Seq::<char>::empty() + tail =~= tail);
        } else {
            n -= 1;
        }
    }
    assert(Seq::<char>::empty() + tail =~= tail);
    assert(above_comment(lines, first as int, outer_marker()) == tail);
    let mut comments = String::new();
    let mut j: usize = found.len();
    assert(comments@ + tail =~= tail);
    while j > 0
        invariant
            j <= found.len(),
            ranges_of(ranges@, chars@, lines),
            forall|k: int| 0 <= k < found@.len() ==> found@[k] < ranges.len(),
            comments@ + picked_text(found@, ranges@, chars@, j as int) == tail,
        decreases j,
    {
        let line = found[j - 1];
        assert(found@[j - 1] < ranges.len());
        let start = ranges[line].start;
        let stop = ranges[line].stop;
        let ghost before = comments@;
        let mut k: usize = start;
        proof {
            assert(lines[line as int] == chars@.subrange(
                ranges@[line as int].start as int,
                ranges@[line as int].stop as int,
            ));
            assert(comments@ =~= before + chars@.subrange(start as int, start as int));
        }
        while k < stop
            invariant
                start <= k <= stop <= chars.len(),
                comments@ == before + chars@.subrange(start as int, k as int),
            decreases stop - k,
        {
            push_char(&mut comments, chars[k]);
            assert(comments@ =~= before + chars@.subrange(start as int, k + 1));
            k += 1;
        }
        push_char(&mut comments, '\n');
        assert(comments@ + picked_text(found@, ranges@, chars@, j - 1) =~= before + (chars@.subrange(
            start as int,
            stop as int,
        ).push('\n') + picked_text(found@, ranges@, chars@, j - 1)));
        j -= 1;
    }
    assert(comments@ + Seq::<char>::empty() =~= comments@);
    comments
}

/// The text of the first `n` picked lines, the last picked first, each
/// followed by a line feed.
pub open spec fn picked_text(
    found: Seq<usize>,
    ranges: Seq<LineRange>,
    s: Seq<char>,
    n: int,
) -> Seq<char>
    decreases n,
{
    if n <= 0 || n > found.len() {
        Seq::empty()
    } else {
        let range = ranges[found[n - 1] as int];
        s.subrange(range.start as int, range.stop as int).push('\n') + picked_text(
            found,
            ranges,
            s,
            n - 1,
        )
    }
}

/// The text of the first `n` picked lines does not depend on what was
/// picked after them.
proof fn lemma_picked_prefix(
    found: Seq<usize>,
    next: usize,
    ranges: Seq<LineRange>,
    s: Seq<char>,
    n: int,
)
    requires
        0 <= n <= found.len(),
    ensures
        picked_text(found.push(next), ranges, s, n) == picked_text(found, ranges, s, n),
    decreases n,
{
    if n > 0 {
        lemma_picked_prefix(found, next, ranges, s, n - 1);
        assert(found.push(next)[n - 1] == found[n - 1]);
    }
}

} // verus!
