//! Doc comments: their text, freed of the comment markers, and their
//! links, resolved to the tokens of the declarations they lead to.
use vstd::prelude::*;
use pulldown_cmark as md;
use crate::ast::{DocComment, DocLink, DocView, LinkView, comment_view};
use crate::context::{Context, ResolveTarget, Scope, opt_text, resolution};
use crate::intra_doc_link::{IntraDocLink, link_text};
use crate::text::string_of;
use crate::extract_comments::{
    has_marker, inner_marker, line_ranges, outer_marker, ranges_of, trimmed_lines,
};
use crate::text::{chars_of, push_char};

verus! {

/// The lines among `lines` that begin with the marker, each without it.
pub open spec fn comment_lines(lines: Seq<Seq<char>>, marker: Seq<char>) -> Seq<Seq<char>>
    decreases lines.len(),
{
    if lines.len() == 0 {
        Seq::empty()
    } else {
        let before = comment_lines(lines.drop_last(), marker);
        if has_marker(lines.last(), marker) {
            before.push(lines.last().subrange(3, lines.last().len() as int))
        } else {
            before
        }
    }
}

/// The lines joined by line feeds.
pub open spec fn joined(lines: Seq<Seq<char>>) -> Seq<char>
    decreases lines.len(),
{
    if lines.len() == 0 {
        Seq::empty()
    } else if lines.len() == 1 {
        lines[0]
    } else {
        joined(lines.drop_last()).push('\n') + lines.last()
    }
}

/// The text of the doc comment in `raw`: its lines that begin, after
/// white space, with the marker, without the marker and joined by line
/// feeds; nothing where no line begins with the marker.
pub open spec fn doc_text(raw: Seq<char>, marker: Seq<char>) -> Option<Seq<char>> {
    let body = comment_lines(trimmed_lines(raw, 0), marker);
    if body.len() == 0 {
        None
    } else {
        Some(joined(body))
    }
}

/// The text of the doc comment in `raw`, whose lines begin with `//` and
/// `third`.
pub fn comment_text(raw: &str, third: char) -> (r: Option<String>)
    ensures
        opt_text(r) == doc_text(raw@, seq!['/', '/', third]),
{
    let chars = chars_of(raw);
    let ranges = line_ranges(&chars);
    let ghost lines = trimmed_lines(chars@, 0);
    let ghost marker = seq!['/', '/', third];
    let mut text = String::new();
    let mut any = false;
    let mut i: usize = 0;
    assert(lines.subrange(0, 0) =~= Seq::<Seq<char>>::empty());
    while i < ranges.len()
        invariant
            i <= ranges.len(),
            chars@ == raw@,
            lines == trimmed_lines(chars@, 0),
            marker == seq!['/', '/', third],
            ranges_of(ranges@, chars@, lines),
            any == (comment_lines(lines.subrange(0, i as int), marker).len() > 0),
            text@ == joined(comment_lines(lines.subrange(0, i as int), marker)),
        decreases ranges.len() - i,
    {
        let start = ranges[i].start;
        let stop = ranges[i].stop;
        let ghost done = comment_lines(lines.subrange(0, i as int), marker);
        proof {
            let next = lines.subrange(0, i + 1);
            assert(next.drop_last() =~= lines.subrange(0, i as int));
            assert(next.last() == lines[i as int]);
            assert(lines[i as int] == chars@.subrange(start as int, stop as int));
        }
        if stop - start >= 3 && chars[start] == '/' && chars[start + 1] == '/' && chars[start + 2]
            == third {
            proof {
                let line = lines[i as int];
                assert(line.subrange(0, 3) =~= marker);
            }
            if any {
                push_char(&mut text, '\n');
            }
            let ghost before = text@;
            let mut k: usize = start + 3;
            assert(text@ =~= before + chars@.subrange(start + 3, k as int));
            while k < stop
                invariant
                    start + 3 <= k <= stop <= chars.len(),
                    text@ == before + chars@.subrange(start + 3, k as int),
                decreases stop - k,
            {
                push_char(&mut text, chars[k]);
                assert(text@ =~= before + chars@.subrange(start + 3, k + 1));
                k += 1;
            }
            proof {
                let line = lines[i as int];
                let body = line.subrange(3, line.len() as int);
                assert(body =~= chars@.subrange(start + 3, stop as int));
                let grown = done.push(body);
                assert(grown.drop_last() =~= done);
                assert(grown.last() == body);
                if !any {
                    assert(before + body =~= body);
                }
            }
            any = true;
        } else {
            proof {
                let line = lines[i as int];
                if line.len() >= 3 {
                    assert(line.subrange(0, 3)[0] == chars@[start as int]);
                    assert(line.subrange(0, 3)[1] == chars@[start + 1]);
                    assert(line.subrange(0, 3)[2] == chars@[start + 2]);
                    assert(marker[0] == '/' && marker[1] == '/' && marker[2] == third);
                }
            }
        }
        i += 1;
    }
    assert(lines.subrange(0, ranges.len() as int) =~= lines);
    if any {
        Some(text)
    } else {
        None
    }
}

/// The position of the first character of `s[from..to]` that is no
/// backtick, or `to`.
pub open spec fn skip_ticks(s: Seq<char>, from: int, to: int) -> int
    decreases to - from,
{
    if from < to && 0 <= from < s.len() && s[from] == '`' {
        skip_ticks(s, from + 1, to)
    } else {
        from
    }
}

/// The position behind the last character of `s[from..to]` that is no
/// backtick, or `from`.
pub open spec fn drop_ticks(s: Seq<char>, from: int, to: int) -> int
    decreases to - from,
{
    if from < to && 0 < to <= s.len() && s[to - 1] == '`' {
        drop_ticks(s, from, to - 1)
    } else {
        to
    }
}

/// A text without the backticks at its head and at its end.
pub open spec fn without_ticks(s: Seq<char>) -> Seq<char> {
    let from = skip_ticks(s, 0, s.len() as int);
    s.subrange(from, drop_ticks(s, from, s.len() as int))
}

/// What a reference that has no definition in the comment leads to: the
/// reference without the backticks around it.
pub fn link_target(reference: &str) -> (r: String)
    ensures
        r@ == without_ticks(reference@),
{
    let chars = chars_of(reference);
    let mut from: usize = 0;
    while from < chars.len() && chars[from] == '`'
        invariant
            from <= chars.len(),
            skip_ticks(chars@, 0, chars@.len() as int) == skip_ticks(
                chars@,
                from as int,
                chars@.len() as int,
            ),
        decreases chars.len() - from,
    {
        from += 1;
    }
    let mut to: usize = chars.len();
    while from < to && chars[to - 1] == '`'
        invariant
            from <= to <= chars.len(),
            drop_ticks(chars@, from as int, chars@.len() as int) == drop_ticks(
                chars@,
                from as int,
                to as int,
            ),
        decreases to - from,
    {
        to -= 1;
    }
    string_of(&chars, from, to)
}

/// What the markdown parser makes of a text, event by event: for the
/// start of a link what the link leads to, nothing for any other event.
/// A reference without a definition counts as a link to the reference
/// without the backticks around it.
pub uninterp spec fn markdown_links(text: Seq<char>) -> Seq<Option<Seq<char>>>;

/// The texts of a list of optional strings.
pub open spec fn opt_texts(v: Seq<Option<String>>) -> Seq<Option<Seq<char>>> {
    Seq::new(v.len(), |i: int| opt_text(v[i]))
}

/// `pulldown_cmark::Parser::new_with_broken_link_callback`, run to its
/// end with no option enabled: one entry for each event of the text, in
/// order, with the destination of each link that starts.
#[verifier::external_body]
pub(crate) fn parse_links(text: &str) -> (r: Vec<Option<String>>)
    ensures
        opt_texts(r@) == markdown_links(text@),
{
    let callback = |link: md::BrokenLink<'_>| {
        let target = link_target(link.reference.as_ref());
        Some((md::CowStr::from(target.clone()), md::CowStr::from(target)))
    };
    md::Parser::new_with_broken_link_callback(text, md::Options::empty(), Some(callback))
        .map(|event| match event {
            md::Event::Start(md::Tag::Link { dest_url, .. }) => Some(dest_url.to_string()),
            _ => None,
        })
        .collect()
}

/// The token of the declaration that a link leads to, where the target
/// of the link, taken as a raw name, resolves.
pub open spec fn link_token(env: Scope, target: Seq<char>) -> Option<Seq<char>> {
    match resolution(env.local, env.compiled, env.path, env.dependencies, true, target) {
        Some((name, kind, path)) => Some(link_text(path, kind, name)),
        None => None,
    }
}

/// The links among the events of a parsed comment, in order, each with
/// the token of what it resolves to.
pub open spec fn resolved_links(events: Seq<Option<Seq<char>>>, env: Scope) -> Seq<LinkView>
    decreases events.len(),
{
    if events.len() == 0 {
        Seq::empty()
    } else {
        let before = resolved_links(events.drop_last(), env);
        match events.last() {
            Some(target) => before.push(LinkView { target, token: link_token(env, target) }),
            None => before,
        }
    }
}

/// The doc comment with the given text whose parse gave the given
/// events: nothing where the parse gave no event, else the text with
/// its resolved links.
pub open spec fn comment_of(text: Seq<char>, events: Seq<Option<Seq<char>>>, env: Scope) -> Option<
    DocView,
> {
    if events.len() == 0 {
        None
    } else {
        Some(DocView { text, links: resolved_links(events, env) })
    }
}

/// The doc comment in `raw`: nothing where no line begins with the
/// marker or the markdown parser finds nothing in the text; else the
/// text with its links resolved.
pub open spec fn documented(raw: Seq<char>, marker: Seq<char>, env: Scope) -> Option<DocView> {
    match doc_text(raw, marker) {
        Some(text) => comment_of(text, markdown_links(text), env),
        None => None,
    }
}

/// The doc comment with the given text, from the events that the parse
/// of the text gave.
pub fn comment_from_events(text: String, events: &Vec<Option<String>>, ctx: &Context) -> (r: Option<
    DocComment,
>)
    ensures
        comment_view(r) == comment_of(text@, opt_texts(events@), ctx.scope()),
{
    if events.len() == 0 {
        return None;
    }
    let ghost all = opt_texts(events@);
    let ghost env = ctx.scope();
    let mut links: Vec<DocLink> = Vec::new();
    let mut i: usize = 0;
    assert(all.subrange(0, 0) =~= Seq::<Option<Seq<char>>>::empty());
    while i < events.len()
        invariant
            i <= events.len(),
            all == opt_texts(events@),
            env == ctx.scope(),
            Seq::new(links@.len(), |k: int| links@[k]@) == resolved_links(
                all.subrange(0, i as int),
                env,
            ),
        decreases events.len() - i,
    {
        proof {
            let next = all.subrange(0, i + 1);
            assert(next.drop_last() =~= all.subrange(0, i as int));
            assert(next.last() == opt_text(events@[i as int]));
        }
        match &events[i] {
            Some(target) => {
                let token = match ctx.resolve_reference(ResolveTarget::Name(target.as_str())) {
                    Some((name, kind, def_path)) => Some(
                        IntraDocLink { def_path, kind, name }.to_text(),
                    ),
                    None => None,
                };
                let ghost before = Seq::new(links@.len(), |k: int| links@[k]@);
                let link = DocLink { target: target.clone(), token };
                links.push(link);
                assert(Seq::new(links@.len(), |k: int| links@[k]@) =~= before.push(link@));
            },
            None => {},
        }
        i += 1;
    }
    assert(all.subrange(0, events.len() as int) =~= all);
    Some(DocComment { text, links })
}

/// The doc comment in `raw`, whose lines begin with `//` and `third`.
pub fn build_doc_comment(raw: &str, third: char, ctx: &Context) -> (r: Option<DocComment>)
    ensures
        comment_view(r) == documented(raw@, seq!['/', '/', third], ctx.scope()),
{
    match comment_text(raw, third) {
        Some(text) => {
            let events = parse_links(text.as_str());
            comment_from_events(text, &events, ctx)
        },
        None => None,
    }
}

/// The doc comment of a module, from its `//!` lines.
pub fn build_inner_doc_comment(raw_comment: &str, ctx: &Context) -> (r: Option<DocComment>)
    ensures
        comment_view(r) == documented(raw_comment@, inner_marker(), ctx.scope()),
{
    build_doc_comment(raw_comment, '!', ctx)
}

/// The doc comment of a declaration, from its `///` lines.
pub fn build_outer_doc_comment(raw_comment: &str, ctx: &Context) -> (r: Option<DocComment>)
    ensures
        comment_view(r) == documented(raw_comment@, outer_marker(), ctx.scope()),
{
    build_doc_comment(raw_comment, '/', ctx)
}

} // verus!
