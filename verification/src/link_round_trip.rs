//! Tokens are read back as what they were written for.
use vstd::prelude::*;
use crate::ast::{ItemKind, PathView, VersionView};
use crate::display::kind_word;
use crate::intra_doc_link::{
    behind_markers, decimal, joined_path, lemma_absolute_parts_are_read_back,
    lemma_kind_word_is_read_back, link_marker, link_of_parts, link_text, marker_at, next_char,
    next_pair, parsed_link, pieces, segments, semver_parsed, version_text, version_word,
};

verus! {

/// Whether a text holds the character nowhere.
pub open spec fn free_of(s: Seq<char>, c: char) -> bool {
    forall|j: int| 0 <= j < s.len() ==> s[j] != c
}

/// Whether no text of a list holds the character.
pub open spec fn all_free_of(list: Seq<Seq<char>>, c: char) -> bool {
    forall|i: int| 0 <= i < list.len() ==> free_of(#[trigger] list[i], c)
}

/// Behind a prefix the next `::` is found where it is found without the prefix.
pub proof fn lemma_next_pair_shift(p: Seq<char>, u: Seq<char>, i: int)
    requires
        0 <= i <= u.len(),
    ensures
        next_pair(p + u, p.len() + i) == p.len() + next_pair(u, i),
    decreases u.len() - i,
{
    let t = p + u;
    if i + 1 >= u.len() {
    } else {
        assert(t[p.len() + i] == u[i]);
        assert(t[p.len() + i + 1] == u[i + 1]);
        if !(u[i] == ':' && u[i + 1] == ':') {
            lemma_next_pair_shift(p, u, i + 1);
        }
    }
}

/// The position of the next `::` lies between where the search starts and
/// the end of the text.
pub proof fn lemma_next_pair_bounds(s: Seq<char>, from: int)
    requires
        0 <= from <= s.len(),
    ensures
        from <= next_pair(s, from) <= s.len(),
        next_pair(s, from) < s.len() ==> next_pair(s, from) + 1 < s.len(),
    decreases s.len() - from,
{
    if !(from + 1 >= s.len()) && !(s[from] == ':' && s[from + 1] == ':') {
        lemma_next_pair_bounds(s, from + 1);
    }
}

/// Behind a prefix a text is split as it is split without the prefix.
pub proof fn lemma_segments_shift(p: Seq<char>, u: Seq<char>, i: int)
    requires
        0 <= i <= u.len(),
    ensures
        segments(p + u, p.len() + i) == segments(u, i),
    decreases u.len() - i,
{
    let t = p + u;
    lemma_next_pair_shift(p, u, i);
    lemma_next_pair_bounds(u, i);
    let end = next_pair(u, i);
    if end + 1 >= u.len() {
        assert(t.subrange(p.len() + i, t.len() as int) =~= u.subrange(i, u.len() as int));
    } else {
        assert(t.subrange(p.len() + i, p.len() + end) =~= u.subrange(i, end));
        lemma_segments_shift(p, u, end + 2);
    }
}

/// In a text that begins with a piece without colons, followed by the
/// end or by `::`, the first `::` stands right behind the piece.
pub proof fn lemma_next_pair_after_piece(s: Seq<char>, from: int, end: int)
    requires
        0 <= from <= end <= s.len(),
        forall|j: int| from <= j < end ==> s[j] != ':',
        end == s.len() || (end + 1 < s.len() && s[end] == ':' && s[end + 1] == ':'),
    ensures
        next_pair(s, from) == end,
    decreases end - from,
{
    if from < end {
        lemma_next_pair_after_piece(s, from + 1, end);
    }
}

/// A joined path is its first segment, and behind `::` the other
/// segments joined.
pub proof fn lemma_joined_from_the_left(list: Seq<Seq<char>>)
    requires
        list.len() >= 2,
    ensures
        joined_path(list) == list[0] + "::"@ + joined_path(list.drop_first()),
    decreases list.len(),
{
    let rest = list.drop_first();
    if list.len() == 2 {
        assert(list.drop_last() =~= seq![list[0]]);
        assert(rest =~= seq![list[1]]);
        assert(joined_path(list.drop_last()) == list[0]);
        assert(joined_path(rest) == list[1]);
    } else {
        lemma_joined_from_the_left(list.drop_last());
        assert(list.drop_last().drop_first() =~= rest.drop_last());
        assert(list.drop_last()[0] == list[0]);
        assert(rest.last() == list.last());
        assert(joined_path(list) =~= list[0] + "::"@ + joined_path(rest));
    }
}

/// A path whose segments hold no colon is split back into its segments
/// after it was joined with `::`.
pub proof fn lemma_joined_path_is_split_back(list: Seq<Seq<char>>)
    requires
        list.len() > 0,
        all_free_of(list, ':'),
    ensures
        segments(joined_path(list), 0) == list,
    decreases list.len(),
{
    let first = list[0];
    assert(free_of(first, ':'));
    if list.len() == 1 {
        lemma_next_pair_after_piece(first, 0, first.len() as int);
        assert(first.subrange(0, first.len() as int) =~= first);
        assert(segments(first, 0) =~= list);
    } else {
        reveal_strlit("::");
        let rest = list.drop_first();
        let tail = joined_path(rest);
        lemma_joined_from_the_left(list);
        let text = first + "::"@ + tail;
        let end = first.len() as int;
        assert("::"@.len() == 2);
        assert(text[end] == ':' && text[end + 1] == ':');
        assert forall|j: int| 0 <= j < end implies text[j] != ':' by {
            assert(text[j] == first[j]);
        }
        lemma_next_pair_after_piece(text, 0, end);
        assert(text.subrange(0, end) =~= first);
        assert(all_free_of(rest, ':')) by {
            assert forall|i: int| 0 <= i < rest.len() implies free_of(#[trigger] rest[i], ':') by {
                assert(rest[i] == list[i + 1]);
            }
        }
        lemma_joined_path_is_split_back(rest);
        lemma_segments_shift(first + "::"@, tail, 0);
        assert(segments(text, end + 2) == rest);
        assert(seq![first] + rest =~= list);
    }
}

/// In a text that holds a piece without the separator, followed by the
/// end or by the separator, the first separator stands right behind the
/// piece.
pub proof fn lemma_next_char_after_piece(s: Seq<char>, sep: char, from: int, end: int)
    requires
        0 <= from <= end <= s.len(),
        forall|j: int| from <= j < end ==> s[j] != sep,
        end == s.len() || s[end] == sep,
    ensures
        next_char(s, sep, from) == end,
    decreases end - from,
{
    if from < end {
        lemma_next_char_after_piece(s, sep, from + 1, end);
    }
}

/// Words with single spaces between them.
pub open spec fn spaced(words: Seq<Seq<char>>) -> Seq<char>
    decreases words.len(),
{
    if words.len() == 0 {
        Seq::empty()
    } else if words.len() == 1 {
        words[0]
    } else {
        words[0] + seq![' '] + spaced(words.drop_first())
    }
}

/// Behind a prefix the next separator is found where it is found
/// without the prefix.
pub proof fn lemma_next_char_shift(p: Seq<char>, u: Seq<char>, sep: char, i: int)
    requires
        0 <= i <= u.len(),
    ensures
        next_char(p + u, sep, p.len() + i) == p.len() + next_char(u, sep, i),
    decreases u.len() - i,
{
    if i < u.len() {
        assert((p + u)[p.len() + i] == u[i]);
        if u[i] != sep {
            lemma_next_char_shift(p, u, sep, i + 1);
        }
    }
}

/// The position of the next separator lies between where the search
/// starts and the end of the text.
pub proof fn lemma_next_char_bounds(s: Seq<char>, sep: char, from: int)
    requires
        0 <= from <= s.len(),
    ensures
        from <= next_char(s, sep, from) <= s.len(),
    decreases s.len() - from,
{
    if from < s.len() && s[from] != sep {
        lemma_next_char_bounds(s, sep, from + 1);
    }
}

/// Behind a prefix a text falls into the pieces into which it falls
/// without the prefix.
pub proof fn lemma_pieces_shift(p: Seq<char>, u: Seq<char>, sep: char, i: int)
    requires
        0 <= i <= u.len(),
    ensures
        pieces(p + u, sep, p.len() + i) == pieces(u, sep, i),
    decreases u.len() - i,
{
    let t = p + u;
    lemma_next_char_shift(p, u, sep, i);
    lemma_next_char_bounds(u, sep, i);
    let end = next_char(u, sep, i);
    if end >= u.len() {
        assert(t.subrange(p.len() + i, t.len() as int) =~= u.subrange(i, u.len() as int));
    } else {
        assert(t.subrange(p.len() + i, p.len() + end) =~= u.subrange(i, end));
        lemma_pieces_shift(p, u, sep, end + 1);
    }
}

/// Words without spaces are found again as the pieces of the text that
/// holds them with single spaces between them.
pub proof fn lemma_spaced_is_split_back(words: Seq<Seq<char>>)
    requires
        words.len() > 0,
        all_free_of(words, ' '),
    ensures
        pieces(spaced(words), ' ', 0) == words,
    decreases words.len(),
{
    let first = words[0];
    assert(free_of(first, ' '));
    if words.len() == 1 {
        lemma_next_char_after_piece(first, ' ', 0, first.len() as int);
        assert(first.subrange(0, first.len() as int) =~= first);
        assert(pieces(first, ' ', 0) =~= words);
    } else {
        let rest = words.drop_first();
        let tail = spaced(rest);
        let text = first + seq![' '] + tail;
        let end = first.len() as int;
        assert(text[end] == ' ');
        assert forall|j: int| 0 <= j < end implies text[j] != ' ' by {
            assert(text[j] == first[j]);
        }
        lemma_next_char_after_piece(text, ' ', 0, end);
        assert(text.subrange(0, end) =~= first);
        assert(all_free_of(rest, ' ')) by {
            assert forall|i: int| 0 <= i < rest.len() implies free_of(#[trigger] rest[i], ' ') by {
                assert(rest[i] == words[i + 1]);
            }
        }
        lemma_spaced_is_split_back(rest);
        lemma_pieces_shift(first + seq![' '], tail, ' ', 0);
        assert(pieces(text, ' ', end + 1) == rest);
        assert(seq![first] + rest =~= words);
    }
}

/// The pieces of a token behind its marker are its words.
pub proof fn lemma_token_words(words: Seq<Seq<char>>)
    requires
        words.len() > 0,
        all_free_of(words, ' '),
        words[0].len() > 0,
        words[0][0] != 'I',
    ensures
        marker_at(link_marker() + spaced(words), 0),
        pieces(
            link_marker() + spaced(words),
            ' ',
            behind_markers(link_marker() + spaced(words), 0),
        ) == words,
{
    reveal_strlit("INTRA_DOC_LINK:");
    let mark = link_marker();
    let body = spaced(words);
    let s = mark + body;
    assert(mark.len() == 15);
    assert(s.subrange(0, 15) =~= mark);
    assert(marker_at(s, 0));
    assert(body.len() > 0 && body[0] == words[0][0]) by {
        if words.len() > 1 {
            assert(body =~= words[0] + seq![' '] + spaced(words.drop_first()));
        }
    }
    assert(!marker_at(s, 15)) by {
        if marker_at(s, 15) {
            assert(s.subrange(15, 30)[0] == mark[0]);
            assert(s[15] == body[0]);
        }
    }
    assert(behind_markers(s, 15) == 15);
    assert(behind_markers(s, 0) == 15);
    lemma_spaced_is_split_back(words);
    lemma_pieces_shift(mark, body, ' ', 0);
}

/// A joined path holds no space where its segments hold none.
pub proof fn lemma_joined_path_free_of_space(list: Seq<Seq<char>>)
    requires
        all_free_of(list, ' '),
    ensures
        free_of(joined_path(list), ' '),
    decreases list.len(),
{
    reveal_strlit("::");
    if list.len() == 1 {
        assert(free_of(list[0], ' '));
    } else if list.len() > 1 {
        let front = list.drop_last();
        assert(all_free_of(front, ' ')) by {
            assert forall|i: int| 0 <= i < front.len() implies free_of(#[trigger] front[i], ' ') by {
                assert(front[i] == list[i]);
            }
        }
        lemma_joined_path_free_of_space(front);
        assert(free_of(list.last(), ' '));
        let text = joined_path(list);
        let a = joined_path(front);
        assert forall|j: int| 0 <= j < text.len() implies text[j] != ' ' by {
            if j < a.len() {
                assert(text[j] == a[j]);
            } else if j < a.len() + 2 {
                assert(text[j] == "::"@[j - a.len()]);
            } else {
                assert(text[j] == list.last()[j - a.len() - 2]);
            }
        }
    }
}

/// The word of a kind holds no space.
pub proof fn lemma_kind_word_free_of_space(kind: ItemKind)
    ensures
        free_of(kind_word(kind), ' '),
{
    reveal_strlit("module");
    reveal_strlit("constant");
    reveal_strlit("override");
    reveal_strlit("global_variable");
    reveal_strlit("struct");
    reveal_strlit("function");
    reveal_strlit("type_alias");
    let w = kind_word(kind);
    assert forall|j: int| 0 <= j < w.len() implies w[j] != ' ' by {
        if j == 0 {
        } else if j == 1 {
        } else if j == 2 {
        } else if j == 3 {
        } else if j == 4 {
        } else if j == 5 {
        } else if j == 6 {
        } else if j == 7 {
        } else if j == 8 {
        } else if j == 9 {
        } else if j == 10 {
        } else if j == 11 {
        } else if j == 12 {
        } else if j == 13 {
        } else {
        }
    }
}

/// What the literal words of a token are: `absolute` and `package`
/// begin with different letters, neither with that of the marker, they
/// hold no space, and a single space follows them in the token.
pub proof fn lemma_token_literals()
    ensures
        "absolute "@ == "absolute"@ + seq![' '],
        "package "@ == "package"@ + seq![' '],
        " "@ == seq![' '],
        free_of("absolute"@, ' '),
        free_of("package"@, ' '),
        "absolute"@.len() > 0 && "absolute"@[0] == 'a',
        "package"@.len() > 0 && "package"@[0] == 'p',
{
    reveal_strlit("absolute ");
    reveal_strlit("absolute");
    reveal_strlit("package ");
    reveal_strlit("package");
    reveal_strlit(" ");
    assert("absolute "@ =~= "absolute"@ + seq![' ']);
    assert("package "@ =~= "package"@ + seq![' ']);
    assert(" "@ =~= seq![' ']);
}

/// The token of a reference into the package is its marker and four
/// words with single spaces between them.
pub proof fn lemma_absolute_token_text(path: Seq<char>, kind: ItemKind, name: Seq<char>, list: Seq<Seq<char>>)
    requires
        path == joined_path(list),
    ensures
        link_text(PathView::Absolute(list), kind, name) == link_marker() + spaced(
            seq!["absolute"@, path, kind_word(kind), name],
        ),
{
    lemma_token_literals();
    lemma_spaced_of_four("absolute"@, path, kind_word(kind), name);
    let gap = seq![' '];
    let s = link_text(PathView::Absolute(list), kind, name);
    assert(s =~= link_marker() + ("absolute"@ + gap + path + gap + kind_word(kind) + gap + name));
}

/// The token of a reference into the package is read back as that
/// reference, where the path has a segment, no segment holds a colon or
/// a space, and the name holds no space.
pub proof fn lemma_absolute_token_is_read_back(
    list: Seq<Seq<char>>,
    kind: ItemKind,
    name: Seq<char>,
)
    requires
        list.len() > 0,
        all_free_of(list, ':'),
        all_free_of(list, ' '),
        free_of(name, ' '),
    ensures
        parsed_link(link_text(PathView::Absolute(list), kind, name)) == Some(
            (PathView::Absolute(list), kind, name),
        ),
{
    let word = "absolute"@;
    let path = joined_path(list);
    let kw = kind_word(kind);
    let parts = seq![word, path, kw, name];
    lemma_token_literals();
    lemma_joined_path_free_of_space(list);
    lemma_kind_word_free_of_space(kind);
    lemma_joined_path_is_split_back(list);
    lemma_absolute_parts_are_read_back(path, kind, name);
    lemma_absolute_token_text(path, kind, name, list);
    assert(all_free_of(parts, ' ')) by {
        assert forall|i: int| 0 <= i < parts.len() implies free_of(#[trigger] parts[i], ' ') by {
            if i == 0 {
            } else if i == 1 {
            } else if i == 2 {
            } else {
            }
        }
    }
    lemma_token_words(parts);
    assert(version_word(parts).is_none());
}

/// The text of four words with single spaces between them.
pub proof fn lemma_spaced_of_four(a: Seq<char>, b: Seq<char>, c: Seq<char>, d: Seq<char>)
    ensures
        spaced(seq![a, b, c, d]) == a + seq![' '] + b + seq![' '] + c + seq![' '] + d,
{
    let gap = seq![' '];
    assert(seq![a, b, c, d].drop_first() =~= seq![b, c, d]);
    assert(seq![b, c, d].drop_first() =~= seq![c, d]);
    assert(seq![c, d].drop_first() =~= seq![d]);
    assert(spaced(seq![d]) == d);
    assert(spaced(seq![c, d]) == c + gap + d);
    assert(spaced(seq![b, c, d]) == b + gap + (c + gap + d));
    assert(spaced(seq![a, b, c, d]) == a + gap + (b + gap + (c + gap + d)));
    assert(a + gap + (b + gap + (c + gap + d)) =~= a + gap + b + gap + c + gap + d);
}

/// The text of six words with single spaces between them.
pub proof fn lemma_spaced_of_six(
    a: Seq<char>,
    b: Seq<char>,
    c: Seq<char>,
    d: Seq<char>,
    e: Seq<char>,
    f: Seq<char>,
)
    ensures
        spaced(seq![a, b, c, d, e, f]) == a + seq![' '] + b + seq![' '] + spaced(
            seq![c, d, e, f],
        ),
{
    let gap = seq![' '];
    assert(seq![a, b, c, d, e, f].drop_first() =~= seq![b, c, d, e, f]);
    assert(seq![b, c, d, e, f].drop_first() =~= seq![c, d, e, f]);
    assert(spaced(seq![b, c, d, e, f]) == b + gap + spaced(seq![c, d, e, f]));
    assert(a + gap + (b + gap + spaced(seq![c, d, e, f])) =~= a + gap + b + gap + spaced(
        seq![c, d, e, f],
    ));
}

/// The decimal text of a number holds no space.
pub proof fn lemma_decimal_free_of_space(n: nat)
    ensures
        free_of(decimal(n), ' '),
    decreases n,
{
    if n >= 10 {
        lemma_decimal_free_of_space(n / 10);
        let text = decimal(n);
        assert forall|j: int| 0 <= j < text.len() implies text[j] != ' ' by {
            if j < decimal(n / 10).len() {
                assert(text[j] == decimal(n / 10)[j]);
            }
        }
    }
}

/// The text of a version holds no space where its tags hold none.
pub proof fn lemma_version_text_free_of_space(v: VersionView)
    requires
        free_of(v.pre, ' '),
        free_of(v.build, ' '),
    ensures
        free_of(version_text(v), ' '),
{
    reveal_strlit(".");
    reveal_strlit("-");
    reveal_strlit("+");
    lemma_decimal_free_of_space(v.major as nat);
    lemma_decimal_free_of_space(v.minor as nat);
    lemma_decimal_free_of_space(v.patch as nat);
    let a = decimal(v.major as nat);
    let b = decimal(v.minor as nat);
    let c = decimal(v.patch as nat);
    let numbers = a + seq!['.'] + b + seq!['.'] + c;
    assert(free_of(numbers, ' '));
    let pre = if v.pre.len() > 0 {
        seq!['-'] + v.pre
    } else {
        Seq::empty()
    };
    let build = if v.build.len() > 0 {
        seq!['+'] + v.build
    } else {
        Seq::empty()
    };
    assert(free_of(pre, ' '));
    assert(free_of(build, ' '));
    assert("."@ =~= seq!['.'] && "-"@ =~= seq!['-'] && "+"@ =~= seq!['+']);
    assert(version_text(v) =~= numbers + pre + build);
    assert(free_of(numbers + pre + build, ' '));
}

/// The token of a reference into a dependency is read back as that
/// reference, where `semver` reads the text of the version back as the
/// version, the path has a segment, no segment holds a colon or a
/// space, and neither the dependency's name, the tags of the version nor
/// the name hold a space.
pub proof fn lemma_package_token_is_read_back(
    dependency: Seq<char>,
    version: VersionView,
    list: Seq<Seq<char>>,
    kind: ItemKind,
    name: Seq<char>,
)
    requires
        semver_parsed(version_text(version)) == Some(version),
        list.len() > 0,
        all_free_of(list, ':'),
        all_free_of(list, ' '),
        free_of(dependency, ' '),
        free_of(version.pre, ' '),
        free_of(version.build, ' '),
        free_of(name, ' '),
    ensures
        parsed_link(link_text(PathView::Package(dependency, version, list), kind, name)) == Some(
            (PathView::Package(dependency, version, list), kind, name),
        ),
{
    let word = "package"@;
    let vt = version_text(version);
    let path = joined_path(list);
    let kw = kind_word(kind);
    let parts = seq![word, dependency, vt, path, kw, name];
    lemma_token_literals();
    lemma_joined_path_free_of_space(list);
    lemma_kind_word_free_of_space(kind);
    lemma_version_text_free_of_space(version);
    lemma_joined_path_is_split_back(list);
    lemma_kind_word_is_read_back(kind);
    lemma_package_token_text(dependency, version, path, kind, name, list);
    assert(all_free_of(parts, ' ')) by {
        assert forall|i: int| 0 <= i < parts.len() implies free_of(#[trigger] parts[i], ' ') by {
            if i == 0 {
            } else if i == 1 {
            } else if i == 2 {
            } else if i == 3 {
            } else if i == 4 {
            } else {
            }
        }
    }
    lemma_token_words(parts);
    assert(version_word(parts) == Some(vt));
    assert(link_of_parts(parts, Some(version)) == Some(
        (PathView::Package(dependency, version, list), kind, name),
    ));
}

/// The token of a reference into a dependency is its marker and six
/// words with single spaces between them.
pub proof fn lemma_package_token_text(
    dependency: Seq<char>,
    version: VersionView,
    path: Seq<char>,
    kind: ItemKind,
    name: Seq<char>,
    list: Seq<Seq<char>>,
)
    requires
        path == joined_path(list),
    ensures
        link_text(PathView::Package(dependency, version, list), kind, name) == link_marker()
            + spaced(
            seq!["package"@, dependency, version_text(version), path, kind_word(kind), name],
        ),
{
    lemma_token_literals();
    let vt = version_text(version);
    let kw = kind_word(kind);
    lemma_spaced_of_six("package"@, dependency, vt, path, kw, name);
    lemma_spaced_of_four(vt, path, kw, name);
    let gap = seq![' '];
    let s = link_text(PathView::Package(dependency, version, list), kind, name);
    assert(s =~= link_marker() + ("package"@ + gap + dependency + gap + (vt + gap + path + gap + kw
        + gap + name)));
}

} // verus!
