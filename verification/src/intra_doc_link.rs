//! The token that stands for a resolved reference inside the text of a
//! doc comment until a link is made of it.
use vstd::prelude::*;
use vstd::string::StringExecFns;
use crate::ast::{DefinitionPath, ItemKind, PathView, Version, VersionView};
use crate::conditional::Ident;
use crate::display::{kind_name, kind_word};
use crate::text::{push_char, text_views};

verus! {

/// The decimal digit for a number below ten.
pub open spec fn digit(d: nat) -> char {
    if d == 0 {
        '0'
    } else if d == 1 {
        '1'
    } else if d == 2 {
        '2'
    } else if d == 3 {
        '3'
    } else if d == 4 {
        '4'
    } else if d == 5 {
        '5'
    } else if d == 6 {
        '6'
    } else if d == 7 {
        '7'
    } else if d == 8 {
        '8'
    } else {
        '9'
    }
}

/// The decimal text of a number, without leading zeros.
pub open spec fn decimal(n: nat) -> Seq<char>
    decreases n,
{
    if n < 10 {
        seq![digit(n)]
    } else {
        decimal(n / 10).push(digit(n % 10))
    }
}

/// Appends the decimal text of a number.
pub fn append_decimal(out: &mut String, n: u64)
    ensures
        final(out)@ == old(out)@ + decimal(n as nat),
    decreases n,
{
    if n >= 10 {
        append_decimal(out, n / 10);
    }
    let d = n % 10;
    let c = if d == 0 {
        '0'
    } else if d == 1 {
        '1'
    } else if d == 2 {
        '2'
    } else if d == 3 {
        '3'
    } else if d == 4 {
        '4'
    } else if d == 5 {
        '5'
    } else if d == 6 {
        '6'
    } else if d == 7 {
        '7'
    } else if d == 8 {
        '8'
    } else {
        '9'
    };
    push_char(out, c);
    assert(out@ =~= old(out)@ + decimal(n as nat));
}

/// The text of a version: the three numbers with dots between them, then
/// the pre-release tag behind `-` and the build metadata behind `+`,
/// each only where it is not empty.
pub open spec fn version_text(v: VersionView) -> Seq<char> {
    decimal(v.major as nat) + "."@ + decimal(v.minor as nat) + "."@ + decimal(v.patch as nat) + (
    if v.pre.len() > 0 {
        "-"@ + v.pre
    } else {
        Seq::empty()
    }) + (if v.build.len() > 0 {
        "+"@ + v.build
    } else {
        Seq::empty()
    })
}

/// Appends the text of a version.
pub fn append_version(out: &mut String, v: &Version)
    ensures
        final(out)@ == old(out)@ + version_text(v@),
{
    append_decimal(out, v.major);
    out.append(".");
    append_decimal(out, v.minor);
    out.append(".");
    append_decimal(out, v.patch);
    if v.pre.as_str().unicode_len() > 0 {
        out.append("-");
        out.append(v.pre.as_str());
    }
    if v.build.as_str().unicode_len() > 0 {
        out.append("+");
        out.append(v.build.as_str());
    }
    assert(out@ =~= old(out)@ + version_text(v@));
}

impl Version {
    /// The text of the version.
    pub fn to_text(&self) -> (r: String)
        ensures
            r@ == version_text(self@),
    {
        let mut out = String::new();
        append_version(&mut out, self);
        assert(out@ =~= version_text(self@));
        out
    }
}

/// The segments of a path with `::` between them.
pub open spec fn joined_path(segments: Seq<Seq<char>>) -> Seq<char>
    decreases segments.len(),
{
    if segments.len() == 0 {
        Seq::empty()
    } else if segments.len() == 1 {
        segments[0]
    } else {
        joined_path(segments.drop_last()) + "::"@ + segments.last()
    }
}

/// Appends the segments of a path with `::` between them.
pub fn append_path(out: &mut String, segments: &Vec<String>)
    ensures
        final(out)@ == old(out)@ + joined_path(text_views(segments@)),
{
    let ghost all = text_views(segments@);
    let mut i: usize = 0;
    assert(all.subrange(0, 0) =~= Seq::<Seq<char>>::empty());
    assert(out@ =~= old(out)@ + joined_path(all.subrange(0, 0)));
    while i < segments.len()
        invariant
            i <= segments.len(),
            all == text_views(segments@),
            out@ == old(out)@ + joined_path(all.subrange(0, i as int)),
        decreases segments.len() - i,
    {
        proof {
            let next = all.subrange(0, i + 1);
            assert(next.drop_last() =~= all.subrange(0, i as int));
            assert(next.last() == segments@[i as int]@);
        }
        let ghost before = out@;
        if i > 0 {
            out.append("::");
        }
        out.append(segments[i].as_str());
        proof {
            let next = all.subrange(0, i + 1);
            if i > 0 {
                assert(out@ =~= old(out)@ + (joined_path(next.drop_last()) + "::"@ + next.last()));
            } else {
                assert(joined_path(all.subrange(0, 0)) =~= Seq::<char>::empty());
                assert(out@ =~= old(out)@ + next.last());
            }
        }
        i += 1;
    }
    assert(all.subrange(0, segments.len() as int) =~= all);
}

/// A resolved reference: where the declaration lives, what it is, and its name.
#[derive(Debug, Clone, PartialEq, Eq)]
pub struct IntraDocLink {
    pub def_path: DefinitionPath,
    pub kind: ItemKind,
    pub name: Ident,
}

/// The token of a reference: the marker `INTRA_DOC_LINK:`, the path
/// (`absolute` and its segments, or `package`, the dependency, its
/// version and the segments), the word for the kind, and the name, with
/// single spaces between them.
pub open spec fn link_text(path: PathView, kind: ItemKind, name: Seq<char>) -> Seq<char> {
    "INTRA_DOC_LINK:"@ + (match path {
        PathView::Absolute(segments) => "absolute "@ + joined_path(segments),
        PathView::Package(dependency, version, segments) => "package "@ + dependency + " "@
            + version_text(version) + " "@ + joined_path(segments),
    }) + " "@ + kind_word(kind) + " "@ + name
}

impl IntraDocLink {
    /// The token of the reference.
    pub fn to_text(&self) -> (r: String)
        ensures
            r@ == link_text(self.def_path@, self.kind, self.name@),
    {
        let mut out = String::from_str("INTRA_DOC_LINK:");
        match &self.def_path {
            DefinitionPath::Absolute(segments) => {
                out.append("absolute ");
                append_path(&mut out, segments);
            },
            DefinitionPath::Package(dependency, version, segments) => {
                out.append("package ");
                out.append(dependency.as_str());
                out.append(" ");
                append_version(&mut out, version);
                out.append(" ");
                append_path(&mut out, segments);
            },
        }
        out.append(" ");
        out.append(kind_name(self.kind));
        out.append(" ");
        out.append(self.name.0.as_str());
        assert(out@ =~= link_text(self.def_path@, self.kind, self.name@));
        out
    }
}

/// What `semver::Version::parse` makes of a text: the parts of the
/// version, or nothing where the text is no version.
pub uninterp spec fn semver_parsed(text: Seq<char>) -> Option<VersionView>;

/// The view of an optional version.
pub open spec fn opt_version(v: Option<Version>) -> Option<VersionView> {
    match v {
        Some(v) => Some(v@),
        None => None,
    }
}

/// `semver::Version::parse`: the version that a text stands for, with
/// its numbers and tags, or nothing where the text is not accepted.
#[verifier::external_body]
pub(crate) fn parse_version(text: &str) -> (r: Option<Version>)
    ensures
        opt_version(r) == semver_parsed(text@),
{
    match semver::Version::parse(text) {
        Ok(v) => Some(
            Version {
                major: v.major,
                minor: v.minor,
                patch: v.patch,
                pre: v.pre.as_str().to_string(),
                build: v.build.as_str().to_string(),
            },
        ),
        Err(_) => None,
    }
}

/// The position of the first `sep` of `s` at or after `from`, or the
/// length of `s`.
pub open spec fn next_char(s: Seq<char>, sep: char, from: int) -> int
    decreases s.len() - from,
{
    if from < 0 || from >= s.len() {
        s.len() as int
    } else if s[from] == sep {
        from
    } else {
        next_char(s, sep, from + 1)
    }
}

/// The pieces of `s` from position `from` on that stand between the
/// occurrences of `sep`; a `sep` at the end is followed by an empty piece.
pub open spec fn pieces(s: Seq<char>, sep: char, from: int) -> Seq<Seq<char>>
    decreases s.len() - from,
{
    let end = next_char(s, sep, from);
    if from < 0 || end < from || end >= s.len() {
        seq![s.subrange(from, s.len() as int)]
    } else {
        seq![s.subrange(from, end)] + pieces(s, sep, end + 1)
    }
}

/// The position of the first `::` of `s` at or after `from`, or the
/// length of `s`.
pub open spec fn next_pair(s: Seq<char>, from: int) -> int
    decreases s.len() - from,
{
    if from < 0 || from + 1 >= s.len() {
        s.len() as int
    } else if s[from] == ':' && s[from + 1] == ':' {
        from
    } else {
        next_pair(s, from + 1)
    }
}

/// The segments of `s` from position `from` on that stand between the
/// occurrences of `::`, found from the left.
pub open spec fn segments(s: Seq<char>, from: int) -> Seq<Seq<char>>
    decreases s.len() - from,
{
    let end = next_pair(s, from);
    if from < 0 || end < from || end + 1 >= s.len() {
        seq![s.subrange(from, s.len() as int)]
    } else {
        seq![s.subrange(from, end)] + segments(s, end + 2)
    }
}

/// The pieces of a text between the occurrences of a character.
pub fn split_pieces(chars: &Vec<char>, sep: char, from: usize) -> (r: Vec<String>)
    requires
        from <= chars.len(),
    ensures
        text_views(r@) == pieces(chars@, sep, from as int),
{
    let mut r: Vec<String> = Vec::new();
    let mut pos: usize = from;
    let ghost mut done: Seq<Seq<char>> = Seq::empty();
    loop
        invariant
            from <= pos <= chars.len(),
            text_views(r@) == done,
            pieces(chars@, sep, from as int) == done + pieces(chars@, sep, pos as int),
        decreases chars.len() - pos,
    {
        let mut end: usize = pos;
        while end < chars.len() && chars[end] != sep
            invariant
                pos <= end <= chars.len(),
                next_char(chars@, sep, pos as int) == next_char(chars@, sep, end as int),
            decreases chars.len() - end,
        {
            end += 1;
        }
        let piece = crate::text::string_of(chars, pos, end);
        let ghost before = r@;
        r.push(piece);
        proof {
            assert(text_views(r@) =~= done.push(piece@));
            if end < chars.len() {
                assert(done + (seq![piece@] + pieces(chars@, sep, end + 1)) =~= done.push(piece@)
                    + pieces(chars@, sep, end + 1));
            } else {
                assert(chars@.subrange(pos as int, end as int) == piece@);
                assert(done + seq![piece@] =~= done.push(piece@));
            }
            done = done.push(piece@);
        }
        if end >= chars.len() {
            return r;
        }
        pos = end + 1;
    }
}

/// The segments of a path that is written with `::` between them.
pub fn split_segments(text: &str) -> (r: Vec<String>)
    ensures
        text_views(r@) == segments(text@, 0),
{
    let chars = crate::text::chars_of(text);
    let mut r: Vec<String> = Vec::new();
    let mut pos: usize = 0;
    let ghost mut done: Seq<Seq<char>> = Seq::empty();
    loop
        invariant
            pos <= chars.len(),
            chars@ == text@,
            text_views(r@) == done,
            segments(chars@, 0) == done + segments(chars@, pos as int),
        decreases chars.len() - pos,
    {
        let mut end: usize = pos;
        while end < chars.len() && !(end + 1 < chars.len() && chars[end] == ':' && chars[end + 1]
            == ':')
            invariant
                pos <= end <= chars.len(),
                next_pair(chars@, pos as int) == if end + 1 >= chars.len() {
                    chars@.len() as int
                } else {
                    next_pair(chars@, end as int)
                },
            decreases chars.len() - end,
        {
            end += 1;
        }
        let piece = crate::text::string_of(&chars, pos, end);
        r.push(piece);
        proof {
            assert(text_views(r@) =~= done.push(piece@));
            if end < chars.len() {
                assert(next_pair(chars@, pos as int) == end);
                assert(done + (seq![piece@] + segments(chars@, end + 2)) =~= done.push(piece@)
                    + segments(chars@, end + 2));
            } else {
                assert(next_pair(chars@, pos as int) == chars@.len());
                assert(done + seq![piece@] =~= done.push(piece@));
            }
            done = done.push(piece@);
        }
        if end >= chars.len() {
            return r;
        }
        pos = end + 2;
    }
}

/// The kind that a word stands for.
pub open spec fn parsed_kind(word: Seq<char>) -> Option<ItemKind> {
    if word == "module"@ {
        Some(ItemKind::Module)
    } else if word == "constant"@ {
        Some(ItemKind::Constant)
    } else if word == "override"@ {
        Some(ItemKind::Override)
    } else if word == "global_variable"@ {
        Some(ItemKind::GlobalVariable)
    } else if word == "struct"@ {
        Some(ItemKind::Struct)
    } else if word == "function"@ {
        Some(ItemKind::Function)
    } else if word == "type_alias"@ {
        Some(ItemKind::TypeAlias)
    } else {
        None
    }
}

/// The word of every kind is read back as that kind.
pub proof fn lemma_kind_word_is_read_back(kind: ItemKind)
    ensures
        parsed_kind(kind_word(kind)) == Some(kind),
{
    reveal_strlit("module");
    reveal_strlit("constant");
    reveal_strlit("override");
    reveal_strlit("global_variable");
    reveal_strlit("struct");
    reveal_strlit("function");
    reveal_strlit("type_alias");
    assert("module"@.len() == 6 && "constant"@.len() == 8 && "override"@.len() == 8);
    assert("global_variable"@.len() == 15 && "struct"@.len() == 6 && "function"@.len() == 8);
    assert("type_alias"@.len() == 10);
    assert("module"@[0] == 'm' && "struct"@[0] == 's');
    assert("constant"@[0] == 'c' && "override"@[0] == 'o' && "function"@[0] == 'f');
}

/// The words of an absolute token are read back as the reference that
/// they were written for, up to the splitting of the path.
pub proof fn lemma_absolute_parts_are_read_back(
    path: Seq<char>,
    kind: ItemKind,
    name: Seq<char>,
)
    ensures
        link_of_parts(seq!["absolute"@, path, kind_word(kind), name], None) == Some(
            (PathView::Absolute(segments(path, 0)), kind, name),
        ),
{
    lemma_kind_word_is_read_back(kind);
}

/// The kind that a word stands for.
pub fn kind_from_word(word: &String) -> (r: Option<ItemKind>)
    ensures
        r == parsed_kind(word@),
{
    if *word == String::from_str("module") {
        Some(ItemKind::Module)
    } else if *word == String::from_str("constant") {
        Some(ItemKind::Constant)
    } else if *word == String::from_str("override") {
        Some(ItemKind::Override)
    } else if *word == String::from_str("global_variable") {
        Some(ItemKind::GlobalVariable)
    } else if *word == String::from_str("struct") {
        Some(ItemKind::Struct)
    } else if *word == String::from_str("function") {
        Some(ItemKind::Function)
    } else if *word == String::from_str("type_alias") {
        Some(ItemKind::TypeAlias)
    } else {
        None
    }
}

/// The reference that the words of a token stand for, where `version` is
/// what the third word gave as a version: `absolute`, the path, the kind
/// and the name; or `package`, the dependency, the version, the path, the
/// kind and the name. Words after the name are not read.
pub open spec fn link_of_parts(parts: Seq<Seq<char>>, version: Option<VersionView>) -> Option<
    (PathView, ItemKind, Seq<char>),
> {
    if parts.len() >= 4 && parts[0] == "absolute"@ {
        match parsed_kind(parts[2]) {
            Some(kind) => Some((PathView::Absolute(segments(parts[1], 0)), kind, parts[3])),
            None => None,
        }
    } else if parts.len() >= 6 && parts[0] == "package"@ {
        match (version, parsed_kind(parts[4])) {
            (Some(v), Some(kind)) => Some(
                (PathView::Package(parts[1], v, segments(parts[3], 0)), kind, parts[5]),
            ),
            _ => None,
        }
    } else {
        None
    }
}

/// The view of an optional reference.
pub open spec fn link_view(r: Option<IntraDocLink>) -> Option<(PathView, ItemKind, Seq<char>)> {
    match r {
        Some(link) => Some((link.def_path@, link.kind, link.name@)),
        None => None,
    }
}

/// The reference that the words of a token stand for, with the version
/// that was read from the third word.
pub fn link_from_parts(parts: &Vec<String>, version: Option<Version>) -> (r: Option<IntraDocLink>)
    ensures
        link_view(r) == link_of_parts(text_views(parts@), opt_version(version)),
{
    let ghost words = text_views(parts@);
    if parts.len() >= 4 && parts[0] == String::from_str("absolute") {
        assert(words[0] == parts@[0]@ && words[1] == parts@[1]@ && words[2] == parts@[2]@
            && words[3] == parts@[3]@);
        match kind_from_word(&parts[2]) {
            Some(kind) => Some(
                IntraDocLink {
                    def_path: DefinitionPath::Absolute(split_segments(parts[1].as_str())),
                    kind,
                    name: Ident(parts[3].clone()),
                },
            ),
            None => None,
        }
    } else if parts.len() >= 6 && parts[0] == String::from_str("package") {
        assert(words[0] == parts@[0]@ && words[1] == parts@[1]@ && words[3] == parts@[3]@
            && words[4] == parts@[4]@ && words[5] == parts@[5]@);
        match (version, kind_from_word(&parts[4])) {
            (Some(v), Some(kind)) => Some(
                IntraDocLink {
                    def_path: DefinitionPath::Package(
                        parts[1].clone(),
                        v,
                        split_segments(parts[3].as_str()),
                    ),
                    kind,
                    name: Ident(parts[5].clone()),
                },
            ),
            _ => None,
        }
    } else {
        if parts.len() > 0 {
            assert(words[0] == parts@[0]@);
        }
        None
    }
}

/// The marker that every token begins with.
pub open spec fn link_marker() -> Seq<char> {
    "INTRA_DOC_LINK:"@
}

/// Whether `s` has the marker at position `from`.
pub open spec fn marker_at(s: Seq<char>, from: int) -> bool {
    0 <= from && from + link_marker().len() <= s.len() && s.subrange(
        from,
        from + link_marker().len(),
    ) == link_marker()
}

/// The position behind the markers that stand one after the other from
/// position `from` on.
pub open spec fn behind_markers(s: Seq<char>, from: int) -> int
    decreases s.len() - from,
{
    if marker_at(s, from) && link_marker().len() > 0 {
        behind_markers(s, from + link_marker().len())
    } else {
        from
    }
}

/// The version that the words of a token ask to be read: the third word
/// of a `package` token.
pub open spec fn version_word(parts: Seq<Seq<char>>) -> Option<Seq<char>> {
    if parts.len() >= 3 && parts[0] == "package"@ {
        Some(parts[2])
    } else {
        None
    }
}

/// The reference that a token stands for: nothing without the marker at
/// its head; else what the words behind the markers stand for, the
/// version read by `semver`.
pub open spec fn parsed_link(s: Seq<char>) -> Option<(PathView, ItemKind, Seq<char>)> {
    if !marker_at(s, 0) {
        None
    } else {
        let parts = pieces(s, ' ', behind_markers(s, 0));
        link_of_parts(
            parts,
            match version_word(parts) {
                Some(word) => semver_parsed(word),
                None => None,
            },
        )
    }
}

/// Whether the marker stands at position `from` of the text.
fn has_marker_at(chars: &Vec<char>, marker: &Vec<char>, from: usize) -> (r: bool)
    requires
        from <= chars.len(),
        marker@ == link_marker(),
    ensures
        r == marker_at(chars@, from as int),
        r ==> from + marker.len() <= chars.len(),
{
    if marker.len() > chars.len() - from {
        return false;
    }
    let mut i: usize = 0;
    while i < marker.len()
        invariant
            i <= marker.len(),
            from + marker.len() <= chars.len(),
            marker@ == link_marker(),
            forall|k: int| 0 <= k < i ==> chars@[from + k] == marker@[k],
        decreases marker.len() - i,
    {
        if chars[from + i] != marker[i] {
            assert(chars@.subrange(from as int, from + link_marker().len())[i as int]
                != link_marker()[i as int]);
            return false;
        }
        i += 1;
    }
    assert(chars@.subrange(from as int, from + link_marker().len()) =~= link_marker());
    true
}

impl IntraDocLink {
    /// Reads a token back into the reference that it stands for.
    pub fn from_str(s: &str) -> (r: Option<IntraDocLink>)
        ensures
            link_view(r) == parsed_link(s@),
    {
        let chars = crate::text::chars_of(s);
        let marker = crate::text::chars_of("INTRA_DOC_LINK:");
        if !has_marker_at(&chars, &marker, 0) {
            return None;
        }
        let mut from: usize = 0;
        while marker.len() > 0 && has_marker_at(&chars, &marker, from)
            invariant
                from <= chars.len(),
                marker@ == link_marker(),
                behind_markers(chars@, 0) == behind_markers(chars@, from as int),
            decreases chars.len() - from,
        {
            from = from + marker.len();
        }
        let parts = split_pieces(&chars, ' ', from);
        let version = if parts.len() >= 3 && parts[0] == String::from_str("package") {
            assert(text_views(parts@)[0] == parts@[0]@ && text_views(parts@)[2] == parts@[2]@);
            parse_version(parts[2].as_str())
        } else {
            if parts.len() > 0 {
                assert(text_views(parts@)[0] == parts@[0]@);
            }
            None
        };
        link_from_parts(&parts, version)
    }
}

} // verus!
