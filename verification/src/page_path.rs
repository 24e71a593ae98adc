//! The addresses of the pages: where a module or an item lies below the
//! root of the documentation, and the paths that lead from one page to
//! another.
use vstd::prelude::*;
use vstd::string::StringExecFns;
use crate::ast::{
    BuiltinValue, DefinitionPath, DiagnosticSeverity, Function, InterpolationSampling,
    InterpolationType, ItemKind, PathView, Span,
};
use crate::conditional::Ident;
use crate::intra_doc_link::{append_decimal, append_version, decimal, version_text};
use crate::text::text_views;

verus! {

/// One step of the way from the root module to a page: its name, the
/// path to its page from the current page, and its kind.
#[derive(Debug, Clone, PartialEq, Eq)]
pub struct Segment {
    pub name: String,
    pub url: String,
    pub kind: ItemKind,
}

/// The mathematical form of a [`Segment`].
pub struct SegmentView {
    pub name: Seq<char>,
    pub url: Seq<char>,
    pub kind: ItemKind,
}

impl View for Segment {
    type V = SegmentView;

    open spec fn view(&self) -> SegmentView {
        SegmentView { name: self.name@, url: self.url@, kind: self.kind }
    }
}

/// The views of a list of segments.
pub open spec fn segment_views(v: Seq<Segment>) -> Seq<SegmentView> {
    Seq::new(v.len(), |i: int| v[i]@)
}

/// The way from the root module to the current page, and the number of
/// directories between the page and the directory of the root module.
#[derive(Debug, Clone, PartialEq, Eq)]
pub struct PagePath {
    pub segments: Vec<Segment>,
    pub level: usize,
}

/// The segments of a page one step below: for a page in a directory of
/// its own, the paths of the steps so far begin one directory higher.
pub open spec fn extended(
    segments: Seq<SegmentView>,
    step: SegmentView,
    is_child: bool,
) -> Seq<SegmentView> {
    Seq::new(
        segments.len(),
        |i: int|
            SegmentView {
                name: segments[i].name,
                url: if is_child {
                    "../"@ + segments[i].url
                } else {
                    segments[i].url
                },
                kind: segments[i].kind,
            },
    ).push(step)
}

/// `n` steps up: `../` written `n` times.
pub open spec fn ups(n: nat) -> Seq<char>
    decreases n,
{
    if n == 0 {
        Seq::empty()
    } else {
        ups((n - 1) as nat) + "../"@
    }
}

/// The names of the first `n` segments, each behind a `/`.
pub open spec fn directories(segments: Seq<SegmentView>, n: int) -> Seq<char>
    decreases n,
{
    if n <= 0 || n > segments.len() {
        Seq::empty()
    } else {
        directories(segments, n - 1) + "/"@ + segments[n - 1].name
    }
}

/// The anchor of a span of lines: the first line, and the last where it
/// is another.
pub open spec fn anchor(span: Option<Span>) -> Seq<char> {
    match span {
        Some(span) => "#"@ + decimal(span.line_start as nat) + (if span.line_start
            != span.line_end {
            "-"@ + decimal(span.line_end as nat)
        } else {
            Seq::empty()
        }),
        None => Seq::empty(),
    }
}

/// The path from a page to the page of its source: up to the root, into
/// `src`, down the modules to the file of the module that holds the
/// page, and to the lines of the span.
pub open spec fn source_url_text(segments: Seq<SegmentView>, level: nat, span: Option<Span>) -> Seq<
    char,
> {
    ups(level) + (if segments.len() == 0 {
        "../src/"@
    } else if segments.last().kind == ItemKind::Module {
        "../src"@ + directories(segments, segments.len() as int) + ".html"@
    } else {
        "../src"@ + directories(segments, segments.len() - 1) + ".html"@
    }) + anchor(span)
}

/// The name of the page of an item of the given kind and name.
pub open spec fn page_name(kind: ItemKind, name: Seq<char>) -> Seq<char> {
    match kind {
        ItemKind::Module => "index.html"@,
        ItemKind::Constant => "const."@ + name + ".html"@,
        ItemKind::Override => "override."@ + name + ".html"@,
        ItemKind::GlobalVariable => "var."@ + name + ".html"@,
        ItemKind::Struct => "struct."@ + name + ".html"@,
        ItemKind::Function => "fn."@ + name + ".html"@,
        ItemKind::TypeAlias => "alias."@ + name + ".html"@,
    }
}

/// The segments of a path, each followed by `/`.
pub open spec fn folders(segments: Seq<Seq<char>>) -> Seq<char>
    decreases segments.len(),
{
    if segments.len() == 0 {
        Seq::empty()
    } else {
        folders(segments.drop_last()) + segments.last() + "/"@
    }
}

/// The path from a page at the given level to the page of a
/// declaration: inside the package, up to the root module and down the
/// path; into a dependency, three levels higher, then down through the
/// dependency, its version and its root module.
pub open spec fn def_path_url_text(
    level: nat,
    name: Seq<char>,
    kind: ItemKind,
    path: PathView,
) -> Seq<char> {
    (match path {
        PathView::Absolute(segments) => ups(level) + folders(segments),
        PathView::Package(dependency, version, segments) => ups(level + 3) + dependency + "/"@
            + version_text(version) + "/"@ + dependency + "/"@ + folders(segments),
    }) + page_name(kind, name)
}

/// Appends `../` the given number of times.
fn append_ups(out: &mut String, n: usize)
    ensures
        final(out)@ == old(out)@ + ups(n as nat),
{
    let mut i: usize = 0;
    assert(out@ =~= old(out)@ + ups(0));
    while i < n
        invariant
            i <= n,
            out@ == old(out)@ + ups(i as nat),
        decreases n - i,
    {
        let ghost before = out@;
        out.append("../");
        assert(out@ =~= old(out)@ + ups((i + 1) as nat));
        i += 1;
    }
}

/// Appends the segments of a path, each followed by `/`.
fn append_folders(out: &mut String, segments: &Vec<String>)
    ensures
        final(out)@ == old(out)@ + folders(text_views(segments@)),
{
    let ghost all = text_views(segments@);
    let mut i: usize = 0;
    assert(all.subrange(0, 0) =~= Seq::<Seq<char>>::empty());
    assert(out@ =~= old(out)@ + folders(all.subrange(0, 0)));
    while i < segments.len()
        invariant
            i <= segments.len(),
            all == text_views(segments@),
            out@ == old(out)@ + folders(all.subrange(0, i as int)),
        decreases segments.len() - i,
    {
        proof {
            let next = all.subrange(0, i + 1);
            assert(next.drop_last() =~= all.subrange(0, i as int));
            assert(next.last() == segments@[i as int]@);
        }
        out.append(segments[i].as_str());
        out.append("/");
        assert(out@ =~= old(out)@ + folders(all.subrange(0, i + 1)));
        i += 1;
    }
    assert(all.subrange(0, segments.len() as int) =~= all);
}

/// Appends the names of the first `stop` segments, each behind a `/`.
fn append_directories(out: &mut String, segments: &Vec<Segment>, stop: usize)
    requires
        stop <= segments.len(),
    ensures
        final(out)@ == old(out)@ + directories(segment_views(segments@), stop as int),
{
    let ghost all = segment_views(segments@);
    let mut i: usize = 0;
    assert(out@ =~= old(out)@ + directories(all, 0));
    while i < stop
        invariant
            i <= stop <= segments.len(),
            all == segment_views(segments@),
            out@ == old(out)@ + directories(all, i as int),
        decreases stop - i,
    {
        out.append("/");
        out.append(segments[i].name.as_str());
        assert(all[i as int].name == segments@[i as int].name@);
        assert(out@ =~= old(out)@ + directories(all, i + 1));
        i += 1;
    }
}

/// Appends the anchor of a span of lines.
fn append_anchor(out: &mut String, span: Option<Span>)
    ensures
        final(out)@ == old(out)@ + anchor(span),
{
    match span {
        Some(span) => {
            out.append("#");
            append_decimal(out, span.line_start as u64);
            if span.line_start != span.line_end {
                out.append("-");
                append_decimal(out, span.line_end as u64);
            }
            assert(out@ =~= old(out)@ + anchor(Some(span)));
        },
        None => {
            assert(out@ =~= old(out)@ + anchor(None));
        },
    }
}

/// Appends the name of the page of an item.
fn append_page_name(out: &mut String, kind: ItemKind, name: &Ident)
    ensures
        final(out)@ == old(out)@ + page_name(kind, name@),
{
    let prefix = match kind {
        ItemKind::Module => {
            out.append("index.html");
            return ;
        },
        ItemKind::Constant => "const.",
        ItemKind::Override => "override.",
        ItemKind::GlobalVariable => "var.",
        ItemKind::Struct => "struct.",
        ItemKind::Function => "fn.",
        ItemKind::TypeAlias => "alias.",
    };
    out.append(prefix);
    out.append(name.0.as_str());
    out.append(".html");
    assert(out@ =~= old(out)@ + page_name(kind, name@));
}

impl PagePath {
    /// The path of the page one step below: of a submodule, which lies
    /// in a directory of its own, or of an item of the module.
    pub fn extend(&self, name: &str, url: &str, kind: ItemKind, is_child: bool) -> (r: PagePath)
        requires
            is_child ==> self.level < usize::MAX,
        ensures
            segment_views(r.segments@) == extended(
                segment_views(self.segments@),
                SegmentView { name: name@, url: url@, kind },
                is_child,
            ),
            r.level == if is_child {
                self.level + 1
            } else {
                self.level as int
            },
    {
        let mut segments: Vec<Segment> = Vec::new();
        let mut i: usize = 0;
        while i < self.segments.len()
            invariant
                i <= self.segments.len(),
                segments.len() == i,
                forall|k: int|
                    0 <= k < i ==> (#[trigger] segments@[k])@ == extended(
                        segment_views(self.segments@),
                        SegmentView { name: name@, url: url@, kind },
                        is_child,
                    )[k],
            decreases self.segments.len() - i,
        {
            let old_segment = &self.segments[i];
            let new_url = if is_child {
                let mut u = String::from_str("../");
                u.append(old_segment.url.as_str());
                u
            } else {
                old_segment.url.clone()
            };
            segments.push(
                Segment { name: old_segment.name.clone(), url: new_url, kind: old_segment.kind },
            );
            i += 1;
        }
        segments.push(Segment { name: String::from_str(name), url: String::from_str(url), kind });
        assert(segment_views(segments@) =~= extended(
            segment_views(self.segments@),
            SegmentView { name: name@, url: url@, kind },
            is_child,
        ));
        PagePath {
            segments,
            level: if is_child {
                self.level + 1
            } else {
                self.level
            },
        }
    }

    /// The path from the page to the root of the documentation, three
    /// directories above the directory of the root module.
    pub fn root_url(&self) -> (r: String)
        ensures
            r@ == ups((self.level + 3) as nat),
    {
        let mut out = String::new();
        append_ups(&mut out, self.level);
        out.append("../");
        out.append("../");
        out.append("../");
        proof {
            reveal_with_fuel(ups, 4);
            assert(out@ =~= ups((self.level + 3) as nat));
        }
        out
    }

    /// The path from the page to the page of its source, at the lines of `span`.
    pub fn source_url(&self, span: Option<Span>) -> (r: String)
        ensures
            r@ == source_url_text(segment_views(self.segments@), self.level as nat, span),
    {
        let ghost all = segment_views(self.segments@);
        let mut out = String::new();
        append_ups(&mut out, self.level);
        let ghost up = out@;
        if self.segments.len() == 0 {
            out.append("../src/");
        } else {
            out.append("../src");
            let last = self.segments.len() - 1;
            assert(all.last().kind == self.segments@[last as int].kind);
            let stop = if self.segments[last].kind == ItemKind::Module {
                self.segments.len()
            } else {
                last
            };
            append_directories(&mut out, &self.segments, stop);
            out.append(".html");
        }
        let ghost page = out@;
        append_anchor(&mut out, span);
        assert(out@ =~= source_url_text(all, self.level as nat, span));
        out
    }

    /// The path from the page to the page of a declaration.
    pub fn def_path_url(&self, name: &Ident, kind: ItemKind, def_path: &DefinitionPath) -> (r:
        String)
        ensures
            r@ == def_path_url_text(self.level as nat, name@, kind, def_path@),
    {
        let mut out = String::new();
        match def_path {
            DefinitionPath::Absolute(segments) => {
                append_ups(&mut out, self.level);
                append_folders(&mut out, segments);
            },
            DefinitionPath::Package(dependency, version, segments) => {
                append_ups(&mut out, self.level);
                out.append("../");
                out.append("../");
                out.append("../");
                proof {
                    reveal_with_fuel(ups, 4);
                    assert(out@ =~= ups((self.level + 3) as nat));
                }
                out.append(dependency.as_str());
                out.append("/");
                append_version(&mut out, version);
                out.append("/");
                out.append(dependency.as_str());
                out.append("/");
                append_folders(&mut out, segments);
            },
        }
        append_page_name(&mut out, kind, name);
        assert(out@ =~= def_path_url_text(self.level as nat, name@, kind, def_path@));
        out
    }
}

/// The style class of a step of the way to a page: that of its kind for
/// the last step, `path` for the others.
pub fn path_class(kind: ItemKind, last: bool) -> (r: &'static str)
    ensures
        r@ == if !last {
            "path"@
        } else {
            match kind {
                ItemKind::Module => "module"@,
                ItemKind::Constant => "const"@,
                ItemKind::Override => "override"@,
                ItemKind::GlobalVariable => "var"@,
                ItemKind::Struct => "struct"@,
                ItemKind::Function => "fn"@,
                ItemKind::TypeAlias => "type"@,
            }
        },
{
    if !last {
        return "path";
    }
    match kind {
        ItemKind::Module => "module",
        ItemKind::Constant => "const",
        ItemKind::Override => "override",
        ItemKind::GlobalVariable => "var",
        ItemKind::Struct => "struct",
        ItemKind::Function => "fn",
        ItemKind::TypeAlias => "type",
    }
}

/// The name of a built-in value as it is written in the source.
pub fn builtin_str(builtin: BuiltinValue) -> (r: &'static str)
    ensures
        r@ == match builtin {
            BuiltinValue::VertexIndex => "vertex_index"@,
            BuiltinValue::InstanceIndex => "instance_index"@,
            BuiltinValue::ClipDistances => "clip_distances"@,
            BuiltinValue::Position => "position"@,
            BuiltinValue::FrontFacing => "front_facing"@,
            BuiltinValue::FragDepth => "frag_depth"@,
            BuiltinValue::SampleIndex => "sample_index"@,
            BuiltinValue::SampleMask => "sample_mask"@,
            BuiltinValue::LocalInvocationId => "local_invocation_id"@,
            BuiltinValue::LocalInvocationIndex => "local_invocation_index"@,
            BuiltinValue::GlobalInvocationId => "global_invocation_id"@,
            BuiltinValue::WorkgroupId => "workgroup_id"@,
            BuiltinValue::NumWorkgroups => "num_workgroups"@,
            BuiltinValue::SubgroupInvocationId => "subgroup_invocation_id"@,
            BuiltinValue::SubgroupSize => "subgroup_size"@,
        },
{
    match builtin {
        BuiltinValue::VertexIndex => "vertex_index",
        BuiltinValue::InstanceIndex => "instance_index",
        BuiltinValue::ClipDistances => "clip_distances",
        BuiltinValue::Position => "position",
        BuiltinValue::FrontFacing => "front_facing",
        BuiltinValue::FragDepth => "frag_depth",
        BuiltinValue::SampleIndex => "sample_index",
        BuiltinValue::SampleMask => "sample_mask",
        BuiltinValue::LocalInvocationId => "local_invocation_id",
        BuiltinValue::LocalInvocationIndex => "local_invocation_index",
        BuiltinValue::GlobalInvocationId => "global_invocation_id",
        BuiltinValue::WorkgroupId => "workgroup_id",
        BuiltinValue::NumWorkgroups => "num_workgroups",
        BuiltinValue::SubgroupInvocationId => "subgroup_invocation_id",
        BuiltinValue::SubgroupSize => "subgroup_size",
    }
}

/// The name of a severity as it is written in the source.
pub fn severity_str(severity: DiagnosticSeverity) -> (r: &'static str)
    ensures
        r@ == match severity {
            DiagnosticSeverity::Error => "error"@,
            DiagnosticSeverity::Warning => "warning"@,
            DiagnosticSeverity::Info => "info"@,
            DiagnosticSeverity::Off => "off"@,
        },
{
    match severity {
        DiagnosticSeverity::Error => "error",
        DiagnosticSeverity::Warning => "warning",
        DiagnosticSeverity::Info => "info",
        DiagnosticSeverity::Off => "off",
    }
}

/// The name of an interpolation type as it is written in the source.
pub fn interpolation_str(interpolation: InterpolationType) -> (r: &'static str)
    ensures
        r@ == match interpolation {
            InterpolationType::Perspective => "perspective"@,
            InterpolationType::Linear => "linear"@,
            InterpolationType::Flat => "flat"@,
        },
{
    match interpolation {
        InterpolationType::Perspective => "perspective",
        InterpolationType::Linear => "linear",
        InterpolationType::Flat => "flat",
    }
}

/// The name of an interpolation sampling as it is written in the source.
pub fn sampling_str(sampling: InterpolationSampling) -> (r: &'static str)
    ensures
        r@ == match sampling {
            InterpolationSampling::Center => "center"@,
            InterpolationSampling::Centroid => "centroid"@,
            InterpolationSampling::Sample => "sample"@,
            InterpolationSampling::First => "first"@,
            InterpolationSampling::Either => "either"@,
        },
{
    match sampling {
        InterpolationSampling::Center => "center",
        InterpolationSampling::Centroid => "centroid",
        InterpolationSampling::Sample => "sample",
        InterpolationSampling::First => "first",
        InterpolationSampling::Either => "either",
    }
}

/// Whether a function is shown on one line: it has at most three
/// parameters, none of them with attributes or a conditional.
pub open spec fn fits_one_line(function: Function) -> bool {
    function.parameters@.len() <= 3 && forall|i: int|
        0 <= i < function.parameters@.len() ==> (#[trigger] function.parameters@[i]).attributes@.len()
            == 0 && function.parameters@[i].conditional.is_none()
}

/// Whether a function is shown on one line.
pub fn show_function_inline(function: &Function) -> (r: bool)
    ensures
        r == fits_one_line(*function),
{
    if function.parameters.len() > 3 {
        return false;
    }
    let mut i: usize = 0;
    while i < function.parameters.len()
        invariant
            i <= function.parameters.len(),
            forall|k: int|
                0 <= k < i ==> (#[trigger] function.parameters@[k]).attributes@.len() == 0
                    && function.parameters@[k].conditional.is_none(),
        decreases function.parameters.len() - i,
    {
        if function.parameters[i].attributes.len() > 0 || function.parameters[i].conditional.is_some() {
            return false;
        }
        i += 1;
    }
    true
}

/// The segments of a path with `/` between them.
pub open spec fn slashed(segments: Seq<Seq<char>>) -> Seq<char>
    decreases segments.len(),
{
    if segments.len() == 0 {
        Seq::empty()
    } else if segments.len() == 1 {
        segments[0]
    } else {
        slashed(segments.drop_last()) + "/"@ + segments.last()
    }
}

/// The address of an item in the list of all items: the path of its
/// module, then the page of the item, or the index page in the
/// directory of a module.
pub open spec fn listed_url_text(path: Seq<Seq<char>>, name: Seq<char>, kind: ItemKind) -> Seq<
    char,
> {
    slashed(path) + (match kind {
        ItemKind::Module => "/"@ + name + "/index.html"@,
        ItemKind::Constant => "/const."@ + name + ".html"@,
        ItemKind::Override => "/override."@ + name + ".html"@,
        ItemKind::GlobalVariable => "/var."@ + name + ".html"@,
        ItemKind::Struct => "/struct."@ + name + ".html"@,
        ItemKind::Function => "/fn."@ + name + ".html"@,
        ItemKind::TypeAlias => "/type."@ + name + ".html"@,
    })
}

/// The address of an item in the list of all items.
pub fn listed_url(path: &Vec<String>, name: &str, kind: ItemKind) -> (r: String)
    ensures
        r@ == listed_url_text(text_views(path@), name@, kind),
{
    let ghost all = text_views(path@);
    let mut out = String::new();
    let mut i: usize = 0;
    assert(all.subrange(0, 0) =~= Seq::<Seq<char>>::empty());
    assert(out@ =~= slashed(all.subrange(0, 0)));
    while i < path.len()
        invariant
            i <= path.len(),
            all == text_views(path@),
            out@ == slashed(all.subrange(0, i as int)),
        decreases path.len() - i,
    {
        proof {
            let next = all.subrange(0, i + 1);
            assert(next.drop_last() =~= all.subrange(0, i as int));
            assert(next.last() == path@[i as int]@);
        }
        let ghost before = out@;
        if i > 0 {
            out.append("/");
        }
        out.append(path[i].as_str());
        proof {
            if i == 0 {
                assert(before =~= Seq::<char>::empty());
                assert(out@ =~= path@[0]@);
            }
        }
        i += 1;
    }
    assert(all.subrange(0, path.len() as int) =~= all);
    let (prefix, suffix) = match kind {
        ItemKind::Module => ("/", "/index.html"),
        ItemKind::Constant => ("/const.", ".html"),
        ItemKind::Override => ("/override.", ".html"),
        ItemKind::GlobalVariable => ("/var.", ".html"),
        ItemKind::Struct => ("/struct.", ".html"),
        ItemKind::Function => ("/fn.", ".html"),
        ItemKind::TypeAlias => ("/type.", ".html"),
    };
    out.append(prefix);
    out.append(name);
    out.append(suffix);
    assert(out@ =~= listed_url_text(all, name@, kind));
    out
}

/// `n` spaces.
pub open spec fn spaces(n: nat) -> Seq<char>
    decreases n,
{
    if n == 0 {
        Seq::empty()
    } else {
        spaces((n - 1) as nat).push(' ')
    }
}

/// What stands between attributes that do not share a line, and behind
/// the last attribute: a line feed and the indentation, or one space
/// where no indentation is given.
pub open spec fn separator(new_line_indent: Option<usize>) -> Seq<char> {
    match new_line_indent {
        Some(indent) => seq!['\n'] + spaces(indent as nat),
        None => seq![' '],
    }
}

/// The first `n` attributes laid out: up to three attributes share a
/// line with spaces between them, more are set apart by the separator.
pub open spec fn laid_out(rendered: Seq<Seq<char>>, sep: Seq<char>, n: int) -> Seq<char>
    decreases n,
{
    if n <= 0 || n > rendered.len() {
        Seq::empty()
    } else if n == 1 {
        rendered[0]
    } else if rendered.len() <= 3 {
        laid_out(rendered, sep, n - 1).push(' ') + rendered[n - 1]
    } else {
        laid_out(rendered, sep, n - 1) + sep + rendered[n - 1]
    }
}

/// The text of the attributes of a declaration: nothing where there are
/// none, else the attributes laid out, with the separator behind them.
pub open spec fn attributes_text(rendered: Seq<Seq<char>>, new_line_indent: Option<usize>) -> Seq<
    char,
> {
    if rendered.len() == 0 {
        Seq::empty()
    } else {
        laid_out(rendered, separator(new_line_indent), rendered.len() as int) + separator(
            new_line_indent,
        )
    }
}

/// Lays out the texts of the attributes of a declaration.
pub fn layout_attributes(rendered: &Vec<String>, new_line_indent: Option<usize>) -> (r: String)
    ensures
        r@ == attributes_text(text_views(rendered@), new_line_indent),
{
    let ghost all = text_views(rendered@);
    if rendered.len() == 0 {
        return String::new();
    }
    let mut sep = String::new();
    match new_line_indent {
        Some(indent) => {
            crate::text::push_char(&mut sep, '\n');
            let mut k: usize = 0;
            assert(sep@ =~= seq!['\n'] + spaces(0));
            while k < indent
                invariant
                    k <= indent,
                    sep@ == seq!['\n'] + spaces(k as nat),
                decreases indent - k,
            {
                crate::text::push_char(&mut sep, ' ');
                assert(sep@ =~= seq!['\n'] + spaces((k + 1) as nat));
                k += 1;
            }
        },
        None => {
            crate::text::push_char(&mut sep, ' ');
            assert(sep@ =~= seq![' ']);
        },
    }
    let mut out = String::new();
    let mut i: usize = 0;
    assert(out@ =~= laid_out(all, sep@, 0));
    while i < rendered.len()
        invariant
            i <= rendered.len(),
            all == text_views(rendered@),
            sep@ == separator(new_line_indent),
            out@ == laid_out(all, sep@, i as int),
        decreases rendered.len() - i,
    {
        let ghost before = out@;
        if i != 0 {
            if rendered.len() <= 3 {
                crate::text::push_char(&mut out, ' ');
            } else {
                out.append(sep.as_str());
            }
        }
        out.append(rendered[i].as_str());
        proof {
            assert(all[i as int] == rendered@[i as int]@);
            if i == 0 {
                assert(before =~= Seq::<char>::empty());
                assert(out@ =~= all[0]);
            }
        }
        i += 1;
    }
    out.append(sep.as_str());
    out
}

} // verus!
