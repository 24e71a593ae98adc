use wesldoc::ast::{
    Attribute, BuiltinValue, DefinitionPath, DiagnosticSeverity, Function, FunctionParameter,
    InterpolationSampling, InterpolationType, ItemKind, Span, TypeExpression, Version,
};
use wesldoc::conditional::{Conditional, Ident};
use wesldoc::page_path::{
    builtin_str, interpolation_str, layout_attributes, listed_url, path_class, sampling_str,
    severity_str,
    show_function_inline, PagePath, Segment,
};

fn strings(items: &[&str]) -> Vec<String> {
    items.iter().map(|s| s.to_string()).collect()
}

fn segment(name: &str, url: &str, kind: ItemKind) -> Segment {
    Segment { name: name.to_string(), url: url.to_string(), kind }
}

fn root() -> PagePath {
    PagePath { segments: vec![segment("pkg", "index.html", ItemKind::Module)], level: 0 }
}

#[test]
fn page_of_a_submodule_lies_one_level_lower() {
    let sub = root().extend("sub", "index.html", ItemKind::Module, true);
    assert_eq!(sub.level, 1);
    assert_eq!(
        sub.segments,
        vec![
            segment("pkg", "../index.html", ItemKind::Module),
            segment("sub", "index.html", ItemKind::Module)
        ]
    );
    let item = sub.extend("f", "#", ItemKind::Function, false);
    assert_eq!(item.level, 1);
    assert_eq!(
        item.segments,
        vec![
            segment("pkg", "../index.html", ItemKind::Module),
            segment("sub", "index.html", ItemKind::Module),
            segment("f", "#", ItemKind::Function)
        ]
    );
    assert_eq!(root().root_url(), "../../../");
    assert_eq!(sub.root_url(), "../../../../");
}

#[test]
fn source_pages_are_addressed_by_module() {
    let sub = root().extend("sub", "index.html", ItemKind::Module, true);
    let item = sub.extend("f", "#", ItemKind::Function, false);
    assert_eq!(root().source_url(None), "../src/pkg.html");
    assert_eq!(sub.source_url(None), "../../src/pkg/sub.html");
    assert_eq!(
        item.source_url(Some(Span { line_start: 12, line_end: 12 })),
        "../../src/pkg/sub.html#12"
    );
    assert_eq!(
        item.source_url(Some(Span { line_start: 9, line_end: 120 })),
        "../../src/pkg/sub.html#9-120"
    );
    let empty = PagePath { segments: Vec::new(), level: 2 };
    assert_eq!(empty.source_url(None), "../../../src/");
    let lone = PagePath { segments: vec![segment("c", "#", ItemKind::Constant)], level: 0 };
    assert_eq!(lone.source_url(Some(Span { line_start: 0, line_end: 1 })), "../src.html#0-1");
}

#[test]
fn declarations_are_addressed_from_any_level() {
    let sub = root().extend("sub", "index.html", ItemKind::Module, true);
    let name = Ident("Light".to_string());
    let inside = DefinitionPath::Absolute(strings(&["a", "b"]));
    assert_eq!(sub.def_path_url(&name, ItemKind::Struct, &inside), "../a/b/struct.Light.html");
    assert_eq!(root().def_path_url(&name, ItemKind::Module, &inside), "a/b/index.html");
    assert_eq!(
        root().def_path_url(&name, ItemKind::Constant, &DefinitionPath::Absolute(Vec::new())),
        "const.Light.html"
    );
    let outside =
        DefinitionPath::Package("dep".to_string(), Version::new(1, 2, 3), strings(&["y", "z"]));
    assert_eq!(
        sub.def_path_url(&name, ItemKind::TypeAlias, &outside),
        "../../../../dep/1.2.3/dep/y/z/alias.Light.html"
    );
    assert_eq!(
        root().def_path_url(&name, ItemKind::Function, &outside),
        "../../../dep/1.2.3/dep/y/z/fn.Light.html"
    );
    assert_eq!(
        root().def_path_url(&name, ItemKind::GlobalVariable, &inside),
        "a/b/var.Light.html"
    );
    assert_eq!(root().def_path_url(&name, ItemKind::Override, &inside), "a/b/override.Light.html");
}

#[test]
fn listed_items_have_their_addresses() {
    assert_eq!(listed_url(&strings(&["pkg", "a"]), "m", ItemKind::Module), "pkg/a/m/index.html");
    assert_eq!(listed_url(&strings(&["pkg"]), "c", ItemKind::Constant), "pkg/const.c.html");
    assert_eq!(listed_url(&strings(&["pkg"]), "T", ItemKind::TypeAlias), "pkg/type.T.html");
    assert_eq!(listed_url(&Vec::new(), "f", ItemKind::Function), "/fn.f.html");
    assert_eq!(listed_url(&strings(&["p", "q", "r"]), "S", ItemKind::Struct), "p/q/r/struct.S.html");
    assert_eq!(listed_url(&strings(&["p"]), "v", ItemKind::GlobalVariable), "p/var.v.html");
    assert_eq!(listed_url(&strings(&["p"]), "o", ItemKind::Override), "p/override.o.html");
}

#[test]
fn names_of_the_source_are_kept() {
    assert_eq!(path_class(ItemKind::Struct, false), "path");
    assert_eq!(path_class(ItemKind::Struct, true), "struct");
    assert_eq!(path_class(ItemKind::TypeAlias, true), "type");
    assert_eq!(path_class(ItemKind::GlobalVariable, true), "var");
    assert_eq!(builtin_str(BuiltinValue::LocalInvocationIndex), "local_invocation_index");
    assert_eq!(builtin_str(BuiltinValue::ClipDistances), "clip_distances");
    assert_eq!(severity_str(DiagnosticSeverity::Off), "off");
    assert_eq!(interpolation_str(InterpolationType::Flat), "flat");
    assert_eq!(sampling_str(InterpolationSampling::Centroid), "centroid");
}

fn parameter(attributes: Vec<Attribute>, conditional: Option<Conditional>) -> FunctionParameter {
    FunctionParameter {
        name: Ident("p".to_string()),
        ty: TypeExpression::TypeIdentifier { name: Ident("u32".to_string()), template_args: None },
        attributes,
        conditional,
    }
}

fn function(parameters: Vec<FunctionParameter>) -> Function {
    Function {
        name: Ident("f".to_string()),
        parameters,
        ret: None,
        attributes: Vec::new(),
        return_attributes: Vec::new(),
        conditional: None,
        comment: None,
        span: None,
    }
}

#[test]
fn short_functions_fit_one_line() {
    assert!(show_function_inline(&function(Vec::new())));
    assert!(show_function_inline(&function(vec![
        parameter(Vec::new(), None),
        parameter(Vec::new(), None),
        parameter(Vec::new(), None)
    ])));
    assert!(!show_function_inline(&function(vec![
        parameter(Vec::new(), None),
        parameter(Vec::new(), None),
        parameter(Vec::new(), None),
        parameter(Vec::new(), None)
    ])));
    assert!(!show_function_inline(&function(vec![parameter(vec![Attribute::Invariant], None)])));
    assert!(!show_function_inline(&function(vec![parameter(
        Vec::new(),
        Some(Conditional::True)
    )])));
}

#[test]
fn attributes_share_a_line_up_to_three() {
    assert_eq!(layout_attributes(&Vec::new(), Some(4)), "");
    assert_eq!(layout_attributes(&strings(&["@a"]), None), "@a ");
    assert_eq!(layout_attributes(&strings(&["@a", "@b", "@c"]), None), "@a @b @c ");
    assert_eq!(layout_attributes(&strings(&["@a", "@b", "@c"]), Some(2)), "@a @b @c\n  ");
    assert_eq!(
        layout_attributes(&strings(&["@a", "@b", "@c", "@d"]), Some(2)),
        "@a\n  @b\n  @c\n  @d\n  "
    );
    assert_eq!(layout_attributes(&strings(&["@a", "@b", "@c", "@d"]), None), "@a @b @c @d ");
    assert_eq!(layout_attributes(&strings(&["@a"]), Some(0)), "@a\n");
}
