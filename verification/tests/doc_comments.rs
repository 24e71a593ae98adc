use wesldoc::ast::{DocComment, DocLink, Version};
use wesldoc::build_doc_comment::{
    build_doc_comment, build_inner_doc_comment, build_outer_doc_comment, comment_from_events,
    link_target,
};
use wesldoc::context::Context;
use wesldoc::syntax::{
    CompiledModule, DeclarationNode, Dependency, FunctionDeclaration, GlobalDeclaration,
    ModulePath, PathOrigin, SourceMap, SourceMapEntry, SourceRange, StructDeclaration,
};

fn strings(items: &[&str]) -> Vec<String> {
    items.iter().map(|s| s.to_string()).collect()
}

fn module() -> CompiledModule {
    CompiledModule {
        declarations: vec![
            DeclarationNode {
                declaration: GlobalDeclaration::Struct(StructDeclaration {
                    attributes: Vec::new(),
                    name: "Light".to_string(),
                    members: Vec::new(),
                }),
                range: SourceRange { start: 0, end: 0 },
                unmangled: None,
            },
            DeclarationNode {
                declaration: GlobalDeclaration::Function(FunctionDeclaration {
                    attributes: Vec::new(),
                    name: "dep_y_shade".to_string(),
                    parameters: Vec::new(),
                    return_attributes: Vec::new(),
                    return_type: None,
                }),
                range: SourceRange { start: 0, end: 0 },
                unmangled: Some("shade".to_string()),
            },
        ],
        source_map: Some(SourceMap {
            entries: vec![SourceMapEntry {
                mangled: "dep_y_shade".to_string(),
                path: ModulePath {
                    origin: PathOrigin::Package("dep".to_string()),
                    components: strings(&["y"]),
                },
                name: "shade".to_string(),
            }],
            default_source: None,
        }),
    }
}

fn link(target: &str, token: Option<&str>) -> DocLink {
    DocLink { target: target.to_string(), token: token.map(|t| t.to_string()) }
}

#[test]
fn references_become_tokens() {
    let compiled = module();
    let path = strings(&["pkg", "a"]);
    let deps = vec![Dependency { name: "dep".to_string(), version: Version::new(1, 2, 3) }];
    let ctx = Context::init(&compiled, &path, &deps);
    let raw = "/// Lights a [`Light`] with [shade], see [the site](https://example.org)\n/// and [nothing].\n";
    let comment = build_outer_doc_comment(raw, &ctx);
    assert_eq!(
        comment,
        Some(DocComment {
            text: " Lights a [`Light`] with [shade], see [the site](https://example.org)\n and [nothing]."
                .to_string(),
            links: vec![
                link("Light", Some("INTRA_DOC_LINK:absolute a struct Light")),
                link("shade", Some("INTRA_DOC_LINK:package dep 1.2.3 y function shade")),
                link("https://example.org", None),
                link("nothing", None),
            ],
        })
    );
}

#[test]
fn comment_without_content_is_no_comment() {
    let compiled = module();
    let path = strings(&["pkg"]);
    let deps = Vec::new();
    let ctx = Context::init(&compiled, &path, &deps);
    assert_eq!(build_outer_doc_comment("///\n", &ctx), None);
    assert_eq!(build_outer_doc_comment("///   \n///\n", &ctx), None);
    assert_eq!(build_outer_doc_comment("", &ctx), None);
    assert_eq!(build_outer_doc_comment("//! inner only\n", &ctx), None);
    assert_eq!(build_inner_doc_comment("/// outer only\n", &ctx), None);
    assert_eq!(
        build_inner_doc_comment("//! # Title\n//!\n//! Body\n", &ctx),
        Some(DocComment { text: " # Title\n\n Body".to_string(), links: Vec::new() })
    );
    assert_eq!(
        build_doc_comment("  ///x\nplain\n///\n", '/', &ctx),
        Some(DocComment { text: "x\n".to_string(), links: Vec::new() })
    );
}

#[test]
fn events_decide_whether_there_is_a_comment() {
    let compiled = module();
    let path = strings(&["pkg"]);
    let deps = Vec::new();
    let ctx = Context::init(&compiled, &path, &deps);
    assert_eq!(comment_from_events("text".to_string(), &Vec::new(), &ctx), None);
    assert_eq!(
        comment_from_events("text".to_string(), &vec![None, None], &ctx),
        Some(DocComment { text: "text".to_string(), links: Vec::new() })
    );
    assert_eq!(
        comment_from_events(
            "text".to_string(),
            &vec![None, Some("Light".to_string()), None, Some("gone".to_string())],
            &ctx
        ),
        Some(DocComment {
            text: "text".to_string(),
            links: vec![
                link("Light", Some("INTRA_DOC_LINK:absolute  struct Light")),
                link("gone", None)
            ],
        })
    );
}

#[test]
fn backticks_around_a_reference_are_dropped() {
    assert_eq!(link_target("`Light`"), "Light");
    assert_eq!(link_target("``a`b``"), "a`b");
    assert_eq!(link_target("plain"), "plain");
    assert_eq!(link_target("```"), "");
    assert_eq!(link_target(""), "");
    assert_eq!(link_target("`x"), "x");
    for text in ["`a`", "``", "a``", "`é`b`", "x"] {
        assert_eq!(link_target(text), text.trim_matches('`'));
    }
}
