use wesldoc::ast::Span;
use wesldoc::build_doc_comment::comment_text;
use wesldoc::calculate_span::span_of_range;
use wesldoc::doc_events::{raise_heading_level, short_selection, EventKind};
use wesldoc::extract_comments::{extract_comments_inner, extract_comments_outer, white_space};
use wesldoc::name_order::{sort_by_name, text_le};
use wesldoc::ast::Module;
use wesldoc::syntax::SourceRange;
use wesldoc::text::{chars_of, clone_strings, string_of};
use wesldoc::wesl_toml::{
    default_root, latest_known_edition, name_from_stem, DependenciesAuto, WeslToml,
    WeslTomlDependency, WeslTomlError, WeslTomlPackage, WeslTomlPackageManager,
};

fn span(line_start: usize) -> Span {
    Span { line_start, line_end: line_start }
}

#[test]
fn inner_comment_is_the_head_of_the_text() {
    assert_eq!(
        extract_comments_inner("//! One\n\n   //! Two\r\nfn f() {}\n//! Three\n"),
        "//! One\n//! Two\n"
    );
    assert_eq!(extract_comments_inner("fn f() {}\n//! late\n"), "");
    assert_eq!(extract_comments_inner(""), "");
    assert_eq!(extract_comments_inner("//! no line break"), "//! no line break\n");
    assert_eq!(extract_comments_inner("// plain\n//! x\n"), "");
    assert_eq!(extract_comments_inner("\u{a0}\t//! padded\n"), "//! padded\n");
}

#[test]
fn outer_comment_stands_above_the_declaration() {
    let source = "/// far\nfn g() {}\n/// One\n\n  /// Two\nconst a = 1;\n/// below\n";
    assert_eq!(extract_comments_outer(span(6), source), "/// One\n/// Two\n");
    assert_eq!(extract_comments_outer(span(2), source), "/// far\n");
    assert_eq!(extract_comments_outer(span(3), source), "");
    assert_eq!(extract_comments_outer(span(1), source), "");
    assert_eq!(extract_comments_outer(span(0), source), "");
    assert_eq!(extract_comments_outer(span(100), source), "/// below\n");
    assert_eq!(extract_comments_outer(span(8), source), "/// below\n");
    assert_eq!(extract_comments_outer(span(4), "//! a\n/// b\n//// c\nx"), "/// b\n//// c\n");
}

#[test]
fn doc_text_loses_the_markers() {
    assert_eq!(comment_text("/// One\n/// Two\n", '/'), Some(" One\n Two".to_string()));
    assert_eq!(
        comment_text("//! # Title\n//!\n//! Body\n", '!'),
        Some(" # Title\n\n Body".to_string())
    );
    assert_eq!(comment_text("", '/'), None);
    assert_eq!(comment_text("//! inner only\n", '/'), None);
    assert_eq!(comment_text("  ///x\nplain\n///\n", '/'), Some("x\n".to_string()));
    assert_eq!(comment_text("///\n", '/'), Some("".to_string()));
}

#[test]
fn span_counts_lines_from_one() {
    let source = "ab\ncd\nef";
    let lines = |start, end| {
        let s = span_of_range(SourceRange { start, end }, source);
        (s.line_start, s.line_end)
    };
    assert_eq!(lines(0, 2), (1, 1));
    assert_eq!(lines(0, 3), (1, 1));
    assert_eq!(lines(0, 4), (1, 2));
    assert_eq!(lines(3, 5), (2, 2));
    assert_eq!(lines(2, 8), (1, 3));
    assert_eq!(lines(6, 8), (3, 3));
    assert_eq!(lines(7, 9), (3, 3));
    assert_eq!(lines(8, 8), (1, 3));
    assert_eq!(lines(9, 12), (1, 1));
    assert_eq!(lines(0, 0), (1, 1));
    assert_eq!(lines(4, 0), (1, 1));
    assert_eq!(lines(4, 2), (1, 1));
    assert_eq!(lines(1, 100), (1, 1));
    assert_eq!(lines(4, 100), (2, 2));
    let empty = span_of_range(SourceRange { start: 0, end: 0 }, "");
    assert_eq!((empty.line_start, empty.line_end), (1, 1));
    let wide = span_of_range(SourceRange { start: 3, end: 4 }, "é\nx\n");
    assert_eq!((wide.line_start, wide.line_end), (2, 2));
}

#[test]
fn white_space_is_the_unicode_property() {
    for c in [' ', '\t', '\n', '\r', '\u{b}', '\u{c}', '\u{85}', '\u{a0}', '\u{1680}', '\u{2000}',
        '\u{200a}', '\u{2028}', '\u{2029}', '\u{202f}', '\u{205f}', '\u{3000}']
    {
        assert!(white_space(c));
        assert!(c.is_whitespace());
    }
    for c in ['a', '/', '\u{200b}', '\u{8}', '\u{e}', '\u{2060}', '\u{feff}'] {
        assert!(!white_space(c));
        assert!(!c.is_whitespace());
    }
}

#[test]
fn names_are_ordered_by_their_bytes() {
    assert!(text_le("", ""));
    assert!(text_le("", "a"));
    assert!(!text_le("a", ""));
    assert!(text_le("a", "a"));
    assert!(text_le("a", "ab"));
    assert!(!text_le("ab", "a"));
    assert!(text_le("Z", "a"));
    assert!(!text_le("a", "Z"));
    assert!(text_le("z", "é"));
    assert!(text_le("abc", "abd"));
    for (a, b) in [("x", "y"), ("é", "z"), ("ab", "a"), ("", "q"), ("same", "same")] {
        assert_eq!(text_le(a, b), a <= b);
        assert_eq!(text_le(b, a), b <= a);
    }
}

#[test]
fn modules_are_sorted_by_name() {
    let mut modules: Vec<Module> =
        ["m", "b", "", "a", "b", "B"].iter().map(|n| Module::empty(n.to_string())).collect();
    modules[1].source = Some("first b".to_string());
    sort_by_name(&mut modules);
    let names: Vec<&str> = modules.iter().map(|m| m.name.as_str()).collect();
    assert_eq!(names, vec!["", "B", "a", "b", "b", "m"]);
    assert_eq!(modules[3].source.as_deref(), Some("first b"));
    let mut none: Vec<Module> = Vec::new();
    sort_by_name(&mut none);
    assert!(none.is_empty());
}

#[test]
fn strings_and_characters_convert() {
    assert_eq!(chars_of("aé\n"), vec!['a', 'é', '\n']);
    assert_eq!(string_of(&vec!['a', 'b', 'c', 'd'], 1, 3), "bc");
    assert_eq!(string_of(&vec!['a'], 1, 1), "");
    let list = vec!["x".to_string(), "y".to_string()];
    assert_eq!(clone_strings(&list), list);
}

fn manifest(
    edition: &str,
    manager: Option<WeslTomlPackageManager>,
    auto: Option<DependenciesAuto>,
    dependencies: usize,
) -> WeslToml {
    WeslToml {
        package: WeslTomlPackage {
            edition: edition.to_string(),
            root: default_root(),
            package_manager: manager,
            dependencies: auto,
        },
        dependencies: (0..dependencies)
            .map(|i| (format!("d{}", i), WeslTomlDependency { package: None, path: None }))
            .collect(),
    }
}

#[test]
fn manifest_rules_are_checked_in_order() {
    assert_eq!(manifest("unstable_2025", None, None, 0).validate(), Ok(()));
    assert_eq!(
        manifest("unstable_2025", Some(WeslTomlPackageManager::Cargo), None, 2).validate(),
        Ok(())
    );
    assert_eq!(
        manifest("unstable_2025", None, Some(DependenciesAuto::Auto), 0).validate(),
        Ok(())
    );
    assert_eq!(
        manifest("2024", Some(WeslTomlPackageManager::Npm), Some(DependenciesAuto::Auto), 1)
            .validate(),
        Err(WeslTomlError::UnsupportedEdition)
    );
    assert_eq!(
        manifest("unstable_2025", Some(WeslTomlPackageManager::Npm), Some(DependenciesAuto::Auto), 1)
            .validate(),
        Err(WeslTomlError::UnsupportedPackageManager)
    );
    assert_eq!(
        manifest("unstable_2025", None, Some(DependenciesAuto::Auto), 1).validate(),
        Err(WeslTomlError::AutoWithExplicitDependencies)
    );
    assert_eq!(latest_known_edition(), "unstable_2025");
    assert_eq!(default_root(), "shaders");
    assert_eq!(
        WeslTomlError::UnsupportedEdition.message(),
        "only edition 'unstable_2025' is supported"
    );
    assert_eq!(
        WeslTomlError::UnsupportedPackageManager.message(),
        "npm package manager is not supported yet"
    );
    assert_eq!(
        WeslTomlError::AutoWithExplicitDependencies.message(),
        "cannot have both 'dependencies = \"auto\"' and explicit dependencies"
    );
}

#[test]
fn module_names_have_no_hyphens() {
    assert_eq!(name_from_stem("my-shader-lib"), "my_shader_lib");
    assert_eq!(name_from_stem("plain"), "plain");
    assert_eq!(name_from_stem(""), "");
}

#[test]
fn short_form_keeps_the_first_block() {
    let kinds = vec![
        EventKind::Start,
        EventKind::Inline,
        EventKind::Start,
        EventKind::Inline,
        EventKind::End,
        EventKind::Break,
        EventKind::End,
        EventKind::Start,
        EventKind::Inline,
        EventKind::FootnoteReference,
        EventKind::End,
    ];
    assert_eq!(
        short_selection(&kinds),
        vec![true, true, true, true, true, false, true, false, false, true, false]
    );
    assert_eq!(short_selection(&vec![EventKind::Break, EventKind::Inline]), vec![false, false]);
    assert_eq!(short_selection(&vec![EventKind::Inline, EventKind::Inline]), vec![true, true]);
    assert_eq!(
        short_selection(&vec![EventKind::End, EventKind::Start, EventKind::End, EventKind::Inline]),
        vec![true, true, true, true]
    );
    assert_eq!(short_selection(&Vec::new()), Vec::<bool>::new());
    assert_eq!(raise_heading_level(1), 2);
    assert_eq!(raise_heading_level(5), 6);
    assert_eq!(raise_heading_level(6), 6);
}
