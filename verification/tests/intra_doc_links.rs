use wesldoc::ast::{DefinitionPath, ItemKind, Version};
use wesldoc::conditional::Ident;
use wesldoc::display::kind_name;
use wesldoc::intra_doc_link::{
    append_decimal, kind_from_word, link_from_parts, split_pieces, split_segments, IntraDocLink,
};

fn strings(items: &[&str]) -> Vec<String> {
    items.iter().map(|s| s.to_string()).collect()
}

fn absolute() -> IntraDocLink {
    IntraDocLink {
        def_path: DefinitionPath::Absolute(strings(&["a", "b"])),
        kind: ItemKind::Struct,
        name: Ident("Light".to_string()),
    }
}

fn package() -> IntraDocLink {
    IntraDocLink {
        def_path: DefinitionPath::Package(
            "dep".to_string(),
            Version {
                major: 1,
                minor: 20,
                patch: 3,
                pre: "alpha.1".to_string(),
                build: "b7".to_string(),
            },
            strings(&["y", "z"]),
        ),
        kind: ItemKind::GlobalVariable,
        name: Ident("v".to_string()),
    }
}

#[test]
fn token_of_an_absolute_reference() {
    assert_eq!(absolute().to_text(), "INTRA_DOC_LINK:absolute a::b struct Light");
    let root = IntraDocLink {
        def_path: DefinitionPath::Absolute(Vec::new()),
        kind: ItemKind::Module,
        name: Ident("m".to_string()),
    };
    assert_eq!(root.to_text(), "INTRA_DOC_LINK:absolute  module m");
}

#[test]
fn token_of_a_package_reference() {
    assert_eq!(
        package().to_text(),
        "INTRA_DOC_LINK:package dep 1.20.3-alpha.1+b7 y::z global_variable v"
    );
}

#[test]
fn version_text_is_that_of_semver() {
    for text in ["0.0.0", "1.2.3", "10.200.3000", "1.0.0-alpha", "1.0.0+build", "1.0.0-rc.1+7",
        "18446744073709551615.0.9"]
    {
        let parsed = semver::Version::parse(text).unwrap();
        let ours = Version {
            major: parsed.major,
            minor: parsed.minor,
            patch: parsed.patch,
            pre: parsed.pre.as_str().to_string(),
            build: parsed.build.as_str().to_string(),
        };
        assert_eq!(ours.to_text(), text);
        assert_eq!(ours.to_text(), parsed.to_string());
        assert_eq!(ours.duplicate(), ours);
    }
    assert_eq!(Version::new(1, 2, 3).to_text(), "1.2.3");
    let mut out = "n=".to_string();
    append_decimal(&mut out, 9070);
    assert_eq!(out, "n=9070");
}

#[test]
fn tokens_are_read_back() {
    assert_eq!(IntraDocLink::from_str(&absolute().to_text()), Some(absolute()));
    let at_root = IntraDocLink {
        def_path: DefinitionPath::Absolute(Vec::new()),
        kind: ItemKind::Constant,
        name: Ident("c".to_string()),
    };
    assert_eq!(
        IntraDocLink::from_str(&at_root.to_text()),
        Some(IntraDocLink {
            def_path: DefinitionPath::Absolute(strings(&[""])),
            kind: ItemKind::Constant,
            name: Ident("c".to_string()),
        })
    );
    assert_eq!(IntraDocLink::from_str(&package().to_text()), Some(package()));
    assert_eq!(
        IntraDocLink::from_str("INTRA_DOC_LINK:INTRA_DOC_LINK:absolute a::b struct Light ignored"),
        Some(absolute())
    );
    assert_eq!(
        IntraDocLink::from_str("INTRA_DOC_LINK:package dep 1.2.3 y function f"),
        Some(IntraDocLink {
            def_path: DefinitionPath::Package(
                "dep".to_string(),
                Version::new(1, 2, 3),
                strings(&["y"])
            ),
            kind: ItemKind::Function,
            name: Ident("f".to_string()),
        })
    );
}

#[test]
fn broken_tokens_are_refused() {
    for text in [
        "",
        "absolute a struct S",
        " INTRA_DOC_LINK:absolute a struct S",
        "INTRA_DOC_LINK:",
        "INTRA_DOC_LINK:absolute",
        "INTRA_DOC_LINK:absolute a",
        "INTRA_DOC_LINK:absolute a struct",
        "INTRA_DOC_LINK:absolute a thing S",
        "INTRA_DOC_LINK: absolute a struct S",
        "INTRA_DOC_LINK:relative a struct S",
        "INTRA_DOC_LINK:package dep 1.2 y struct S",
        "INTRA_DOC_LINK:package dep one y struct S",
        "INTRA_DOC_LINK:package dep 1.2.3 y struct",
        "INTRA_DOC_LINK:package dep 1.2.3 y Struct S",
    ] {
        assert_eq!(IntraDocLink::from_str(text), None);
    }
}

#[test]
fn words_are_split() {
    let chars: Vec<char> = "a  b ".chars().collect();
    assert_eq!(split_pieces(&chars, ' ', 0), strings(&["a", "", "b", ""]));
    assert_eq!(split_pieces(&chars, ' ', 2), strings(&["", "b", ""]));
    assert_eq!(split_pieces(&chars, ' ', 5), strings(&[""]));
    assert_eq!(split_segments("a::b"), strings(&["a", "b"]));
    assert_eq!(split_segments("a:::b"), strings(&["a", ":b"]));
    assert_eq!(split_segments("::"), strings(&["", ""]));
    assert_eq!(split_segments("a:b:"), strings(&["a:b:"]));
    assert_eq!(split_segments(""), strings(&[""]));
    assert_eq!(split_segments("x::"), strings(&["x", ""]));
    for text in ["a::b", "a:::b", "::::", ":", "q::r::s", "::x"] {
        let want: Vec<String> = text.split("::").map(|s| s.to_string()).collect();
        assert_eq!(split_segments(text), want);
    }
}

#[test]
fn kinds_have_their_words() {
    for kind in [
        ItemKind::Module,
        ItemKind::Constant,
        ItemKind::Override,
        ItemKind::GlobalVariable,
        ItemKind::Struct,
        ItemKind::Function,
        ItemKind::TypeAlias,
    ] {
        assert_eq!(kind_from_word(&kind_name(kind).to_string()), Some(kind));
    }
    assert_eq!(kind_name(ItemKind::TypeAlias), "type_alias");
    assert_eq!(kind_from_word(&"alias".to_string()), None);
}

#[test]
fn package_token_needs_its_version() {
    let parts = strings(&["package", "dep", "1.2.3", "y", "struct", "S"]);
    assert_eq!(link_from_parts(&parts, None), None);
    assert_eq!(
        link_from_parts(&parts, Some(Version::new(9, 9, 9))),
        Some(IntraDocLink {
            def_path: DefinitionPath::Package(
                "dep".to_string(),
                Version::new(9, 9, 9),
                strings(&["y"])
            ),
            kind: ItemKind::Struct,
            name: Ident("S".to_string()),
        })
    );
    assert_eq!(link_from_parts(&Vec::new(), None), None);
}
