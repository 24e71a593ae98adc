use wesldoc::ast::{DefinitionPath, ItemKind, Version};
use wesldoc::conditional::Ident;
use wesldoc::context::{get_decl, resolve_path, Context, Declared, LocalEntry, ResolveTarget};
use wesldoc::syntax::{
    CompiledModule, Declaration, DeclarationKind, DeclarationNode, Dependency,
    FunctionDeclaration, GlobalDeclaration, ModulePath, PathOrigin, SourceMap, SourceMapEntry,
    SourceRange, StructDeclaration, TypeAliasDeclaration,
};

fn strings(items: &[&str]) -> Vec<String> {
    items.iter().map(|s| s.to_string()).collect()
}

fn at(declaration: GlobalDeclaration, unmangled: Option<&str>) -> DeclarationNode {
    DeclarationNode {
        declaration,
        range: SourceRange { start: 0, end: 0 },
        unmangled: unmangled.map(|s| s.to_string()),
    }
}

fn structure(name: &str) -> GlobalDeclaration {
    GlobalDeclaration::Struct(StructDeclaration {
        attributes: Vec::new(),
        name: name.to_string(),
        members: Vec::new(),
    })
}

fn function(name: &str) -> GlobalDeclaration {
    GlobalDeclaration::Function(FunctionDeclaration {
        attributes: Vec::new(),
        name: name.to_string(),
        parameters: Vec::new(),
        return_attributes: Vec::new(),
        return_type: None,
    })
}

fn declaration(name: &str, kind: DeclarationKind) -> GlobalDeclaration {
    GlobalDeclaration::Declaration(Declaration {
        attributes: Vec::new(),
        kind,
        name: name.to_string(),
        ty: None,
        initializer: None,
    })
}

fn entry(mangled: &str, origin: PathOrigin, components: &[&str], name: &str) -> SourceMapEntry {
    SourceMapEntry {
        mangled: mangled.to_string(),
        path: ModulePath { origin, components: strings(components) },
        name: name.to_string(),
    }
}

fn compiled(declarations: Vec<DeclarationNode>, entries: Vec<SourceMapEntry>) -> CompiledModule {
    CompiledModule {
        declarations,
        source_map: Some(SourceMap { entries, default_source: None }),
    }
}

fn dep(name: &str, major: u64, minor: u64, patch: u64) -> Dependency {
    Dependency { name: name.to_string(), version: Version::new(major, minor, patch) }
}

#[test]
fn target_text_is_kept() {
    assert_eq!(ResolveTarget::Name("abc").as_str(), "abc");
    assert_eq!(ResolveTarget::MaybeMangled("x_y").as_str(), "x_y");
}

#[test]
fn relative_path_replaces_the_last_segments() {
    let path = ModulePath { origin: PathOrigin::Relative(1), components: strings(&["x"]) };
    let r = resolve_path(&path, &strings(&["pkg", "a", "b"]), &Vec::new());
    assert_eq!(r, Some(DefinitionPath::Absolute(strings(&["a", "x"]))));
}

#[test]
fn relative_path_of_zero_stays_in_the_module() {
    let path = ModulePath { origin: PathOrigin::Relative(0), components: Vec::new() };
    let r = resolve_path(&path, &strings(&["pkg", "a", "b"]), &Vec::new());
    assert_eq!(r, Some(DefinitionPath::Absolute(strings(&["a", "b"]))));
}

#[test]
fn relative_path_up_to_the_root() {
    let path = ModulePath { origin: PathOrigin::Relative(2), components: strings(&["x", "y"]) };
    let r = resolve_path(&path, &strings(&["pkg", "a", "b"]), &Vec::new());
    assert_eq!(r, Some(DefinitionPath::Absolute(strings(&["x", "y"]))));
}

#[test]
fn relative_path_above_the_root_fails() {
    let path = ModulePath { origin: PathOrigin::Relative(3), components: strings(&["x"]) };
    assert_eq!(resolve_path(&path, &strings(&["pkg", "a", "b"]), &Vec::new()), None);
    let path = ModulePath { origin: PathOrigin::Relative(usize::MAX), components: Vec::new() };
    assert_eq!(resolve_path(&path, &strings(&["pkg"]), &Vec::new()), None);
    let path = ModulePath { origin: PathOrigin::Relative(0), components: Vec::new() };
    assert_eq!(resolve_path(&path, &Vec::new(), &Vec::new()), None);
}

#[test]
fn absolute_path_is_unchanged() {
    let path = ModulePath { origin: PathOrigin::Absolute, components: strings(&["m", "n"]) };
    let r = resolve_path(&path, &strings(&["pkg", "a"]), &Vec::new());
    assert_eq!(r, Some(DefinitionPath::Absolute(strings(&["m", "n"]))));
}

#[test]
fn package_path_takes_the_resolved_version() {
    let path = ModulePath {
        origin: PathOrigin::Package("dep".to_string()),
        components: strings(&["y", "z"]),
    };
    let deps = vec![dep("other", 0, 1, 0), dep("dep", 1, 2, 3)];
    let r = resolve_path(&path, &strings(&["pkg"]), &deps);
    assert_eq!(
        r,
        Some(DefinitionPath::Package("dep".to_string(), Version::new(1, 2, 3), strings(&["y", "z"])))
    );
}

#[test]
fn package_path_of_an_unknown_dependency_fails() {
    let path = ModulePath {
        origin: PathOrigin::Package("dep".to_string()),
        components: strings(&["y"]),
    };
    assert_eq!(resolve_path(&path, &strings(&["pkg"]), &vec![dep("other", 1, 0, 0)]), None);
}

#[test]
fn local_name_resolves_to_its_module() {
    let module = compiled(vec![at(structure("S"), None)], Vec::new());
    let path = strings(&["pkg", "a"]);
    let deps = Vec::new();
    let ctx = Context::init(&module, &path, &deps);
    assert_eq!(ctx.local, vec![LocalEntry { name: "S".to_string(), kind: ItemKind::Struct }]);
    assert!(ctx.is_local(&structure("S")));
    assert!(!ctx.is_local(&structure("T")));
    assert!(!ctx.is_local(&GlobalDeclaration::Void));
    let r = ctx.resolve_reference(ResolveTarget::MaybeMangled("S"));
    assert_eq!(
        r,
        Some((Ident("S".to_string()), ItemKind::Struct, DefinitionPath::Absolute(strings(&["a"]))))
    );
    let r = ctx.resolve_reference(ResolveTarget::Name("S"));
    assert_eq!(
        r,
        Some((Ident("S".to_string()), ItemKind::Struct, DefinitionPath::Absolute(strings(&["a"]))))
    );
}

#[test]
fn mapped_name_is_not_local() {
    let module = compiled(
        vec![at(structure("package_lib_S"), Some("S")), at(function("main"), None)],
        vec![entry("package_lib_S", PathOrigin::Absolute, &["lib"], "S")],
    );
    let path = strings(&["pkg", "a"]);
    let deps = Vec::new();
    let ctx = Context::init(&module, &path, &deps);
    assert_eq!(ctx.local, vec![LocalEntry { name: "main".to_string(), kind: ItemKind::Function }]);
    assert!(!ctx.is_local(&structure("package_lib_S")));
    let r = ctx.resolve_reference(ResolveTarget::MaybeMangled("package_lib_S"));
    assert_eq!(
        r,
        Some((Ident("S".to_string()), ItemKind::Struct, DefinitionPath::Absolute(strings(&["lib"]))))
    );
    assert_eq!(ctx.resolve_reference(ResolveTarget::MaybeMangled("S")), None);
    let r = ctx.resolve_reference(ResolveTarget::Name("S"));
    assert_eq!(
        r,
        Some((Ident("S".to_string()), ItemKind::Struct, DefinitionPath::Absolute(strings(&["lib"]))))
    );
    assert_eq!(ctx.resolve_reference(ResolveTarget::Name("package_lib_S")), None);
}

#[test]
fn relative_reference_resolves_against_the_current_module() {
    let module = compiled(
        vec![at(function("super_x_f"), Some("f"))],
        vec![entry("super_x_f", PathOrigin::Relative(1), &["x"], "f")],
    );
    let path = strings(&["pkg", "a", "b"]);
    let deps = Vec::new();
    let ctx = Context::init(&module, &path, &deps);
    let r = ctx.resolve_reference(ResolveTarget::MaybeMangled("super_x_f"));
    assert_eq!(
        r,
        Some((
            Ident("f".to_string()),
            ItemKind::Function,
            DefinitionPath::Absolute(strings(&["a", "x"]))
        ))
    );
}

#[test]
fn package_reference_resolves_with_the_version_table() {
    let module = compiled(
        vec![at(declaration("dep_y_z_K", DeclarationKind::Const), Some("K"))],
        vec![entry("dep_y_z_K", PathOrigin::Package("dep".to_string()), &["y", "z"], "K")],
    );
    let path = strings(&["pkg"]);
    let deps = vec![dep("dep", 1, 2, 3)];
    let ctx = Context::init(&module, &path, &deps);
    let r = ctx.resolve_reference(ResolveTarget::Name("K"));
    assert_eq!(
        r,
        Some((
            Ident("K".to_string()),
            ItemKind::Constant,
            DefinitionPath::Package(
                "dep".to_string(),
                Version::new(1, 2, 3),
                strings(&["y", "z"])
            )
        ))
    );
    let none = Vec::new();
    let ctx = Context::init(&module, &path, &none);
    assert_eq!(ctx.resolve_reference(ResolveTarget::Name("K")), None);
}

#[test]
fn undefined_name_resolves_to_nothing() {
    let module = compiled(vec![at(structure("S"), None)], Vec::new());
    let path = strings(&["pkg"]);
    let deps = Vec::new();
    let ctx = Context::init(&module, &path, &deps);
    assert_eq!(ctx.resolve_reference(ResolveTarget::MaybeMangled("bar")), None);
    assert_eq!(ctx.resolve_reference(ResolveTarget::Name("bar")), None);
}

#[test]
fn without_source_map_only_local_names_resolve() {
    let module = CompiledModule {
        declarations: vec![at(structure("S"), Some("T"))],
        source_map: None,
    };
    let path = strings(&["pkg"]);
    let deps = Vec::new();
    let ctx = Context::init(&module, &path, &deps);
    assert!(ctx.is_local(&structure("S")));
    assert_eq!(ctx.resolve_reference(ResolveTarget::Name("T")), None);
    assert_eq!(ctx.default_source(), None);
}

#[test]
fn overridable_constant_is_found_through_the_map() {
    let module = compiled(
        vec![at(declaration("package_m_o", DeclarationKind::Override), Some("o"))],
        vec![entry("package_m_o", PathOrigin::Absolute, &["m"], "o")],
    );
    let local = Vec::new();
    let found = Declared {
        name: "o".to_string(),
        kind: ItemKind::Override,
        path: ModulePath { origin: PathOrigin::Absolute, components: strings(&["m"]) },
    };
    assert_eq!(get_decl(&local, &module, false, &"package_m_o".to_string()), Some(found.clone()));
    assert_eq!(get_decl(&local, &module, true, &"o".to_string()), Some(found));
}

#[test]
fn imported_override_is_not_local() {
    let module = compiled(
        vec![
            at(declaration("package_m_o", DeclarationKind::Override), Some("o")),
            at(declaration("own", DeclarationKind::Override), None),
        ],
        vec![entry("package_m_o", PathOrigin::Absolute, &["m"], "o")],
    );
    let path = strings(&["pkg", "a"]);
    let deps = Vec::new();
    let ctx = Context::init(&module, &path, &deps);
    assert_eq!(ctx.local, vec![LocalEntry { name: "own".to_string(), kind: ItemKind::Override }]);
    assert!(!ctx.is_local(&declaration("package_m_o", DeclarationKind::Override)));
    assert!(ctx.is_local(&declaration("own", DeclarationKind::Override)));
    assert_eq!(
        ctx.resolve_reference(ResolveTarget::MaybeMangled("package_m_o")),
        Some((
            Ident("o".to_string()),
            ItemKind::Override,
            DefinitionPath::Absolute(strings(&["m"]))
        ))
    );
    assert_eq!(
        ctx.resolve_reference(ResolveTarget::MaybeMangled("own")),
        Some((
            Ident("own".to_string()),
            ItemKind::Override,
            DefinitionPath::Absolute(strings(&["a"]))
        ))
    );
}

#[test]
fn declaration_without_a_kind_is_never_selected() {
    let module = compiled(
        vec![
            at(declaration("x", DeclarationKind::Let), Some("x")),
            at(declaration("x", DeclarationKind::Const), Some("x")),
        ],
        vec![entry("x", PathOrigin::Absolute, &["m"], "x")],
    );
    let path = strings(&["pkg"]);
    let deps = Vec::new();
    let mut ctx = Context::init(&module, &path, &deps);
    assert!(ctx.local.is_empty());
    ctx.insert_local(&"x".to_string(), ItemKind::Constant);
    assert!(ctx.local.is_empty());
    let found =
        Some((Ident("x".to_string()), ItemKind::Constant, DefinitionPath::Absolute(strings(&["m"]))));
    assert_eq!(ctx.resolve_reference(ResolveTarget::MaybeMangled("x")), found);
    assert_eq!(ctx.resolve_reference(ResolveTarget::Name("x")), found);
    let only_let = compiled(
        vec![at(declaration("y", DeclarationKind::Let), Some("y"))],
        vec![entry("y", PathOrigin::Absolute, &["m"], "y")],
    );
    let ctx = Context::init(&only_let, &path, &deps);
    assert!(ctx.local.is_empty());
    assert_eq!(ctx.resolve_reference(ResolveTarget::MaybeMangled("y")), None);
    assert_eq!(ctx.resolve_reference(ResolveTarget::Name("y")), None);
}

#[test]
fn name_that_does_not_resolve_is_registered() {
    let module = compiled(
        vec![at(structure("S"), None)],
        vec![entry("listed", PathOrigin::Absolute, &["m"], "listed")],
    );
    let path = strings(&["pkg"]);
    let deps = Vec::new();
    let mut ctx = Context::init(&module, &path, &deps);
    assert_eq!(ctx.local.len(), 1);
    assert_eq!(ctx.resolve_reference(ResolveTarget::MaybeMangled("listed")), None);
    ctx.insert_local(&"listed".to_string(), ItemKind::Function);
    assert_eq!(ctx.local.len(), 2);
    assert_eq!(ctx.local[1], LocalEntry { name: "listed".to_string(), kind: ItemKind::Function });
    ctx.insert_local(&"listed".to_string(), ItemKind::Struct);
    assert_eq!(ctx.local.len(), 2);
}

#[test]
fn first_declaration_of_an_unmangled_name_wins() {
    let module = compiled(
        vec![
            at(structure("package_a_T"), Some("T")),
            at(structure("package_b_T"), Some("T")),
        ],
        vec![
            entry("package_b_T", PathOrigin::Absolute, &["b"], "T"),
            entry("package_a_T", PathOrigin::Absolute, &["a"], "T"),
        ],
    );
    let local = Vec::new();
    let r = get_decl(&local, &module, true, &"T".to_string());
    assert_eq!(
        r,
        Some(Declared {
            name: "T".to_string(),
            kind: ItemKind::Struct,
            path: ModulePath { origin: PathOrigin::Absolute, components: strings(&["a"]) },
        })
    );
}

#[test]
fn first_writer_wins_in_the_local_index() {
    let module = compiled(
        vec![
            at(structure("T"), None),
            at(GlobalDeclaration::TypeAlias(TypeAliasDeclaration {
                attributes: Vec::new(),
                name: "T".to_string(),
                ty: wesldoc::syntax::SyntaxType { name: "u32".to_string(), template_args: None },
            }), None),
            at(declaration("l", DeclarationKind::Let), None),
            at(declaration("v", DeclarationKind::Var(None)), None),
            at(declaration("o", DeclarationKind::Override), None),
        ],
        Vec::new(),
    );
    let path = strings(&["pkg"]);
    let deps = Vec::new();
    let mut ctx = Context::init(&module, &path, &deps);
    assert_eq!(
        ctx.local,
        vec![
            LocalEntry { name: "T".to_string(), kind: ItemKind::Struct },
            LocalEntry { name: "v".to_string(), kind: ItemKind::GlobalVariable },
            LocalEntry { name: "o".to_string(), kind: ItemKind::Override },
        ]
    );
    ctx.insert_local(&"T".to_string(), ItemKind::Function);
    assert_eq!(ctx.local.len(), 3);
    ctx.insert_local(&"new".to_string(), ItemKind::Function);
    assert_eq!(ctx.local.len(), 4);
    assert_eq!(ctx.local[3], LocalEntry { name: "new".to_string(), kind: ItemKind::Function });
    assert_eq!(ctx.compiled().declarations.len(), 5);
}
