use wesldoc::ast::{
    AddressSpace, Attribute, BuiltinValue, Constant, DefinitionPath, DocComment, Expression,
    Item, ItemInstance, ItemKind, Literal, Module, Span, TypeExpression, Version, WeslDocs,
};
use wesldoc::build_items::{build_attribute, build_attributes, build_expression, build_type};
use wesldoc::collect_features::collect_features;
use wesldoc::compile::{compile, compile_module, ItemTable};
use wesldoc::conditional::{Conditional, Ident};
use wesldoc::context::Context;
use wesldoc::post_process::{post_process, post_process_items, post_process_module};
use wesldoc::syntax::{
    AccessMode, BinaryOperator, CompiledModule, Convert, Declaration, DeclarationKind,
    DeclarationNode, Dependency, FunctionDeclaration, GlobalDeclaration,
    MemberDeclaration, ModulePath, ParameterDeclaration, PathOrigin, SourceMap,
    SourceMapEntry, SourceRange, StructDeclaration, SyntaxAddressSpace, SyntaxAttribute,
    SyntaxExpression, SyntaxNode, SyntaxType, TypeAliasDeclaration, UnaryOperator, WeslModule,
    WeslPackage,
};

fn strings(items: &[&str]) -> Vec<String> {
    items.iter().map(|s| s.to_string()).collect()
}

fn node(expression: SyntaxExpression) -> SyntaxNode {
    SyntaxNode { expression, range: SourceRange { start: 0, end: 0 } }
}

fn ty(text: &str) -> SyntaxType {
    SyntaxType { name: text.to_string(), template_args: None }
}

fn name(text: &str) -> SyntaxNode {
    node(SyntaxExpression::TypeOrIdentifier(ty(text)))
}

fn not(operand: SyntaxNode) -> SyntaxNode {
    node(SyntaxExpression::Unary {
        operator: UnaryOperator::LogicalNegation,
        operand: Box::new(operand),
    })
}

fn and(left: SyntaxNode, right: SyntaxNode) -> SyntaxNode {
    node(SyntaxExpression::Binary {
        operator: BinaryOperator::ShortCircuitAnd,
        left: Box::new(left),
        right: Box::new(right),
    })
}

fn feature(text: &str) -> Conditional {
    Conditional::Feature(Ident(text.to_string()))
}

fn at(declaration: GlobalDeclaration, start: usize, end: usize) -> DeclarationNode {
    DeclarationNode { declaration, range: SourceRange { start, end }, unmangled: None }
}

fn constant_decl(name: &str, attributes: Vec<SyntaxAttribute>, of: Option<&str>) -> GlobalDeclaration {
    GlobalDeclaration::Declaration(Declaration {
        attributes,
        kind: DeclarationKind::Const,
        name: name.to_string(),
        ty: of.map(ty),
        initializer: Some(node(SyntaxExpression::Literal(Literal::AbstractInt(1)))),
    })
}

fn module_of(declarations: Vec<DeclarationNode>, source: Option<&str>) -> CompiledModule {
    CompiledModule {
        declarations,
        source_map: Some(SourceMap {
            entries: Vec::new(),
            default_source: source.map(|s| s.to_string()),
        }),
    }
}

fn leaf(name: &str, compiled: Option<CompiledModule>) -> WeslModule {
    WeslModule { name: name.to_string(), compiled, submodules: Vec::new() }
}

fn features_of(module: &Module) -> Vec<String> {
    module.translate_time_features.iter().cloned().collect()
}

#[test]
fn module_features_in_first_seen_order() {
    let compiled = module_of(
        vec![
            at(constant_decl("x", vec![SyntaxAttribute::If(and(name("a"), not(name("b"))))], None), 0, 0),
            at(constant_decl("x", vec![SyntaxAttribute::Elif(name("c"))], None), 0, 0),
        ],
        None,
    );
    let path = strings(&["pkg"]);
    let deps = Vec::new();
    let ctx = Context::init(&compiled, &path, &deps);
    let got: Vec<String> = collect_features(&ctx).into_iter().collect();
    assert_eq!(got, strings(&["a", "b", "c"]));
}

#[test]
fn only_local_declarations_add_features() {
    let compiled = CompiledModule {
        declarations: vec![
            DeclarationNode {
                declaration: constant_decl("package_m_k", vec![SyntaxAttribute::If(name("z"))], None),
                range: SourceRange { start: 0, end: 0 },
                unmangled: Some("k".to_string()),
            },
            at(
                GlobalDeclaration::Struct(StructDeclaration {
                    attributes: vec![SyntaxAttribute::If(name("a")), SyntaxAttribute::Else],
                    name: "S".to_string(),
                    members: vec![MemberDeclaration {
                        attributes: vec![SyntaxAttribute::If(name("member_only"))],
                        name: "m".to_string(),
                        ty: ty("u32"),
                        range: SourceRange { start: 0, end: 0 },
                    }],
                }),
                0,
                0,
            ),
            at(constant_decl("y", vec![SyntaxAttribute::Elif(and(name("d"), name("a")))], None), 0, 0),
        ],
        source_map: Some(SourceMap {
            entries: vec![SourceMapEntry {
                mangled: "package_m_k".to_string(),
                path: ModulePath { origin: PathOrigin::Absolute, components: strings(&["m"]) },
                name: "k".to_string(),
            }],
            default_source: None,
        }),
    };
    let path = strings(&["pkg"]);
    let deps = Vec::new();
    let ctx = Context::init(&compiled, &path, &deps);
    let got: Vec<String> = collect_features(&ctx).into_iter().collect();
    assert_eq!(got, strings(&["a", "d"]));
}

#[test]
fn module_without_conditional_declarations_has_no_features() {
    let compiled = module_of(
        vec![
            at(constant_decl("x", vec![SyntaxAttribute::Else, SyntaxAttribute::Const], None), 0, 0),
            at(GlobalDeclaration::Void, 0, 0),
        ],
        None,
    );
    let path = strings(&["pkg"]);
    let deps = Vec::new();
    let ctx = Context::init(&compiled, &path, &deps);
    assert!(collect_features(&ctx).is_empty());
    let none = module_of(Vec::new(), None);
    let ctx = Context::init(&none, &path, &deps);
    assert!(collect_features(&ctx).is_empty());
}

#[test]
fn two_declarations_of_one_name_make_one_item() {
    let compiled = module_of(
        vec![
            at(constant_decl("foo", vec![SyntaxAttribute::If(name("feature_x"))], None), 0, 0),
            at(constant_decl("foo", vec![SyntaxAttribute::Else], None), 0, 0),
        ],
        None,
    );
    let package = WeslPackage {
        version: Version::new(0, 1, 0),
        dependencies: Vec::new(),
        root: leaf("pkg", Some(compiled)),
    };
    let docs = compile(&package);
    assert_eq!(docs.version, Version::new(0, 1, 0));
    assert_eq!(docs.root.constants.len(), 1);
    let item = &docs.root.constants[0];
    assert_eq!(item.instances.len(), 2);
    assert_eq!(item.conditional, None);
    assert_eq!(item.instances[0].conditional, Some(feature("feature_x")));
    assert_eq!(
        item.instances[1].conditional,
        Some(Conditional::Not(Box::new(feature("feature_x"))))
    );
    assert_eq!(features_of(&docs.root), strings(&["feature_x"]));
}

#[test]
fn undefined_type_is_kept_as_written() {
    let compiled = module_of(
        vec![
            at(constant_decl("first", Vec::new(), Some("bar")), 0, 0),
            at(constant_decl("second", Vec::new(), Some("first")), 0, 0),
        ],
        None,
    );
    let path = strings(&["pkg"]);
    let deps = Vec::new();
    let ctx = Context::init(&compiled, &path, &deps);
    assert_eq!(
        build_type(&ty("bar"), &ctx),
        TypeExpression::TypeIdentifier { name: Ident("bar".to_string()), template_args: None }
    );
    let module = compile_module(&leaf("pkg", Some(compiled)), &Vec::new(), &Vec::new());
    assert_eq!(module.constants.len(), 2);
    assert_eq!(
        module.constants[0].instances[0].ty,
        Some(TypeExpression::TypeIdentifier {
            name: Ident("bar".to_string()),
            template_args: None
        })
    );
    assert_eq!(
        module.constants[1].instances[0].ty,
        Some(TypeExpression::Referenced {
            name: Ident("first".to_string()),
            kind: ItemKind::Constant,
            def_path: DefinitionPath::Absolute(Vec::new()),
        })
    );
}

#[test]
fn template_arguments_are_built() {
    let compiled = module_of(vec![at(constant_decl("n", Vec::new(), None), 0, 0)], None);
    let path = strings(&["pkg", "m"]);
    let deps = Vec::new();
    let ctx = Context::init(&compiled, &path, &deps);
    let written = SyntaxType {
        name: "array".to_string(),
        template_args: Some(vec![name("u32"), name("n"), node(SyntaxExpression::FunctionCall)]),
    };
    assert_eq!(
        build_type(&written, &ctx),
        TypeExpression::TypeIdentifier {
            name: Ident("array".to_string()),
            template_args: Some(vec![
                Expression::TypeOrIdentifier(TypeExpression::TypeIdentifier {
                    name: Ident("u32".to_string()),
                    template_args: None
                }),
                Expression::TypeOrIdentifier(TypeExpression::Referenced {
                    name: Ident("n".to_string()),
                    kind: ItemKind::Constant,
                    def_path: DefinitionPath::Absolute(strings(&["m"])),
                }),
                Expression::NotExpanded(None),
            ]),
        }
    );
}

#[test]
fn expressions_keep_literals_and_parentheses() {
    let source = "const a = 1;\nconst b = (2 + 3);\n";
    let compiled = module_of(Vec::new(), Some(source));
    let path = strings(&["pkg"]);
    let deps = Vec::new();
    let ctx = Context::init(&compiled, &path, &deps);
    let literal = node(SyntaxExpression::Literal(Literal::U32(7)));
    assert_eq!(build_expression(&literal, &ctx), Expression::Literal(Literal::U32(7)));
    let sum = SyntaxNode {
        expression: SyntaxExpression::Binary {
            operator: BinaryOperator::Addition,
            left: Box::new(node(SyntaxExpression::Literal(Literal::AbstractInt(2)))),
            right: Box::new(node(SyntaxExpression::Literal(Literal::AbstractInt(3)))),
        },
        range: SourceRange { start: 24, end: 29 },
    };
    let wrapped = node(SyntaxExpression::Parenthesized(Box::new(sum)));
    assert_eq!(
        build_expression(&wrapped, &ctx),
        Expression::Parenthesized(Box::new(Expression::NotExpanded(Some(Span {
            line_start: 2,
            line_end: 2
        }))))
    );
}

#[test]
fn conditional_markers_are_no_attributes() {
    let compiled = module_of(Vec::new(), None);
    let path = strings(&["pkg"]);
    let deps = Vec::new();
    let ctx = Context::init(&compiled, &path, &deps);
    assert_eq!(build_attribute(&SyntaxAttribute::If(name("a")), &ctx), None);
    assert_eq!(build_attribute(&SyntaxAttribute::Elif(name("a")), &ctx), None);
    assert_eq!(build_attribute(&SyntaxAttribute::Else, &ctx), None);
    assert_eq!(build_attribute(&SyntaxAttribute::Publish, &ctx), None);
    let got = build_attributes(
        &vec![
            SyntaxAttribute::If(name("a")),
            SyntaxAttribute::Builtin(BuiltinValue::Position),
            SyntaxAttribute::Else,
            SyntaxAttribute::Location(node(SyntaxExpression::Literal(Literal::AbstractInt(0)))),
            SyntaxAttribute::WorkgroupSize {
                x: node(SyntaxExpression::Literal(Literal::AbstractInt(8))),
                y: Some(node(SyntaxExpression::Literal(Literal::AbstractInt(4)))),
                z: None,
            },
            SyntaxAttribute::Custom {
                name: "mine".to_string(),
                arguments: Some(vec![node(SyntaxExpression::Literal(Literal::Bool(true)))]),
            },
        ],
        &ctx,
    );
    assert_eq!(
        got,
        vec![
            Attribute::Builtin(BuiltinValue::Position),
            Attribute::Location(Expression::Literal(Literal::AbstractInt(0))),
            Attribute::WorkgroupSize {
                x: Expression::Literal(Literal::AbstractInt(8)),
                y: Some(Expression::Literal(Literal::AbstractInt(4))),
                z: None,
            },
            Attribute::Custom {
                name: "mine".to_string(),
                arguments: Some(vec![Expression::Literal(Literal::Bool(true))]),
            },
        ]
    );
    assert_eq!(got[0].name(), "builtin");
    assert_eq!(got[2].name(), "workgroup_size");
    assert_eq!(got[3].name(), "mine");
}

#[test]
fn declarations_get_spans_and_comments() {
    let source = "//! Module docs.\n//! More.\n\n/// A constant.\n   /// Second line.\nconst a = 1;\nfn f() {}\n";
    let start = source.find("const a").unwrap();
    let end = source.find("fn f").unwrap() - 1;
    let f_start = source.find("fn f").unwrap();
    let compiled = module_of(
        vec![
            at(constant_decl("a", Vec::new(), None), start, end),
            at(
                GlobalDeclaration::Function(FunctionDeclaration {
                    attributes: vec![SyntaxAttribute::Fragment],
                    name: "f".to_string(),
                    parameters: vec![
                        ParameterDeclaration {
                            attributes: vec![SyntaxAttribute::If(name("p"))],
                            name: "x".to_string(),
                            ty: ty("u32"),
                        },
                        ParameterDeclaration {
                            attributes: vec![SyntaxAttribute::Else],
                            name: "x".to_string(),
                            ty: ty("a"),
                        },
                    ],
                    return_attributes: vec![SyntaxAttribute::Invariant],
                    return_type: Some(ty("f32")),
                }),
                f_start,
                source.len(),
            ),
        ],
        Some(source),
    );
    let module = compile_module(&leaf("m", Some(compiled)), &strings(&["pkg"]), &Vec::new());
    assert_eq!(module.name, "m");
    assert_eq!(module.source.as_deref(), Some(source));
    assert_eq!(module.comment, Some(DocComment { text: " Module docs.\n More.".to_string(), links: Vec::new() }));
    let a = &module.constants[0].instances[0];
    assert_eq!(a.span, Some(Span { line_start: 6, line_end: 6 }));
    assert_eq!(a.comment, Some(DocComment { text: " A constant.\n Second line.".to_string(), links: Vec::new() }));
    assert_eq!(a.init, Expression::Literal(Literal::AbstractInt(1)));
    assert_eq!(a.name().0, "a");
    assert_eq!(a.item_kind(), ItemKind::Constant);
    assert_eq!(a.conditional(), None);
    assert_eq!(a.comment().map(|c| c.text.as_str()), Some(" A constant.\n Second line."));
    let f = &module.functions[0].instances[0];
    assert_eq!(f.span, Some(Span { line_start: 7, line_end: 7 }));
    assert_eq!(f.comment, None);
    assert_eq!(f.attributes, vec![Attribute::Fragment]);
    assert_eq!(f.return_attributes, vec![Attribute::Invariant]);
    assert_eq!(f.parameters.len(), 2);
    assert_eq!(f.parameters[0].conditional, Some(feature("p")));
    assert_eq!(f.parameters[1].conditional, Some(Conditional::Not(Box::new(feature("p")))));
    assert_eq!(
        f.parameters[1].ty,
        TypeExpression::Referenced {
            name: Ident("a".to_string()),
            kind: ItemKind::Constant,
            def_path: DefinitionPath::Absolute(strings(&["m"])),
        }
    );
    assert_eq!(features_of(&module), Vec::<String>::new());
}

#[test]
fn module_without_compiled_form_holds_only_submodules() {
    let tree = WeslModule {
        name: "pkg".to_string(),
        compiled: None,
        submodules: vec![leaf("b", None), leaf("a", Some(module_of(Vec::new(), None)))],
    };
    let module = compile_module(&tree, &Vec::new(), &Vec::new());
    assert_eq!(module.name, "pkg");
    assert_eq!(module.source, None);
    assert_eq!(module.modules.len(), 2);
    assert_eq!(module.modules[0].name, "b");
    assert_eq!(module.modules[1].name, "a");
    assert!(module.constants.is_empty());
}

#[test]
fn every_kind_goes_to_its_list() {
    let decl = |kind| {
        GlobalDeclaration::Declaration(Declaration {
            attributes: Vec::new(),
            kind,
            name: "v".to_string(),
            ty: None,
            initializer: None,
        })
    };
    let compiled = module_of(
        vec![
            at(decl(DeclarationKind::Var(Some(SyntaxAddressSpace::Storage(Some(
                AccessMode::ReadWrite,
            ))))), 0, 0),
            at(decl(DeclarationKind::Var(None)), 0, 0),
            at(decl(DeclarationKind::Override), 0, 0),
            at(decl(DeclarationKind::Const), 0, 0),
            at(decl(DeclarationKind::Let), 0, 0),
            at(GlobalDeclaration::Void, 0, 0),
            at(
                GlobalDeclaration::TypeAlias(TypeAliasDeclaration {
                    attributes: Vec::new(),
                    name: "T".to_string(),
                    ty: ty("u32"),
                }),
                0,
                0,
            ),
            at(
                GlobalDeclaration::Struct(StructDeclaration {
                    attributes: Vec::new(),
                    name: "S".to_string(),
                    members: vec![MemberDeclaration {
                        attributes: vec![SyntaxAttribute::Size(node(SyntaxExpression::Literal(
                            Literal::AbstractInt(16),
                        )))],
                        name: "m".to_string(),
                        ty: ty("T"),
                        range: SourceRange { start: 0, end: 0 },
                    }],
                }),
                0,
                0,
            ),
        ],
        None,
    );
    let module = compile_module(&leaf("pkg", Some(compiled)), &Vec::new(), &Vec::new());
    assert_eq!(module.global_variables.len(), 1);
    assert_eq!(module.global_variables[0].instances.len(), 2);
    assert_eq!(
        module.global_variables[0].instances[0].space,
        AddressSpace::Storage { load: true, store: true }
    );
    assert_eq!(module.global_variables[0].instances[1].space, AddressSpace::Handle);
    assert_eq!(module.overrides.len(), 1);
    assert_eq!(module.overrides[0].instances[0].init, None);
    assert_eq!(module.constants.len(), 1);
    assert_eq!(module.constants[0].instances[0].init, Expression::NotExpanded(None));
    assert_eq!(module.type_aliases.len(), 1);
    assert_eq!(module.structs.len(), 1);
    assert_eq!(module.structs[0].instances[0].members.len(), 1);
    assert_eq!(
        module.structs[0].instances[0].members[0].ty,
        TypeExpression::Referenced {
            name: Ident("T".to_string()),
            kind: ItemKind::TypeAlias,
            def_path: DefinitionPath::Absolute(Vec::new()),
        }
    );
    assert!(module.functions.is_empty());
}

#[test]
fn address_spaces_are_converted() {
    assert_eq!(wesldoc::syntax::map::<SyntaxAddressSpace, AddressSpace>(&SyntaxAddressSpace::Workgroup), AddressSpace::WorkGroup);
    assert_eq!(
        SyntaxAddressSpace::Storage(None).map(),
        AddressSpace::Storage { load: true, store: false }
    );
    assert_eq!(
        SyntaxAddressSpace::Storage(Some(AccessMode::Read)).map(),
        AddressSpace::Storage { load: true, store: false }
    );
    assert_eq!(
        SyntaxAddressSpace::Storage(Some(AccessMode::Write)).map(),
        AddressSpace::Storage { load: false, store: true }
    );
    let ident: Ident = wesldoc::syntax::map(&"abc".to_string());
    assert_eq!(ident, Ident("abc".to_string()));
    assert_eq!(AddressSpace::Storage { load: true, store: true }.to_text(), "<storage, read_write>");
    assert_eq!(AddressSpace::Storage { load: true, store: false }.to_text(), "<storage>");
    assert_eq!(AddressSpace::Handle.to_text(), "");
    assert_eq!(AddressSpace::PushConstant.to_text(), "<push_constant>");
}

fn constant(name: &str, conditional: Option<Conditional>) -> Constant {
    Constant {
        name: Ident(name.to_string()),
        ty: None,
        init: Expression::NotExpanded(None),
        attributes: Vec::new(),
        conditional,
        comment: None,
        span: None,
    }
}

#[test]
fn instances_join_the_item_of_their_name() {
    let mut table: ItemTable<Constant> = ItemTable::new();
    table.add(constant("b", None));
    table.add(constant("a", Some(feature("x"))));
    table.add(constant("b", Some(feature("y"))));
    assert_eq!(table.index.get("b"), Some(&0));
    assert_eq!(table.index.get("a"), Some(&1));
    assert_eq!(table.index.len(), 2);
    let items = table.items;
    assert_eq!(items.len(), 2);
    assert_eq!(items[0].instances.len(), 2);
    assert_eq!(items[0].instances[1].conditional, Some(feature("y")));
    assert_eq!(items[1].instances.len(), 1);
    assert_eq!(items[1].instances[0].name, Ident("a".to_string()));
    assert_eq!(items[0].conditional, None);
}

#[test]
fn items_are_sorted_and_merged() {
    let mut table: ItemTable<Constant> = ItemTable::new();
    table.add(constant("zeta", Some(feature("x"))));
    table.add(constant("alpha", Some(feature("a"))));
    table.add(constant("alpha", Some(feature("b"))));
    table.add(constant("Beta", None));
    table.add(constant("zeta", Some(Conditional::Not(Box::new(feature("x"))))));
    let mut items = table.items;
    post_process_items(&mut items);
    let names: Vec<&str> = items.iter().map(|i| i.instances[0].name.0.as_str()).collect();
    assert_eq!(names, vec!["Beta", "alpha", "zeta"]);
    assert_eq!(items[0].conditional, None);
    assert_eq!(
        items[1].conditional,
        Some(Conditional::Or(Box::new(feature("a")), Box::new(feature("b"))))
    );
    assert_eq!(items[2].conditional, None);
    assert_eq!(items[2].instances.len(), 2);
}

fn bare(name: &str, features: &[&str], modules: Vec<Module>) -> Module {
    let mut m = Module::empty(name.to_string());
    for f in features {
        m.translate_time_features.insert(f.to_string());
    }
    m.modules = modules;
    m
}

#[test]
fn tree_is_sorted_and_features_are_gathered() {
    let tree = bare(
        "root",
        &["r"],
        vec![
            bare("zed", &["z", "r"], vec![bare("inner", &["deep"], Vec::new())]),
            bare("abc", &["a", "z"], Vec::new()),
        ],
    );
    let done = post_process_module(tree);
    assert_eq!(done.name, "root");
    assert_eq!(features_of(&done), strings(&["r", "z", "deep", "a"]));
    assert_eq!(done.modules[0].name, "abc");
    assert_eq!(done.modules[1].name, "zed");
    assert_eq!(features_of(&done.modules[0]), strings(&["a", "z"]));
    assert_eq!(features_of(&done.modules[1]), strings(&["z", "r", "deep"]));
    let docs = post_process(WeslDocs { version: Version::new(1, 0, 0), root: bare("p", &[], Vec::new()) });
    assert_eq!(docs.version, Version::new(1, 0, 0));
    assert_eq!(docs.root.name, "p");
}

#[test]
fn package_dependencies_reach_every_module() {
    let inner = CompiledModule {
        declarations: vec![
            DeclarationNode {
                declaration: GlobalDeclaration::Struct(StructDeclaration {
                    attributes: Vec::new(),
                    name: "dep_y_z_T".to_string(),
                    members: Vec::new(),
                }),
                range: SourceRange { start: 0, end: 0 },
                unmangled: Some("T".to_string()),
            },
            at(constant_decl("k", Vec::new(), Some("dep_y_z_T")), 0, 0),
        ],
        source_map: Some(SourceMap {
            entries: vec![SourceMapEntry {
                mangled: "dep_y_z_T".to_string(),
                path: ModulePath {
                    origin: PathOrigin::Package("dep".to_string()),
                    components: strings(&["y", "z"]),
                },
                name: "T".to_string(),
            }],
            default_source: None,
        }),
    };
    let package = WeslPackage {
        version: Version::new(2, 0, 0),
        dependencies: vec![Dependency { name: "dep".to_string(), version: Version::new(1, 2, 3) }],
        root: WeslModule {
            name: "pkg".to_string(),
            compiled: None,
            submodules: vec![leaf("sub", Some(inner))],
        },
    };
    let docs = compile(&package);
    let sub = &docs.root.modules[0];
    assert!(sub.structs.is_empty());
    assert_eq!(
        sub.constants[0].instances[0].ty,
        Some(TypeExpression::Referenced {
            name: Ident("T".to_string()),
            kind: ItemKind::Struct,
            def_path: DefinitionPath::Package(
                "dep".to_string(),
                Version::new(1, 2, 3),
                strings(&["y", "z"])
            ),
        })
    );
}

#[test]
fn empty_documentation_holds_nothing() {
    let docs = <WeslDocs as wesldoc::ast::WeslDocsExt>::new("pkg".to_string(), Version::new(0, 3, 1));
    assert_eq!(docs.version, Version::new(0, 3, 1));
    assert_eq!(docs.root, Module::empty("pkg".to_string()));
    assert!(docs.root.modules.is_empty());
    assert!(docs.root.translate_time_features.is_empty());
    let item: Item<Constant> = Item::default();
    assert!(item.instances.is_empty());
    assert_eq!(item.conditional, None);
}

fn two_constants(first_type: &str) -> WeslModule {
    leaf(
        "m",
        Some(module_of(
            vec![
                at(constant_decl("first", vec![SyntaxAttribute::If(name("f"))], Some(first_type)), 0, 0),
                at(constant_decl("second", vec![SyntaxAttribute::Else], Some("first")), 0, 0),
                at(
                    GlobalDeclaration::Struct(StructDeclaration {
                        attributes: Vec::new(),
                        name: "S".to_string(),
                        members: vec![MemberDeclaration {
                            attributes: Vec::new(),
                            name: "m".to_string(),
                            ty: ty("second"),
                            range: SourceRange { start: 0, end: 0 },
                        }],
                    }),
                    0,
                    0,
                ),
            ],
            None,
        )),
    )
}

#[test]
fn unresolved_reference_changes_nothing_else() {
    let broken = compile_module(&two_constants("bar"), &strings(&["pkg"]), &Vec::new());
    let sound = compile_module(&two_constants("S"), &strings(&["pkg"]), &Vec::new());
    assert_eq!(broken.constants.len(), 2);
    assert_eq!(
        broken.constants[0].instances[0].ty,
        Some(TypeExpression::TypeIdentifier {
            name: Ident("bar".to_string()),
            template_args: None
        })
    );
    assert_eq!(
        sound.constants[0].instances[0].ty,
        Some(TypeExpression::Referenced {
            name: Ident("S".to_string()),
            kind: ItemKind::Struct,
            def_path: DefinitionPath::Absolute(strings(&["m"])),
        })
    );
    assert_eq!(broken.constants[0].instances[0].conditional, sound.constants[0].instances[0].conditional);
    assert_eq!(broken.constants[1], sound.constants[1]);
    assert_eq!(broken.structs, sound.structs);
    assert_eq!(broken.translate_time_features, sound.translate_time_features);
    assert_eq!(broken.name, sound.name);
}

#[test]
fn items_of_a_list_have_distinct_names_in_ascending_order() {
    let compiled = module_of(
        vec![
            at(constant_decl("b", vec![SyntaxAttribute::If(name("x"))], None), 0, 0),
            at(constant_decl("a", Vec::new(), None), 0, 0),
            at(constant_decl("b", vec![SyntaxAttribute::Else], None), 0, 0),
            at(constant_decl("a", Vec::new(), None), 0, 0),
            at(constant_decl("c", Vec::new(), None), 0, 0),
        ],
        None,
    );
    let package = WeslPackage {
        version: Version::new(1, 0, 0),
        dependencies: Vec::new(),
        root: leaf("pkg", Some(compiled)),
    };
    let docs = compile(&package);
    let names: Vec<&str> =
        docs.root.constants.iter().map(|i| i.instances[0].name.0.as_str()).collect();
    assert_eq!(names, vec!["a", "b", "c"]);
    assert_eq!(docs.root.constants[0].instances.len(), 2);
    assert_eq!(docs.root.constants[1].instances.len(), 2);
    assert_eq!(docs.root.constants[1].conditional, None);
}
