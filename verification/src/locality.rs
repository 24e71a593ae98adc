//! A reference that does not resolve affects nothing but itself: what is
//! built from a declaration depends on the other declarations of its
//! module only through their names, their kinds and their attributes.
use vstd::prelude::*;
use crate::ast::ItemKind;
use crate::build_doc_comment::{doc_text, documented, markdown_links, resolved_links};
use crate::build_items::{
    built_attribute, built_attributes, built_expression, built_expressions, built_type, resolved,
};
use crate::compile::{
    built_instance, built_members, built_parameters, chain_before, contributes,
    declared_comment, instances_upto, module_scope,
};
use crate::conditional::Cond;
use crate::context::{
    Scope, declaration_keys, default_text, lemma_first_index_holds, lookup, opt_text,
    registered, resolution, selected_declaration,
};
use crate::extract_comments::outer_marker;
use crate::syntax::{
    CompiledModule, DeclarationNode, Dependency, GlobalDeclaration, SyntaxAttribute,
    SyntaxExpression, SyntaxNode, SyntaxType, declared_attributes, declared_kind,
    declared_name,
};

verus! {

/// Whether two compiled modules have the same outline: the same source
/// map, and declaration by declaration the same name, kind, unmangled
/// name and attributes. Their declarations may differ in the types and
/// expressions that they hold.
pub open spec fn same_outline(a: CompiledModule, b: CompiledModule) -> bool {
    &&& a.source_map == b.source_map
    &&& a.declarations@.len() == b.declarations@.len()
    &&& forall|k: int|
        #![trigger a.declarations@[k]]
        #![trigger b.declarations@[k]]
        0 <= k < a.declarations@.len() ==> {
            &&& declared_name(a.declarations@[k].declaration) == declared_name(
                b.declarations@[k].declaration,
            )
            &&& declared_kind(a.declarations@[k].declaration) == declared_kind(
                b.declarations@[k].declaration,
            )
            &&& declared_attributes(a.declarations@[k].declaration) == declared_attributes(
                b.declarations@[k].declaration,
            )
            &&& opt_text(a.declarations@[k].unmangled) == opt_text(
                b.declarations@[k].unmangled,
            )
        }
}

/// Whether two scopes differ at most in what their declarations hold.
pub open spec fn alike(a: Scope, b: Scope) -> bool {
    &&& a.local == b.local
    &&& a.path == b.path
    &&& a.dependencies == b.dependencies
    &&& same_outline(a.compiled, b.compiled)
}

/// Modules of the same outline select the same declaration for a target.
pub proof fn lemma_keys_alike(a: CompiledModule, b: CompiledModule, raw: bool)
    requires
        same_outline(a, b),
    ensures
        declaration_keys(a.declarations@, raw) == declaration_keys(b.declarations@, raw),
{
    assert(declaration_keys(a.declarations@, raw) =~= declaration_keys(b.declarations@, raw)) by {
        assert forall|k: int| 0 <= k < a.declarations@.len() implies declaration_keys(
            a.declarations@,
            raw,
        )[k] == declaration_keys(b.declarations@, raw)[k] by {
            let x = a.declarations@[k];
            let y = b.declarations@[k];
        }
    }
}

/// Modules of the same outline give the same lookup.
pub proof fn lemma_lookup_alike(
    local: Seq<(Seq<char>, ItemKind)>,
    a: CompiledModule,
    b: CompiledModule,
    raw: bool,
    target: Seq<char>,
)
    requires
        same_outline(a, b),
    ensures
        lookup(local, a, raw, target) == lookup(local, b, raw, target),
{
    lemma_keys_alike(a, b, raw);
    lemma_first_index_holds(declaration_keys(a.declarations@, raw), Some(target));
    match selected_declaration(a.declarations@, raw, target) {
        Some(d) => {
            let x = a.declarations@[d];
            let y = b.declarations@[d];
        },
        None => {},
    }
}

/// Modules of the same outline register the same local names.
pub proof fn lemma_registered_alike(a: CompiledModule, b: CompiledModule, n: int)
    requires
        same_outline(a, b),
    ensures
        registered(a, n) == registered(b, n),
    decreases n,
{
    if !(n <= 0 || n > a.declarations@.len()) {
        lemma_registered_alike(a, b, n - 1);
        let x = a.declarations@[n - 1];
        let y = b.declarations@[n - 1];
        match declared_name(x.declaration) {
            Some(name) => lemma_lookup_alike(registered(a, n - 1), a, b, false, name),
            None => {},
        }
    }
}

/// Scopes that are alike resolve every target alike.
pub proof fn lemma_resolved_alike(a: Scope, b: Scope, raw: bool, target: Seq<char>)
    requires
        alike(a, b),
    ensures
        resolution(a.local, a.compiled, a.path, a.dependencies, raw, target) == resolution(
            b.local,
            b.compiled,
            b.path,
            b.dependencies,
            raw,
            target,
        ),
{
    lemma_lookup_alike(a.local, a.compiled, b.compiled, raw, target);
}

/// In scopes that are alike, an expression of the source becomes the
/// same expression.
pub proof fn lemma_expression_alike(node: SyntaxNode, a: Scope, b: Scope)
    requires
        alike(a, b),
    ensures
        built_expression(node, a) == built_expression(node, b),
    decreases node, 0nat,
{
    match node.expression {
        SyntaxExpression::Parenthesized(inner) => {
            lemma_expression_alike(*inner, a, b);
        },
        SyntaxExpression::TypeOrIdentifier(ty) => {
            lemma_type_alike(ty, a, b);
        },
        _ => {},
    }
}

/// In scopes that are alike, a name of the source becomes the same type
/// reference.
pub proof fn lemma_type_alike(ty: SyntaxType, a: Scope, b: Scope)
    requires
        alike(a, b),
    ensures
        built_type(ty, a) == built_type(ty, b),
    decreases ty, 0nat,
{
    lemma_resolved_alike(a, b, false, ty.name@);
    if resolved(a, ty.name@).is_none() {
        match ty.template_args {
            Some(args) => {
                let left = built_type(ty, a)->TypeIdentifier_template_args.unwrap();
                let right = built_type(ty, b)->TypeIdentifier_template_args.unwrap();
                assert(left =~= right) by {
                    assert forall|i: int| 0 <= i < args@.len() implies left[i] == right[i] by {
                        lemma_expression_alike(args@[i], a, b);
                    }
                }
            },
            None => {},
        }
    }
}

/// In scopes that are alike, a list of attributes of the source becomes
/// the same attributes.
pub proof fn lemma_attributes_alike(attributes: Seq<SyntaxAttribute>, a: Scope, b: Scope)
    requires
        alike(a, b),
    ensures
        built_attributes(attributes, a) == built_attributes(attributes, b),
    decreases attributes.len(),
{
    if attributes.len() > 0 {
        lemma_attributes_alike(attributes.drop_last(), a, b);
        lemma_attribute_alike(attributes.last(), a, b);
    }
}

/// In scopes that are alike, a list of expressions of the source becomes
/// the same expressions.
pub proof fn lemma_expressions_alike(nodes: Seq<SyntaxNode>, a: Scope, b: Scope)
    requires
        alike(a, b),
    ensures
        built_expressions(nodes, a) == built_expressions(nodes, b),
{
    assert(built_expressions(nodes, a) =~= built_expressions(nodes, b)) by {
        assert forall|i: int| 0 <= i < nodes.len() implies built_expressions(nodes, a)[i]
            == built_expressions(nodes, b)[i] by {
            lemma_expression_alike(nodes[i], a, b);
        }
    }
}

/// In scopes that are alike, an attribute of the source becomes the same
/// attribute.
pub proof fn lemma_attribute_alike(attribute: SyntaxAttribute, a: Scope, b: Scope)
    requires
        alike(a, b),
    ensures
        built_attribute(attribute, a) == built_attribute(attribute, b),
{
    match attribute {
        SyntaxAttribute::Align(e) => lemma_expression_alike(e, a, b),
        SyntaxAttribute::Binding(e) => lemma_expression_alike(e, a, b),
        SyntaxAttribute::BlendSrc(e) => lemma_expression_alike(e, a, b),
        SyntaxAttribute::Group(e) => lemma_expression_alike(e, a, b),
        SyntaxAttribute::Id(e) => lemma_expression_alike(e, a, b),
        SyntaxAttribute::Location(e) => lemma_expression_alike(e, a, b),
        SyntaxAttribute::Size(e) => lemma_expression_alike(e, a, b),
        SyntaxAttribute::WorkgroupSize { x, y, z } => {
            lemma_expression_alike(x, a, b);
            match y {
                Some(y) => lemma_expression_alike(y, a, b),
                None => {},
            }
            match z {
                Some(z) => lemma_expression_alike(z, a, b),
                None => {},
            }
        },
        SyntaxAttribute::Custom { name, arguments } => {
            match arguments {
                Some(args) => lemma_expressions_alike(args@, a, b),
                None => {},
            }
        },
        _ => {},
    }
}

/// In scopes that are alike, the links of a parsed comment resolve alike.
pub proof fn lemma_links_alike(events: Seq<Option<Seq<char>>>, a: Scope, b: Scope)
    requires
        alike(a, b),
    ensures
        resolved_links(events, a) == resolved_links(events, b),
    decreases events.len(),
{
    if events.len() > 0 {
        lemma_links_alike(events.drop_last(), a, b);
        match events.last() {
            Some(target) => lemma_resolved_alike(a, b, true, target),
            None => {},
        }
    }
}

/// In scopes that are alike, a raw comment becomes the same doc comment.
pub proof fn lemma_documented_alike(raw: Seq<char>, marker: Seq<char>, a: Scope, b: Scope)
    requires
        alike(a, b),
    ensures
        documented(raw, marker, a) == documented(raw, marker, b),
{
    match doc_text(raw, marker) {
        Some(text) => lemma_links_alike(markdown_links(text), a, b),
        None => {},
    }
}

/// In scopes that are alike, a declaration that stands in both becomes
/// the same instance.
pub proof fn lemma_instance_alike(node: DeclarationNode, chain: Seq<Cond>, a: Scope, b: Scope)
    requires
        alike(a, b),
    ensures
        built_instance(node, chain, a) == built_instance(node, chain, b),
{
    assert(default_text(a.compiled) == default_text(b.compiled));
    lemma_attributes_alike(declared_attributes(node.declaration), a, b);
    match default_text(a.compiled) {
        Some(text) => {
            assert forall|raw: Seq<char>| documented(raw, outer_marker(), a)
                == #[trigger] documented(raw, outer_marker(), b) by {
                lemma_documented_alike(raw, outer_marker(), a, b);
            }
        },
        None => {},
    }
    assert(declared_comment(a, node.range) == declared_comment(b, node.range));
    match node.declaration {
        GlobalDeclaration::Declaration(d) => {
            match d.ty {
                Some(ty) => lemma_type_alike(ty, a, b),
                None => {},
            }
            match d.initializer {
                Some(e) => lemma_expression_alike(e, a, b),
                None => {},
            }
        },
        GlobalDeclaration::TypeAlias(x) => {
            lemma_type_alike(x.ty, a, b);
        },
        GlobalDeclaration::Struct(s) => {
            assert(built_members(s.members@, a) =~= built_members(s.members@, b)) by {
                assert forall|i: int| 0 <= i < s.members@.len() implies built_members(
                    s.members@,
                    a,
                )[i] == built_members(s.members@, b)[i] by {
                    let m = s.members@[i];
                    lemma_type_alike(m.ty, a, b);
                    lemma_attributes_alike(m.attributes@, a, b);
                    assert(declared_comment(a, m.range) == declared_comment(b, m.range));
                }
            }
        },
        GlobalDeclaration::Function(f) => {
            assert(built_parameters(f.parameters@, a) =~= built_parameters(f.parameters@, b)) by {
                assert forall|i: int| 0 <= i < f.parameters@.len() implies built_parameters(
                    f.parameters@,
                    a,
                )[i] == built_parameters(f.parameters@, b)[i] by {
                    let p = f.parameters@[i];
                    lemma_type_alike(p.ty, a, b);
                    lemma_attributes_alike(p.attributes@, a, b);
                }
            }
            match f.return_type {
                Some(ty) => lemma_type_alike(ty, a, b),
                None => {},
            }
            lemma_attributes_alike(f.return_attributes@, a, b);
        },
        _ => {},
    }
}

/// Two modules of the same outline, assembled at the same place with
/// the same dependencies, have scopes that are alike.
pub proof fn lemma_scopes_alike(
    a: CompiledModule,
    b: CompiledModule,
    path: Seq<Seq<char>>,
    dependencies: Seq<Dependency>,
)
    requires
        same_outline(a, b),
    ensures
        alike(module_scope(a, path, dependencies), module_scope(b, path, dependencies)),
{
    lemma_registered_alike(a, b, a.declarations@.len() as int);
}

/// In modules of the same outline the declarations see the same chains
/// of conditionals.
pub proof fn lemma_chain_alike(a: Scope, b: Scope, n: int)
    requires
        alike(a, b),
    ensures
        chain_before(a, n) == chain_before(b, n),
    decreases n,
{
    if !(n <= 0 || n > a.compiled.declarations@.len()) {
        lemma_chain_alike(a, b, n - 1);
        let x = a.compiled.declarations@[n - 1];
        let y = b.compiled.declarations@[n - 1];
    }
}

/// Of two modules of the same outline, assembled at the same place, the
/// same declarations contribute.
pub proof fn lemma_contributes_alike(
    a: CompiledModule,
    b: CompiledModule,
    path: Seq<Seq<char>>,
    dependencies: Seq<Dependency>,
    k: int,
)
    requires
        same_outline(a, b),
        0 <= k < a.declarations@.len(),
    ensures
        contributes(module_scope(a, path, dependencies), a.declarations@[k].declaration)
            == contributes(module_scope(b, path, dependencies), b.declarations@[k].declaration),
{
    lemma_scopes_alike(a, b, path, dependencies);
    let x = a.declarations@[k];
    let y = b.declarations@[k];
}

/// Of two modules of the same outline, assembled at the same place, as
/// many declarations contribute among the first `n`.
pub proof fn lemma_instances_count_alike(
    a: CompiledModule,
    b: CompiledModule,
    path: Seq<Seq<char>>,
    dependencies: Seq<Dependency>,
    n: int,
)
    requires
        same_outline(a, b),
        0 <= n <= a.declarations@.len(),
    ensures
        instances_upto(module_scope(a, path, dependencies), n).len() == instances_upto(
            module_scope(b, path, dependencies),
            n,
        ).len(),
    decreases n,
{
    if n > 0 {
        lemma_instances_count_alike(a, b, path, dependencies, n - 1);
        lemma_contributes_alike(a, b, path, dependencies, n - 1);
    }
}

/// A reference that does not resolve touches nothing else: of two
/// modules of the same outline, assembled at the same place, a
/// declaration that stands in both gives the same instance, whatever the
/// other declarations refer to.
pub proof fn lemma_unresolved_reference_is_local(
    a: CompiledModule,
    b: CompiledModule,
    path: Seq<Seq<char>>,
    dependencies: Seq<Dependency>,
    k: int,
)
    requires
        same_outline(a, b),
        0 <= k < a.declarations@.len(),
        a.declarations@[k] == b.declarations@[k],
    ensures
        built_instance(
            a.declarations@[k],
            chain_before(module_scope(a, path, dependencies), k),
            module_scope(a, path, dependencies),
        ) == built_instance(
            b.declarations@[k],
            chain_before(module_scope(b, path, dependencies), k),
            module_scope(b, path, dependencies),
        ),
{
    let left = module_scope(a, path, dependencies);
    let right = module_scope(b, path, dependencies);
    lemma_scopes_alike(a, b, path, dependencies);
    lemma_chain_alike(left, right, k);
    lemma_instance_alike(a.declarations@[k], chain_before(left, k), left, right);
}

/// A name that does not resolve is kept as the identifier that was
/// written, with its template arguments.
pub proof fn lemma_unresolved_type_is_kept(ty: SyntaxType, env: Scope)
    requires
        resolved(env, ty.name@).is_none(),
    ensures
        built_type(ty, env) is TypeIdentifier,
        built_type(ty, env)->TypeIdentifier_name == ty.name@,
{
}

} // verus!
