//! Type references, expressions and attributes of the documentation
//! model, built from their compiled forms.
use vstd::prelude::*;
use crate::ast::{Attribute, Expression, ItemKind, PathView, TypeExpression};
use crate::calculate_span::{calculate_span, located};
use crate::conditional::Ident;
use crate::context::{Context, ResolveTarget, Scope, default_text, resolution};
use crate::syntax::{SyntaxAttribute, SyntaxExpression, SyntaxNode, SyntaxType};
use crate::views::{
    AttributeView, ExpressionView, TypeView, attribute_view, attribute_views, expression_view,
    expression_views, type_view,
};

verus! {

/// What an identifier of the compiled module resolves to in a context.
pub open spec fn resolved(ctx: Scope, target: Seq<char>) -> Option<
    (Seq<char>, ItemKind, PathView),
> {
    resolution(ctx.local, ctx.compiled, ctx.path, ctx.dependencies, false, target)
}

/// The expression that a node of the source becomes: literals and
/// parentheses are kept, a name becomes a type reference, and anything
/// else is left unexpanded with the lines that it covers.
pub open spec fn built_expression(node: SyntaxNode, ctx: Scope) -> ExpressionView
    decreases node,
{
    match node.expression {
        SyntaxExpression::Literal(literal) => ExpressionView::Literal(literal),
        SyntaxExpression::Parenthesized(inner) => ExpressionView::Parenthesized(
            Box::new(built_expression(*inner, ctx)),
        ),
        SyntaxExpression::TypeOrIdentifier(ty) => ExpressionView::TypeOrIdentifier(
            built_type(ty, ctx),
        ),
        _ => ExpressionView::NotExpanded(located(default_text(ctx.compiled), node.range)),
    }
}

/// The expressions that a list of nodes becomes.
pub open spec fn built_expressions(nodes: Seq<SyntaxNode>, ctx: Scope) -> Seq<ExpressionView> {
    Seq::new(nodes.len(), |i: int| built_expression(nodes[i], ctx))
}

/// The type reference that a name of the source becomes: resolved where
/// the name resolves, else the name as written with its template arguments.
pub open spec fn built_type(ty: SyntaxType, ctx: Scope) -> TypeView
    decreases ty,
{
    match resolved(ctx, ty.name@) {
        Some((name, kind, def_path)) => TypeView::Referenced { name, kind, def_path },
        None => TypeView::TypeIdentifier {
            name: ty.name@,
            template_args: match ty.template_args {
                Some(args) => Some(
                    Seq::new(
                        args@.len(),
                        |i: int|
                            if 0 <= i < args@.len() {
                                built_expression(args@[i], ctx)
                            } else {
                                arbitrary()
                            },
                    ),
                ),
                None => None,
            },
        },
    }
}

/// The view of an optional built expression.
pub open spec fn opt_built_expression(node: Option<SyntaxNode>, ctx: Scope) -> Option<
    ExpressionView,
> {
    match node {
        Some(node) => Some(built_expression(node, ctx)),
        None => None,
    }
}

/// The view of an optional built type reference.
pub open spec fn opt_built_type(ty: Option<SyntaxType>, ctx: Scope) -> Option<TypeView> {
    match ty {
        Some(ty) => Some(built_type(ty, ctx)),
        None => None,
    }
}

/// The attribute that an attribute of the source becomes; nothing for the
/// conditional markers and for `publish`.
pub open spec fn built_attribute(a: SyntaxAttribute, ctx: Scope) -> Option<AttributeView> {
    match a {
        SyntaxAttribute::Align(e) => Some(AttributeView::Align(built_expression(e, ctx))),
        SyntaxAttribute::Binding(e) => Some(AttributeView::Binding(built_expression(e, ctx))),
        SyntaxAttribute::BlendSrc(e) => Some(AttributeView::BlendSrc(built_expression(e, ctx))),
        SyntaxAttribute::Builtin(b) => Some(AttributeView::Builtin(b)),
        SyntaxAttribute::Const => Some(AttributeView::Const),
        SyntaxAttribute::Diagnostic { severity, rule } => Some(
            AttributeView::Diagnostic { severity, rule: rule@ },
        ),
        SyntaxAttribute::Group(e) => Some(AttributeView::Group(built_expression(e, ctx))),
        SyntaxAttribute::Id(e) => Some(AttributeView::Id(built_expression(e, ctx))),
        SyntaxAttribute::Interpolate { ty, sampling } => Some(
            AttributeView::Interpolate { ty, sampling },
        ),
        SyntaxAttribute::Invariant => Some(AttributeView::Invariant),
        SyntaxAttribute::Location(e) => Some(AttributeView::Location(built_expression(e, ctx))),
        SyntaxAttribute::MustUse => Some(AttributeView::MustUse),
        SyntaxAttribute::Size(e) => Some(AttributeView::Size(built_expression(e, ctx))),
        SyntaxAttribute::WorkgroupSize { x, y, z } => Some(
            AttributeView::WorkgroupSize {
                x: built_expression(x, ctx),
                y: opt_built_expression(y, ctx),
                z: opt_built_expression(z, ctx),
            },
        ),
        SyntaxAttribute::Vertex => Some(AttributeView::Vertex),
        SyntaxAttribute::Fragment => Some(AttributeView::Fragment),
        SyntaxAttribute::Compute => Some(AttributeView::Compute),
        SyntaxAttribute::Custom { name, arguments } => Some(
            AttributeView::Custom {
                name: name@,
                arguments: match arguments {
                    Some(args) => Some(built_expressions(args@, ctx)),
                    None => None,
                },
            },
        ),
        SyntaxAttribute::If(_) => None,
        SyntaxAttribute::Elif(_) => None,
        SyntaxAttribute::Else => None,
        SyntaxAttribute::Publish => None,
    }
}

/// The attributes that a list of attributes of the source becomes, in order.
pub open spec fn built_attributes(attributes: Seq<SyntaxAttribute>, ctx: Scope) -> Seq<
    AttributeView,
>
    decreases attributes.len(),
{
    if attributes.len() == 0 {
        Seq::empty()
    } else {
        let before = built_attributes(attributes.drop_last(), ctx);
        match built_attribute(attributes.last(), ctx) {
            Some(a) => before.push(a),
            None => before,
        }
    }
}

/// Builds the expression of the documentation model for a node of the source.
pub fn build_expression(node: &SyntaxNode, ctx: &Context) -> (r: Expression)
    ensures
        expression_view(r) == built_expression(*node, ctx.scope()),
    decreases node,
{
    match &node.expression {
        SyntaxExpression::Literal(literal) => Expression::Literal(*literal),
        SyntaxExpression::Parenthesized(inner) => Expression::Parenthesized(
            Box::new(build_expression(inner, ctx)),
        ),
        SyntaxExpression::TypeOrIdentifier(ty) => Expression::TypeOrIdentifier(build_type(ty, ctx)),
        _ => Expression::NotExpanded(calculate_span(node.range, ctx)),
    }
}

/// Builds the expressions for a list of nodes.
pub fn build_expressions(nodes: &Vec<SyntaxNode>, ctx: &Context) -> (r: Vec<Expression>)
    ensures
        expression_views(r@) == built_expressions(nodes@, ctx.scope()),
{
    let mut r: Vec<Expression> = Vec::new();
    let mut i: usize = 0;
    while i < nodes.len()
        invariant
            i <= nodes.len(),
            r.len() == i,
            forall|k: int| 0 <= k < i ==> expression_view(r@[k]) == built_expression(nodes@[k], ctx.scope()),
        decreases nodes.len() - i,
    {
        r.push(build_expression(&nodes[i], ctx));
        i += 1;
    }
    assert(expression_views(r@) =~= built_expressions(nodes@, ctx.scope()));
    r
}

/// Builds the type reference for a name of the source.
pub fn build_type(ty: &SyntaxType, ctx: &Context) -> (r: TypeExpression)
    ensures
        type_view(r) == built_type(*ty, ctx.scope()),
    decreases ty,
{
    match ctx.resolve_reference(ResolveTarget::MaybeMangled(ty.name.as_str())) {
        Some((name, kind, def_path)) => TypeExpression::Referenced { name, kind, def_path },
        None => {
            let template_args = match &ty.template_args {
                Some(args) => {
                    let mut out: Vec<Expression> = Vec::new();
                    let mut i: usize = 0;
                    while i < args.len()
                        invariant
                            i <= args.len(),
                            ty.template_args == Some(*args),
                            out.len() == i,
                            forall|k: int|
                                0 <= k < i ==> expression_view(out@[k]) == built_expression(
                                    args@[k],
                                    ctx.scope(),
                                ),
                        decreases args.len() - i,
                    {
                        proof {
                            assert(decreases_to!(*ty => ty.template_args));
                            assert(ty.template_args->Some_0 == *args);
                            assert(decreases_to!(ty.template_args => ty.template_args->Some_0));
                            assert(decreases_to!(*args => args@[i as int]));
                        }
                        out.push(build_expression(&args[i], ctx));
                        i += 1;
                    }
                    Some(out)
                },
                None => None,
            };
            let r = TypeExpression::TypeIdentifier { name: Ident(ty.name.clone()), template_args };
            proof {
                if ty.template_args.is_some() {
                    let got = type_view(r)->TypeIdentifier_template_args.unwrap();
                    let want = built_type(*ty, ctx.scope())->TypeIdentifier_template_args.unwrap();
                    assert(got =~= want);
                }
            }
            r
        },
    }
}

/// Builds the attribute for an attribute of the source; nothing for the
/// conditional markers and for `publish`.
pub fn build_attribute(a: &SyntaxAttribute, ctx: &Context) -> (r: Option<Attribute>)
    ensures
        match r {
            Some(a) => Some(attribute_view(a)),
            None => None,
        } == built_attribute(*a, ctx.scope()),
{
    match a {
        SyntaxAttribute::Align(e) => Some(Attribute::Align(build_expression(e, ctx))),
        SyntaxAttribute::Binding(e) => Some(Attribute::Binding(build_expression(e, ctx))),
        SyntaxAttribute::BlendSrc(e) => Some(Attribute::BlendSrc(build_expression(e, ctx))),
        SyntaxAttribute::Builtin(b) => Some(Attribute::Builtin(*b)),
        SyntaxAttribute::Const => Some(Attribute::Const),
        SyntaxAttribute::Diagnostic { severity, rule } => Some(
            Attribute::Diagnostic { severity: *severity, rule: rule.clone() },
        ),
        SyntaxAttribute::Group(e) => Some(Attribute::Group(build_expression(e, ctx))),
        SyntaxAttribute::Id(e) => Some(Attribute::Id(build_expression(e, ctx))),
        SyntaxAttribute::Interpolate { ty, sampling } => Some(
            Attribute::Interpolate { ty: *ty, sampling: *sampling },
        ),
        SyntaxAttribute::Invariant => Some(Attribute::Invariant),
        SyntaxAttribute::Location(e) => Some(Attribute::Location(build_expression(e, ctx))),
        SyntaxAttribute::MustUse => Some(Attribute::MustUse),
        SyntaxAttribute::Size(e) => Some(Attribute::Size(build_expression(e, ctx))),
        SyntaxAttribute::WorkgroupSize { x, y, z } => {
            let x = build_expression(x, ctx);
            let y = match y {
                Some(y) => Some(build_expression(y, ctx)),
                None => None,
            };
            let z = match z {
                Some(z) => Some(build_expression(z, ctx)),
                None => None,
            };
            Some(Attribute::WorkgroupSize { x, y, z })
        },
        SyntaxAttribute::Vertex => Some(Attribute::Vertex),
        SyntaxAttribute::Fragment => Some(Attribute::Fragment),
        SyntaxAttribute::Compute => Some(Attribute::Compute),
        SyntaxAttribute::Custom { name, arguments } => {
            let arguments = match arguments {
                Some(args) => Some(build_expressions(args, ctx)),
                None => None,
            };
            Some(Attribute::Custom { name: name.clone(), arguments })
        },
        SyntaxAttribute::If(_) => None,
        SyntaxAttribute::Elif(_) => None,
        SyntaxAttribute::Else => None,
        SyntaxAttribute::Publish => None,
    }
}

/// Builds the attributes of a declaration, the conditional markers left out.
pub fn build_attributes(attributes: &Vec<SyntaxAttribute>, ctx: &Context) -> (r: Vec<Attribute>)
    ensures
        attribute_views(r@) == built_attributes(attributes@, ctx.scope()),
{
    let mut r: Vec<Attribute> = Vec::new();
    let mut i: usize = 0;
    assert(attributes@.subrange(0, 0) =~= Seq::<SyntaxAttribute>::empty());
    assert(attribute_views(r@) =~= Seq::<AttributeView>::empty());
    while i < attributes.len()
        invariant
            i <= attributes.len(),
            attribute_views(r@) == built_attributes(attributes@.subrange(0, i as int), ctx.scope()),
        decreases attributes.len() - i,
    {
        proof {
            let next = attributes@.subrange(0, i + 1);
            assert(next.drop_last() =~= attributes@.subrange(0, i as int));
            assert(next.last() == attributes@[i as int]);
        }
        match build_attribute(&attributes[i], ctx) {
            Some(a) => {
                let ghost before = attribute_views(r@);
                r.push(a);
                assert(attribute_views(r@) =~= before.push(attribute_view(a)));
            },
            None => {},
        }
        i += 1;
    }
    assert(attributes@.subrange(0, attributes.len() as int) =~= attributes@);
    r
}

} // verus!
