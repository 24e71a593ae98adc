//! The mathematical forms of type references, expressions and attributes.
use vstd::prelude::*;
use crate::ast::{
    Attribute, BuiltinValue, DiagnosticSeverity, Expression, InterpolationSampling,
    InterpolationType, ItemKind, Literal, PathView, Span, TypeExpression,
};

verus! {

/// The mathematical form of an [`Expression`].
pub enum ExpressionView {
    Literal(Literal),
    Parenthesized(Box<ExpressionView>),
    TypeOrIdentifier(TypeView),
    NotExpanded(Option<Span>),
}

/// The mathematical form of a [`TypeExpression`].
pub enum TypeView {
    TypeIdentifier { name: Seq<char>, template_args: Option<Seq<ExpressionView>> },
    Referenced { name: Seq<char>, kind: ItemKind, def_path: PathView },
}

/// The mathematical form of an [`Attribute`].
pub enum AttributeView {
    Align(ExpressionView),
    Binding(ExpressionView),
    BlendSrc(ExpressionView),
    Builtin(BuiltinValue),
    Const,
    Diagnostic { severity: DiagnosticSeverity, rule: Seq<char> },
    Group(ExpressionView),
    Id(ExpressionView),
    Interpolate { ty: InterpolationType, sampling: Option<InterpolationSampling> },
    Invariant,
    Location(ExpressionView),
    MustUse,
    Size(ExpressionView),
    WorkgroupSize { x: ExpressionView, y: Option<ExpressionView>, z: Option<ExpressionView> },
    Vertex,
    Fragment,
    Compute,
    Custom { name: Seq<char>, arguments: Option<Seq<ExpressionView>> },
}

/// The view of an expression.
pub open spec fn expression_view(e: Expression) -> ExpressionView
    decreases e,
{
    match e {
        Expression::Literal(literal) => ExpressionView::Literal(literal),
        Expression::Parenthesized(inner) => ExpressionView::Parenthesized(
            Box::new(expression_view(*inner)),
        ),
        Expression::TypeOrIdentifier(ty) => ExpressionView::TypeOrIdentifier(type_view(ty)),
        Expression::NotExpanded(span) => ExpressionView::NotExpanded(span),
    }
}

/// The view of a type reference.
pub open spec fn type_view(t: TypeExpression) -> TypeView
    decreases t,
{
    match t {
        TypeExpression::TypeIdentifier { name, template_args } => TypeView::TypeIdentifier {
            name: name@,
            template_args: match template_args {
                Some(args) => Some(
                    Seq::new(
                        args@.len(),
                        |i: int|
                            if 0 <= i < args@.len() {
                                expression_view(args@[i])
                            } else {
                                arbitrary()
                            },
                    ),
                ),
                None => None,
            },
        },
        TypeExpression::Referenced { name, kind, def_path } => TypeView::Referenced {
            name: name@,
            kind,
            def_path: def_path@,
        },
    }
}

/// The views of a list of expressions.
pub open spec fn expression_views(v: Seq<Expression>) -> Seq<ExpressionView> {
    Seq::new(v.len(), |i: int| expression_view(v[i]))
}

/// The view of an optional expression.
pub open spec fn opt_expression_view(e: Option<Expression>) -> Option<ExpressionView> {
    match e {
        Some(e) => Some(expression_view(e)),
        None => None,
    }
}

/// The view of an optional type reference.
pub open spec fn opt_type_view(t: Option<TypeExpression>) -> Option<TypeView> {
    match t {
        Some(t) => Some(type_view(t)),
        None => None,
    }
}

/// The view of an attribute.
pub open spec fn attribute_view(a: Attribute) -> AttributeView {
    match a {
        Attribute::Align(e) => AttributeView::Align(expression_view(e)),
        Attribute::Binding(e) => AttributeView::Binding(expression_view(e)),
        Attribute::BlendSrc(e) => AttributeView::BlendSrc(expression_view(e)),
        Attribute::Builtin(b) => AttributeView::Builtin(b),
        Attribute::Const => AttributeView::Const,
        Attribute::Diagnostic { severity, rule } => AttributeView::Diagnostic {
            severity,
            rule: rule@,
        },
        Attribute::Group(e) => AttributeView::Group(expression_view(e)),
        Attribute::Id(e) => AttributeView::Id(expression_view(e)),
        Attribute::Interpolate { ty, sampling } => AttributeView::Interpolate { ty, sampling },
        Attribute::Invariant => AttributeView::Invariant,
        Attribute::Location(e) => AttributeView::Location(expression_view(e)),
        Attribute::MustUse => AttributeView::MustUse,
        Attribute::Size(e) => AttributeView::Size(expression_view(e)),
        Attribute::WorkgroupSize { x, y, z } => AttributeView::WorkgroupSize {
            x: expression_view(x),
            y: opt_expression_view(y),
            z: opt_expression_view(z),
        },
        Attribute::Vertex => AttributeView::Vertex,
        Attribute::Fragment => AttributeView::Fragment,
        Attribute::Compute => AttributeView::Compute,
        Attribute::Custom { name, arguments } => AttributeView::Custom {
            name: name@,
            arguments: match arguments {
                Some(args) => Some(expression_views(args@)),
                None => None,
            },
        },
    }
}

/// The views of a list of attributes.
pub open spec fn attribute_views(v: Seq<Attribute>) -> Seq<AttributeView> {
    Seq::new(v.len(), |i: int| attribute_view(v[i]))
}

} // verus!
