//! The features that the conditional markers of a module mention.
use vstd::prelude::*;
use indexmap::IndexSet;
use crate::conditional::with_feature;
use crate::context::{Context, declared_locally, local_views};
use crate::feature_set::{set_insert, set_items, set_new};
use crate::ast::ItemKind;
use crate::syntax::{
    BinaryOperator, CompiledModule, DeclarationNode, GlobalDeclaration,
    SyntaxAttribute, SyntaxExpression, UnaryOperator, declared_attributes,
};

verus! {

/// The ordered set `acc` after the names in an expression were inserted:
/// every identifier that is reached through parentheses, `!`, `&&` and
/// `||`, from left to right.
pub open spec fn expression_features(e: SyntaxExpression, acc: Seq<Seq<char>>) -> Seq<Seq<char>>
    decreases e,
{
    match e {
        SyntaxExpression::Parenthesized(inner) => expression_features(inner.expression, acc),
        SyntaxExpression::Unary { operator: UnaryOperator::LogicalNegation, operand } => {
            expression_features(operand.expression, acc)
        },
        SyntaxExpression::Binary { operator: BinaryOperator::ShortCircuitOr, left, right } => {
            expression_features(right.expression, expression_features(left.expression, acc))
        },
        SyntaxExpression::Binary { operator: BinaryOperator::ShortCircuitAnd, left, right } => {
            expression_features(right.expression, expression_features(left.expression, acc))
        },
        SyntaxExpression::TypeOrIdentifier(ty) => with_feature(acc, ty.name@),
        _ => acc,
    }
}

/// The ordered set after the names of one attribute were inserted: those
/// of the expression of an `if` or `elif`, none for any other attribute.
pub open spec fn attribute_features(a: SyntaxAttribute, acc: Seq<Seq<char>>) -> Seq<Seq<char>> {
    match a {
        SyntaxAttribute::If(e) => expression_features(e.expression, acc),
        SyntaxAttribute::Elif(e) => expression_features(e.expression, acc),
        _ => acc,
    }
}

/// The ordered set after the names of a list of attributes were inserted, in order.
pub open spec fn attributes_features(attributes: Seq<SyntaxAttribute>, acc: Seq<Seq<char>>) -> Seq<
    Seq<char>,
>
    decreases attributes.len(),
{
    if attributes.len() == 0 {
        acc
    } else {
        attribute_features(attributes.last(), attributes_features(attributes.drop_last(), acc))
    }
}

/// The ordered set after the names of the attributes of the local
/// declarations of a list were inserted, in order. Declarations that came
/// from elsewhere add nothing, nor do the members of a struct or the
/// parameters of a function.
pub open spec fn declarations_features(
    local: Seq<(Seq<char>, ItemKind)>,
    declarations: Seq<DeclarationNode>,
    acc: Seq<Seq<char>>,
) -> Seq<Seq<char>>
    decreases declarations.len(),
{
    if declarations.len() == 0 {
        acc
    } else {
        let before = declarations_features(local, declarations.drop_last(), acc);
        let last = declarations.last().declaration;
        if declared_locally(local, last) {
            attributes_features(declared_attributes(last), before)
        } else {
            before
        }
    }
}

/// The features of a module: those that the `if` and `elif` markers of
/// its local declarations mention, each in the order of its first
/// occurrence.
pub open spec fn module_features(local: Seq<(Seq<char>, ItemKind)>, compiled: CompiledModule) -> Seq<
    Seq<char>,
> {
    declarations_features(local, compiled.declarations@, Seq::empty())
}

/// Inserting the names of an expression into a duplicate-free list
/// leaves it duplicate-free.
pub proof fn lemma_expression_features_distinct(e: SyntaxExpression, acc: Seq<Seq<char>>)
    requires
        acc.no_duplicates(),
    ensures
        expression_features(e, acc).no_duplicates(),
    decreases e,
{
    match e {
        SyntaxExpression::Parenthesized(inner) => {
            lemma_expression_features_distinct(inner.expression, acc);
        },
        SyntaxExpression::Unary { operator: UnaryOperator::LogicalNegation, operand } => {
            lemma_expression_features_distinct(operand.expression, acc);
        },
        SyntaxExpression::Binary { operator: BinaryOperator::ShortCircuitOr, left, right } => {
            lemma_expression_features_distinct(left.expression, acc);
            lemma_expression_features_distinct(
                right.expression,
                expression_features(left.expression, acc),
            );
        },
        SyntaxExpression::Binary { operator: BinaryOperator::ShortCircuitAnd, left, right } => {
            lemma_expression_features_distinct(left.expression, acc);
            lemma_expression_features_distinct(
                right.expression,
                expression_features(left.expression, acc),
            );
        },
        _ => {},
    }
}

/// Inserting the names of a list of attributes into a duplicate-free
/// list leaves it duplicate-free.
pub proof fn lemma_attributes_features_distinct(
    attributes: Seq<SyntaxAttribute>,
    acc: Seq<Seq<char>>,
)
    requires
        acc.no_duplicates(),
    ensures
        attributes_features(attributes, acc).no_duplicates(),
    decreases attributes.len(),
{
    if attributes.len() > 0 {
        lemma_attributes_features_distinct(attributes.drop_last(), acc);
        let before = attributes_features(attributes.drop_last(), acc);
        match attributes.last() {
            SyntaxAttribute::If(e) => lemma_expression_features_distinct(e.expression, before),
            SyntaxAttribute::Elif(e) => lemma_expression_features_distinct(e.expression, before),
            _ => {},
        }
    }
}

/// The features of a list of declarations, inserted into a
/// duplicate-free list, leave it duplicate-free.
pub proof fn lemma_declarations_features_distinct(
    local: Seq<(Seq<char>, ItemKind)>,
    declarations: Seq<DeclarationNode>,
    acc: Seq<Seq<char>>,
)
    requires
        acc.no_duplicates(),
    ensures
        declarations_features(local, declarations, acc).no_duplicates(),
    decreases declarations.len(),
{
    if declarations.len() > 0 {
        lemma_declarations_features_distinct(local, declarations.drop_last(), acc);
        lemma_attributes_features_distinct(
            declared_attributes(declarations.last().declaration),
            declarations_features(local, declarations.drop_last(), acc),
        );
    }
}

/// No feature occurs twice among the features of a module.
pub proof fn lemma_module_features_distinct(
    local: Seq<(Seq<char>, ItemKind)>,
    compiled: CompiledModule,
)
    ensures
        module_features(local, compiled).no_duplicates(),
{
    lemma_declarations_features_distinct(local, compiled.declarations@, Seq::empty());
}

/// Whether an expression names the feature: in an identifier that is
/// reached through parentheses, `!`, `&&` and `||`.
pub open spec fn expression_names(e: SyntaxExpression, f: Seq<char>) -> bool
    decreases e,
{
    match e {
        SyntaxExpression::Parenthesized(inner) => expression_names(inner.expression, f),
        SyntaxExpression::Unary { operator: UnaryOperator::LogicalNegation, operand } => {
            expression_names(operand.expression, f)
        },
        SyntaxExpression::Binary { operator: BinaryOperator::ShortCircuitOr, left, right } => {
            expression_names(left.expression, f) || expression_names(right.expression, f)
        },
        SyntaxExpression::Binary { operator: BinaryOperator::ShortCircuitAnd, left, right } => {
            expression_names(left.expression, f) || expression_names(right.expression, f)
        },
        SyntaxExpression::TypeOrIdentifier(ty) => ty.name@ == f,
        _ => false,
    }
}

/// Whether an attribute names the feature: in the expression of an `if`
/// or `elif`.
pub open spec fn attribute_names(a: SyntaxAttribute, f: Seq<char>) -> bool {
    match a {
        SyntaxAttribute::If(e) => expression_names(e.expression, f),
        SyntaxAttribute::Elif(e) => expression_names(e.expression, f),
        _ => false,
    }
}

/// Whether one of the attributes names the feature.
pub open spec fn attributes_name(attributes: Seq<SyntaxAttribute>, f: Seq<char>) -> bool {
    exists|j: int| 0 <= j < attributes.len() && attribute_names(#[trigger] attributes[j], f)
}

/// Whether a local declaration of the list names the feature in one of
/// its own attributes.
pub open spec fn declarations_name(
    local: Seq<(Seq<char>, ItemKind)>,
    declarations: Seq<DeclarationNode>,
    f: Seq<char>,
) -> bool {
    exists|k: int|
        0 <= k < declarations.len() && declared_locally(
            local,
            (#[trigger] declarations[k]).declaration,
        ) && attributes_name(declared_attributes(declarations[k].declaration), f)
}

/// After an insertion an ordered set holds what it held and the new name.
pub proof fn lemma_with_feature_contains(acc: Seq<Seq<char>>, g: Seq<char>, f: Seq<char>)
    ensures
        with_feature(acc, g).contains(f) <==> (acc.contains(f) || g == f),
{
    if !acc.contains(g) {
        let more = acc.push(g);
        assert(more[acc.len() as int] == g);
        if acc.contains(f) {
            let i = choose|i: int| 0 <= i < acc.len() && acc[i] == f;
            assert(more[i] == f);
        }
    }
}

/// The names that an expression adds are those that it names.
pub proof fn lemma_expression_features_contains(
    e: SyntaxExpression,
    acc: Seq<Seq<char>>,
    f: Seq<char>,
)
    ensures
        expression_features(e, acc).contains(f) <==> (acc.contains(f) || expression_names(e, f)),
    decreases e,
{
    match e {
        SyntaxExpression::Parenthesized(inner) => {
            lemma_expression_features_contains(inner.expression, acc, f);
        },
        SyntaxExpression::Unary { operator: UnaryOperator::LogicalNegation, operand } => {
            lemma_expression_features_contains(operand.expression, acc, f);
        },
        SyntaxExpression::Binary { operator: BinaryOperator::ShortCircuitOr, left, right } => {
            lemma_expression_features_contains(left.expression, acc, f);
            lemma_expression_features_contains(
                right.expression,
                expression_features(left.expression, acc),
                f,
            );
        },
        SyntaxExpression::Binary { operator: BinaryOperator::ShortCircuitAnd, left, right } => {
            lemma_expression_features_contains(left.expression, acc, f);
            lemma_expression_features_contains(
                right.expression,
                expression_features(left.expression, acc),
                f,
            );
        },
        SyntaxExpression::TypeOrIdentifier(ty) => {
            lemma_with_feature_contains(acc, ty.name@, f);
        },
        _ => {},
    }
}

/// The names that a list of attributes adds are those that its `if` and
/// `elif` markers name.
pub proof fn lemma_attributes_features_contains(
    attributes: Seq<SyntaxAttribute>,
    acc: Seq<Seq<char>>,
    f: Seq<char>,
)
    ensures
        attributes_features(attributes, acc).contains(f) <==> (acc.contains(f) || attributes_name(
            attributes,
            f,
        )),
    decreases attributes.len(),
{
    if attributes.len() > 0 {
        let front = attributes.drop_last();
        let last = attributes.last();
        let before = attributes_features(front, acc);
        lemma_attributes_features_contains(front, acc, f);
        match last {
            SyntaxAttribute::If(e) => lemma_expression_features_contains(e.expression, before, f),
            SyntaxAttribute::Elif(e) => lemma_expression_features_contains(e.expression, before, f),
            _ => {},
        }
        if attributes_name(front, f) {
            let j = choose|j: int| 0 <= j < front.len() && attribute_names(#[trigger] front[j], f);
            assert(attributes[j] == front[j]);
        }
        if attribute_names(last, f) {
            assert(attributes[attributes.len() - 1] == last);
        }
        if attributes_name(attributes, f) {
            let j = choose|j: int|
                0 <= j < attributes.len() && attribute_names(#[trigger] attributes[j], f);
            if j < front.len() {
                assert(front[j] == attributes[j]);
            }
        }
    }
}

/// The names that a list of declarations adds are those that the own
/// attributes of its local declarations name.
pub proof fn lemma_declarations_features_contains(
    local: Seq<(Seq<char>, ItemKind)>,
    declarations: Seq<DeclarationNode>,
    acc: Seq<Seq<char>>,
    f: Seq<char>,
)
    ensures
        declarations_features(local, declarations, acc).contains(f) <==> (acc.contains(f)
            || declarations_name(local, declarations, f)),
    decreases declarations.len(),
{
    if declarations.len() > 0 {
        let front = declarations.drop_last();
        let last = declarations.last();
        let before = declarations_features(local, front, acc);
        lemma_declarations_features_contains(local, front, acc, f);
        lemma_attributes_features_contains(declared_attributes(last.declaration), before, f);
        if declarations_name(local, front, f) {
            let k = choose|k: int|
                0 <= k < front.len() && declared_locally(local, (#[trigger] front[k]).declaration)
                    && attributes_name(declared_attributes(front[k].declaration), f);
            assert(declarations[k] == front[k]);
        }
        if declared_locally(local, last.declaration) && attributes_name(
            declared_attributes(last.declaration),
            f,
        ) {
            assert(declarations[declarations.len() - 1] == last);
        }
        if declarations_name(local, declarations, f) {
            let k = choose|k: int|
                0 <= k < declarations.len() && declared_locally(
                    local,
                    (#[trigger] declarations[k]).declaration,
                ) && attributes_name(declared_attributes(declarations[k].declaration), f);
            if k < front.len() {
                assert(front[k] == declarations[k]);
            }
        }
    }
}

/// A feature is among the features of a module exactly when a local
/// declaration of the module names it in the `if` or `elif` marker of
/// one of its own attributes.
pub proof fn lemma_module_features_contents(
    local: Seq<(Seq<char>, ItemKind)>,
    compiled: CompiledModule,
    f: Seq<char>,
)
    ensures
        module_features(local, compiled).contains(f) <==> declarations_name(
            local,
            compiled.declarations@,
            f,
        ),
{
    lemma_declarations_features_contains(local, compiled.declarations@, Seq::empty(), f);
}

/// Inserts the names of an expression into the set.
pub fn collect_from_cond(expr: &SyntaxExpression, features: &mut IndexSet<String>)
    ensures
        set_items(*final(features)) == expression_features(*expr, set_items(*old(features))),
    decreases expr,
{
    match expr {
        SyntaxExpression::Parenthesized(inner) => collect_from_cond(&inner.expression, features),
        SyntaxExpression::Unary { operator, operand } => match operator {
            UnaryOperator::LogicalNegation => collect_from_cond(&operand.expression, features),
            _ => {},
        },
        SyntaxExpression::Binary { operator, left, right } => match operator {
            BinaryOperator::ShortCircuitOr => {
                collect_from_cond(&left.expression, features);
                collect_from_cond(&right.expression, features);
            },
            BinaryOperator::ShortCircuitAnd => {
                collect_from_cond(&left.expression, features);
                collect_from_cond(&right.expression, features);
            },
            _ => {},
        },
        SyntaxExpression::TypeOrIdentifier(ty) => {
            set_insert(features, ty.name.clone());
        },
        _ => {},
    }
}

/// Inserts the names of the `if` and `elif` expressions of a list of
/// attributes into the set.
pub fn collect_from_attributes(attributes: &Vec<SyntaxAttribute>, features: &mut IndexSet<String>)
    ensures
        set_items(*final(features)) == attributes_features(
            attributes@,
            set_items(*old(features)),
        ),
{
    let mut i: usize = 0;
    assert(attributes@.subrange(0, 0) =~= Seq::<SyntaxAttribute>::empty());
    while i < attributes.len()
        invariant
            i <= attributes.len(),
            set_items(*features) == attributes_features(
                attributes@.subrange(0, i as int),
                set_items(*old(features)),
            ),
        decreases attributes.len() - i,
    {
        proof {
            let next = attributes@.subrange(0, i + 1);
            assert(next.drop_last() =~= attributes@.subrange(0, i as int));
            assert(next.last() == attributes@[i as int]);
        }
        match &attributes[i] {
            SyntaxAttribute::If(node) => collect_from_cond(&node.expression, features),
            SyntaxAttribute::Elif(node) => collect_from_cond(&node.expression, features),
            _ => {},
        }
        i += 1;
    }
    assert(attributes@.subrange(0, attributes.len() as int) =~= attributes@);
}

/// Inserts the names that a declaration's own attributes mention into the set.
pub fn collect_from_global_declaration(
    declaration: &GlobalDeclaration,
    features: &mut IndexSet<String>,
)
    ensures
        set_items(*final(features)) == attributes_features(
            declared_attributes(*declaration),
            set_items(*old(features)),
        ),
{
    match declaration.attributes() {
        Some(attributes) => collect_from_attributes(attributes, features),
        None => {},
    }
}

/// The features of the module of a context, in the order of their first
/// occurrence.
pub fn collect_features(ctx: &Context) -> (r: IndexSet<String>)
    ensures
        set_items(r) == module_features(local_views(ctx.local@), *ctx.compiled),
{
    let compiled = ctx.compiled();
    let ghost local = local_views(ctx.local@);
    let mut features = set_new();
    let ghost start = set_items(features);
    let mut k: usize = 0;
    assert(compiled.declarations@.subrange(0, 0) =~= Seq::<DeclarationNode>::empty());
    while k < compiled.declarations.len()
        invariant
            k <= compiled.declarations.len(),
            compiled == ctx.compiled,
            local == local_views(ctx.local@),
            set_items(features) == declarations_features(
                local,
                compiled.declarations@.subrange(0, k as int),
                start,
            ),
        decreases compiled.declarations.len() - k,
    {
        proof {
            let next = compiled.declarations@.subrange(0, k + 1);
            assert(next.drop_last() =~= compiled.declarations@.subrange(0, k as int));
            assert(next.last() == compiled.declarations@[k as int]);
        }
        let declaration = &compiled.declarations[k].declaration;
        if ctx.is_local(declaration) {
            collect_from_global_declaration(declaration, &mut features);
        }
        k += 1;
    }
    assert(compiled.declarations@.subrange(0, compiled.declarations.len() as int)
        =~= compiled.declarations@);
    features
}

} // verus!
