use indexmap::{IndexMap, IndexSet};
use wesldoc::ast::{Constant, Expression, Item, Literal};
use wesldoc::build_conditional::{build_conditional, conditional_from_expr, ConditionalScope};
use wesldoc::conditional::{
    collect_features, evaluate_conditional, is_tautology, Conditional, Ident,
};
use wesldoc::post_process::item_conditional;
use wesldoc::syntax::{
    BinaryOperator, SourceRange, SyntaxAttribute, SyntaxExpression, SyntaxNode, SyntaxType,
    UnaryOperator,
};

fn node(expression: SyntaxExpression) -> SyntaxNode {
    SyntaxNode { expression, range: SourceRange { start: 0, end: 0 } }
}

fn name(text: &str) -> SyntaxNode {
    node(SyntaxExpression::TypeOrIdentifier(SyntaxType {
        name: text.to_string(),
        template_args: None,
    }))
}

fn not(operand: SyntaxNode) -> SyntaxNode {
    node(SyntaxExpression::Unary {
        operator: UnaryOperator::LogicalNegation,
        operand: Box::new(operand),
    })
}

fn binary(operator: BinaryOperator, left: SyntaxNode, right: SyntaxNode) -> SyntaxNode {
    node(SyntaxExpression::Binary { operator, left: Box::new(left), right: Box::new(right) })
}

fn feature(text: &str) -> Conditional {
    Conditional::Feature(Ident(text.to_string()))
}

fn c_not(c: Conditional) -> Conditional {
    Conditional::Not(Box::new(c))
}

fn c_and(a: Conditional, b: Conditional) -> Conditional {
    Conditional::And(Box::new(a), Box::new(b))
}

fn c_or(a: Conditional, b: Conditional) -> Conditional {
    Conditional::Or(Box::new(a), Box::new(b))
}

fn constant(conditional: Option<Conditional>) -> Constant {
    Constant {
        name: Ident("foo".to_string()),
        ty: None,
        init: Expression::Literal(Literal::Bool(true)),
        attributes: Vec::new(),
        conditional,
        comment: None,
        span: None,
    }
}

#[test]
fn parses_literals_names_and_operators() {
    assert_eq!(
        conditional_from_expr(&SyntaxExpression::Literal(Literal::Bool(true))),
        Some(Conditional::True)
    );
    assert_eq!(
        conditional_from_expr(&SyntaxExpression::Literal(Literal::Bool(false))),
        Some(Conditional::False)
    );
    let e = binary(
        BinaryOperator::ShortCircuitAnd,
        name("a"),
        node(SyntaxExpression::Parenthesized(Box::new(not(name("b"))))),
    );
    assert_eq!(
        conditional_from_expr(&e.expression),
        Some(c_and(feature("a"), c_not(feature("b"))))
    );
    let e = binary(BinaryOperator::ShortCircuitOr, name("a"), name("b"));
    assert_eq!(conditional_from_expr(&e.expression), Some(c_or(feature("a"), feature("b"))));
}

#[test]
fn unsupported_shapes_give_no_conditional() {
    assert_eq!(conditional_from_expr(&SyntaxExpression::Literal(Literal::I32(1))), None);
    assert_eq!(conditional_from_expr(&SyntaxExpression::FunctionCall), None);
    let e = binary(BinaryOperator::Equality, name("a"), name("b"));
    assert_eq!(conditional_from_expr(&e.expression), None);
    let e = node(SyntaxExpression::Unary {
        operator: UnaryOperator::Negation,
        operand: Box::new(name("a")),
    });
    assert_eq!(conditional_from_expr(&e.expression), None);
    let with_args = SyntaxExpression::TypeOrIdentifier(SyntaxType {
        name: "a".to_string(),
        template_args: Some(Vec::new()),
    });
    assert_eq!(conditional_from_expr(&with_args), None);
    let e = binary(BinaryOperator::ShortCircuitAnd, name("a"), node(SyntaxExpression::Indexing));
    assert_eq!(conditional_from_expr(&e.expression), None);
}

#[test]
fn if_resets_the_chain() {
    let mut scope = ConditionalScope::new();
    let r = build_conditional(&mut scope, &vec![SyntaxAttribute::If(name("a"))]);
    assert_eq!(r, Some(feature("a")));
    assert_eq!(scope.prev, vec![feature("a")]);
    let r = build_conditional(&mut scope, &vec![SyntaxAttribute::If(name("b"))]);
    assert_eq!(r, Some(feature("b")));
    assert_eq!(scope.prev, vec![feature("b")]);
}

#[test]
fn elif_excludes_the_chain_so_far() {
    let mut scope = ConditionalScope::new();
    build_conditional(&mut scope, &vec![SyntaxAttribute::If(name("a"))]);
    let r = build_conditional(&mut scope, &vec![SyntaxAttribute::Elif(name("b"))]);
    assert_eq!(r, Some(c_and(feature("b"), c_not(feature("a")))));
    assert_eq!(scope.prev, vec![feature("a"), feature("b")]);
    let r = build_conditional(&mut scope, &vec![SyntaxAttribute::Elif(name("c"))]);
    assert_eq!(r, Some(c_and(feature("c"), c_not(c_or(feature("a"), feature("b"))))));
    assert_eq!(scope.prev, vec![feature("a"), feature("b"), feature("c")]);
}

#[test]
fn elif_without_if_stands_alone() {
    let mut scope = ConditionalScope::new();
    let r = build_conditional(&mut scope, &vec![SyntaxAttribute::Elif(name("b"))]);
    assert_eq!(r, Some(feature("b")));
    assert_eq!(scope.prev, vec![feature("b")]);
}

#[test]
fn else_negates_the_chain_and_clears_it() {
    let mut scope = ConditionalScope::new();
    build_conditional(&mut scope, &vec![SyntaxAttribute::If(name("a"))]);
    build_conditional(&mut scope, &vec![SyntaxAttribute::Elif(name("b"))]);
    let r = build_conditional(&mut scope, &vec![SyntaxAttribute::Else]);
    assert_eq!(r, Some(c_and(c_not(feature("a")), c_not(feature("b")))));
    assert!(scope.prev.is_empty());
    let r = build_conditional(&mut scope, &vec![SyntaxAttribute::Else]);
    assert_eq!(r, None);
}

#[test]
fn no_marker_clears_the_chain() {
    let mut scope = ConditionalScope::new();
    build_conditional(&mut scope, &vec![SyntaxAttribute::If(name("a"))]);
    let r = build_conditional(&mut scope, &vec![SyntaxAttribute::Const, SyntaxAttribute::MustUse]);
    assert_eq!(r, None);
    assert!(scope.prev.is_empty());
}

#[test]
fn unsupported_marker_leaves_the_chain() {
    let mut scope = ConditionalScope::new();
    build_conditional(&mut scope, &vec![SyntaxAttribute::If(name("a"))]);
    let r = build_conditional(
        &mut scope,
        &vec![SyntaxAttribute::If(node(SyntaxExpression::FunctionCall))],
    );
    assert_eq!(r, None);
    assert_eq!(scope.prev, vec![feature("a")]);
}

#[test]
fn first_marker_among_attributes_counts() {
    let mut scope = ConditionalScope::new();
    let r = build_conditional(
        &mut scope,
        &vec![SyntaxAttribute::Vertex, SyntaxAttribute::If(name("a")), SyntaxAttribute::Else],
    );
    assert_eq!(r, Some(feature("a")));
}

fn assignment(values: &[(&str, bool)]) -> IndexMap<String, bool> {
    values.iter().map(|(name, value)| (name.to_string(), *value)).collect()
}

#[test]
fn evaluation_follows_the_assignment() {
    let c = c_or(c_and(feature("a"), c_not(feature("b"))), Conditional::False);
    assert!(evaluate_conditional(&c, &assignment(&[("a", true)])));
    assert!(evaluate_conditional(&c, &assignment(&[("a", true), ("b", false)])));
    assert!(!evaluate_conditional(&c, &assignment(&[("a", true), ("b", true)])));
    assert!(!evaluate_conditional(&c, &assignment(&[("a", false), ("b", false)])));
    assert!(!evaluate_conditional(&c, &assignment(&[])));
    assert!(evaluate_conditional(&Conditional::True, &assignment(&[])));
    assert!(!evaluate_conditional(&feature("x"), &assignment(&[("y", true)])));
    assert!(evaluate_conditional(&c_not(feature("x")), &assignment(&[("y", true)])));
}

#[test]
fn features_are_collected_in_first_seen_order() {
    let c = c_or(c_and(feature("b"), feature("a")), c_not(c_and(feature("b"), feature("c"))));
    let mut set = IndexSet::new();
    collect_features(&c, &mut set);
    let got: Vec<String> = set.into_iter().collect();
    assert_eq!(got, vec!["b".to_string(), "a".to_string(), "c".to_string()]);
}

#[test]
fn tautology_is_found() {
    assert!(is_tautology(&c_or(feature("f"), c_not(feature("f")))));
    assert!(is_tautology(&Conditional::True));
    assert!(!is_tautology(&feature("f")));
    assert!(!is_tautology(&Conditional::False));
    assert!(!is_tautology(&c_or(feature("a"), c_not(feature("b")))));
    assert!(is_tautology(&c_or(
        c_or(c_and(feature("a"), feature("b")), c_not(feature("a"))),
        c_not(feature("b"))
    )));
}

#[test]
fn tautology_answers_the_same_twice() {
    let c = c_or(feature("f"), c_and(c_not(feature("f")), c_not(feature("f"))));
    let first = is_tautology(&c);
    let second = is_tautology(&c);
    assert_eq!(first, second);
    assert!(first);
    let d = c_and(feature("a"), feature("b"));
    assert_eq!(is_tautology(&d), is_tautology(&d));
}

fn many_features(n: usize) -> Conditional {
    let mut c = c_or(feature("f0"), c_not(feature("f0")));
    for i in 1..n {
        c = c_or(c, feature(&format!("f{}", i)));
    }
    c
}

#[test]
fn tautology_with_eight_features_is_found() {
    assert!(is_tautology(&many_features(8)));
}

#[test]
fn tautology_with_nine_features_is_kept() {
    assert!(!is_tautology(&many_features(9)));
}

#[test]
fn merged_conditional_is_left_fold_of_or() {
    let item = Item {
        instances: vec![
            constant(Some(feature("a"))),
            constant(Some(feature("b"))),
            constant(Some(feature("c"))),
        ],
        conditional: None,
    };
    assert_eq!(item_conditional(&item), Some(c_or(c_or(feature("a"), feature("b")), feature("c"))));
}

#[test]
fn unconditional_instance_makes_item_always_visible() {
    let item = Item {
        instances: vec![constant(Some(feature("a"))), constant(None), constant(Some(feature("c")))],
        conditional: None,
    };
    assert_eq!(item_conditional(&item), None);
    let item = Item { instances: vec![constant(None)], conditional: Some(feature("z")) };
    assert_eq!(item_conditional(&item), None);
    let empty: Item<Constant> = Item { instances: Vec::new(), conditional: None };
    assert_eq!(item_conditional(&empty), None);
}

#[test]
fn if_and_elif_not_merge_to_always_visible() {
    let mut scope = ConditionalScope::new();
    let first = build_conditional(&mut scope, &vec![SyntaxAttribute::If(name("F"))]);
    let second = build_conditional(&mut scope, &vec![SyntaxAttribute::Elif(not(name("F")))]);
    assert_eq!(first, Some(feature("F")));
    assert_eq!(second, Some(c_and(c_not(feature("F")), c_not(feature("F")))));
    let item = Item { instances: vec![constant(first), constant(second)], conditional: None };
    assert_eq!(item_conditional(&item), None);
}

#[test]
fn if_and_else_merge_to_always_visible() {
    let mut scope = ConditionalScope::new();
    let first = build_conditional(&mut scope, &vec![SyntaxAttribute::If(name("feature_x"))]);
    let second = build_conditional(&mut scope, &vec![SyntaxAttribute::Else]);
    let item = Item { instances: vec![constant(first), constant(second)], conditional: None };
    assert_eq!(item.instances.len(), 2);
    assert_eq!(item_conditional(&item), None);
}

#[test]
fn conditional_text_uses_parentheses_where_needed() {
    assert_eq!(c_not(c_and(feature("a"), feature("b"))).to_text(), "!(a && b)");
    assert_eq!(c_not(feature("a")).to_text(), "!a");
    assert_eq!(c_and(feature("a"), c_or(feature("b"), feature("c"))).to_text(), "a && (b || c)");
    assert_eq!(c_or(c_and(feature("a"), feature("b")), feature("c")).to_text(), "(a && b) || c");
    assert_eq!(c_and(c_and(feature("a"), feature("b")), feature("c")).to_text(), "a && b && c");
    assert_eq!(c_or(Conditional::True, Conditional::False).to_text(), "true || false");
}

#[test]
fn copies_are_equal() {
    let c = c_or(c_and(feature("a"), c_not(feature("b"))), Conditional::True);
    assert_eq!(c.duplicate(), c);
    assert_eq!(c.clone(), c);
    assert_eq!(Ident("x".to_string()).duplicate(), Ident("x".to_string()));
    assert_eq!(Ident("x".to_string()).to_text(), "x");
}

#[test]
fn exactly_one_branch_of_a_chain_holds() {
    let mut scope = ConditionalScope::new();
    let branches = vec![
        build_conditional(&mut scope, &vec![SyntaxAttribute::If(name("a"))]).unwrap(),
        build_conditional(
            &mut scope,
            &vec![SyntaxAttribute::Elif(binary(BinaryOperator::ShortCircuitAnd, name("b"), not(name("c"))))],
        )
        .unwrap(),
        build_conditional(&mut scope, &vec![SyntaxAttribute::Elif(name("c"))]).unwrap(),
        build_conditional(&mut scope, &vec![SyntaxAttribute::Else]).unwrap(),
    ];
    for mask in 0..8u32 {
        let mut enabled = IndexMap::new();
        for (bit, feature) in ["a", "b", "c"].iter().enumerate() {
            enabled.insert(feature.to_string(), mask >> bit & 1 == 1);
        }
        let holding = branches.iter().filter(|b| evaluate_conditional(b, &enabled)).count();
        assert_eq!(holding, 1);
    }
}
