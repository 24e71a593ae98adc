//! The conditional of a declaration, built from its `if`, `elif` and
//! `else` markers and from the markers of the declarations before it.
use vstd::prelude::*;
use crate::ast::Literal;
use crate::conditional::{
    Cond, Conditional, Ident, always_holds, cond_views, features_into, features_of, holds, merged_conditional,
    opt_cond, or_fold, tautology_verdict, with_feature,
};
use crate::syntax::{BinaryOperator, SyntaxAttribute, SyntaxExpression, UnaryOperator};

verus! {

/// The conditional that an expression of the source stands for: boolean
/// literals, feature names without template arguments, and `!`, `&&` and
/// `||` over such; nothing for any other shape.
pub open spec fn parsed_conditional(e: SyntaxExpression) -> Option<Cond>
    decreases e,
{
    match e {
        SyntaxExpression::Literal(Literal::Bool(true)) => Some(Cond::True),
        SyntaxExpression::Literal(Literal::Bool(false)) => Some(Cond::False),
        SyntaxExpression::Parenthesized(inner) => parsed_conditional(inner.expression),
        SyntaxExpression::Unary { operator: UnaryOperator::LogicalNegation, operand } => {
            match parsed_conditional(operand.expression) {
                Some(c) => Some(Cond::Not(Box::new(c))),
                None => None,
            }
        },
        SyntaxExpression::Binary { operator: BinaryOperator::ShortCircuitOr, left, right } => {
            match (parsed_conditional(left.expression), parsed_conditional(right.expression)) {
                (Some(l), Some(r)) => Some(Cond::Or(Box::new(l), Box::new(r))),
                _ => None,
            }
        },
        SyntaxExpression::Binary { operator: BinaryOperator::ShortCircuitAnd, left, right } => {
            match (parsed_conditional(left.expression), parsed_conditional(right.expression)) {
                (Some(l), Some(r)) => Some(Cond::And(Box::new(l), Box::new(r))),
                _ => None,
            }
        },
        SyntaxExpression::TypeOrIdentifier(ty) => if ty.template_args.is_some() {
            None
        } else {
            Some(Cond::Feature(ty.name@))
        },
        _ => None,
    }
}

/// Reads an expression of the source as a conditional.
pub fn conditional_from_expr(expr: &SyntaxExpression) -> (r: Option<Conditional>)
    ensures
        opt_cond(r) == parsed_conditional(*expr),
    decreases expr,
{
    match expr {
        SyntaxExpression::Literal(literal) => match literal {
            Literal::Bool(true) => Some(Conditional::True),
            Literal::Bool(false) => Some(Conditional::False),
            _ => None,
        },
        SyntaxExpression::Parenthesized(inner) => conditional_from_expr(&inner.expression),
        SyntaxExpression::Unary { operator, operand } => match operator {
            UnaryOperator::LogicalNegation => match conditional_from_expr(&operand.expression) {
                Some(c) => Some(Conditional::Not(Box::new(c))),
                None => None,
            },
            _ => None,
        },
        SyntaxExpression::Binary { operator, left, right } => match operator {
            BinaryOperator::ShortCircuitOr => {
                match conditional_from_expr(&left.expression) {
                    None => None,
                    Some(l) => match conditional_from_expr(&right.expression) {
                        None => None,
                        Some(r) => Some(Conditional::Or(Box::new(l), Box::new(r))),
                    },
                }
            },
            BinaryOperator::ShortCircuitAnd => {
                match conditional_from_expr(&left.expression) {
                    None => None,
                    Some(l) => match conditional_from_expr(&right.expression) {
                        None => None,
                        Some(r) => Some(Conditional::And(Box::new(l), Box::new(r))),
                    },
                }
            },
            _ => None,
        },
        SyntaxExpression::TypeOrIdentifier(ty) => {
            if ty.template_args.is_some() {
                None
            } else {
                Some(Conditional::Feature(Ident(ty.name.clone())))
            }
        },
        _ => None,
    }
}

/// The conditional marker of a declaration, with the conditional that its
/// expression stands for where it has one.
pub enum Marker {
    If(Option<Cond>),
    Elif(Option<Cond>),
    Else,
    Absent,
}

/// The first conditional marker among the attributes from position `from` on.
pub open spec fn marker_from(attributes: Seq<SyntaxAttribute>, from: int) -> Marker
    decreases attributes.len() - from,
{
    if from < 0 || from >= attributes.len() {
        Marker::Absent
    } else {
        match attributes[from] {
            SyntaxAttribute::If(e) => Marker::If(parsed_conditional(e.expression)),
            SyntaxAttribute::Elif(e) => Marker::Elif(parsed_conditional(e.expression)),
            SyntaxAttribute::Else => Marker::Else,
            _ => marker_from(attributes, from + 1),
        }
    }
}

/// The first conditional marker among the attributes of a declaration.
pub open spec fn first_marker(attributes: Seq<SyntaxAttribute>) -> Marker {
    marker_from(attributes, 0)
}

/// The disjunction of a non-empty list of conditionals, taken from the left.
pub open spec fn or_all(prev: Seq<Cond>) -> Cond
    decreases prev.len(),
{
    if prev.len() <= 1 {
        prev[0]
    } else {
        Cond::Or(Box::new(or_all(prev.drop_last())), Box::new(prev.last()))
    }
}

/// The conditional of an `elif` branch: its own expression, and none of
/// the expressions of the chain so far.
pub open spec fn elif_conditional(this: Cond, prev: Seq<Cond>) -> Cond {
    if prev.len() == 0 {
        this
    } else {
        Cond::And(Box::new(this), Box::new(Cond::Not(Box::new(or_all(prev)))))
    }
}

/// The conditional of an `else` branch: the conjunction, from the left,
/// of the negations of the expressions of the chain; nothing for an empty chain.
pub open spec fn else_conditional(prev: Seq<Cond>) -> Option<Cond>
    decreases prev.len(),
{
    if prev.len() == 0 {
        None
    } else if prev.len() == 1 {
        Some(Cond::Not(Box::new(prev[0])))
    } else {
        Some(
            Cond::And(
                Box::new(else_conditional(prev.drop_last()).unwrap()),
                Box::new(Cond::Not(Box::new(prev.last()))),
            ),
        )
    }
}

/// The conditional of a declaration with the given marker after a chain
/// `prev`, and the chain that the next declaration sees. A marker whose
/// expression is not understood gives no conditional and leaves the chain.
pub open spec fn marked(prev: Seq<Cond>, marker: Marker) -> (Option<Cond>, Seq<Cond>) {
    match marker {
        Marker::If(Some(c)) => (Some(c), seq![c]),
        Marker::If(None) => (None, prev),
        Marker::Elif(Some(c)) => (Some(elif_conditional(c, prev)), prev.push(c)),
        Marker::Elif(None) => (None, prev),
        Marker::Else => (else_conditional(prev), Seq::empty()),
        Marker::Absent => (None, Seq::empty()),
    }
}

/// The expressions of the `if` / `elif` chain that the declarations of
/// one list have opened so far.
pub struct ConditionalScope {
    pub prev: Vec<Conditional>,
}

impl View for ConditionalScope {
    type V = Seq<Cond>;

    open spec fn view(&self) -> Seq<Cond> {
        cond_views(self.prev@)
    }
}

impl ConditionalScope {
    /// A scope with no chain open.
    pub fn new() -> (r: ConditionalScope)
        ensures
            r@ == Seq::<Cond>::empty(),
    {
        let r = ConditionalScope { prev: Vec::new() };
        assert(r@ =~= Seq::<Cond>::empty());
        r
    }
}

/// The disjunction of the chain, taken from the left.
fn build_or_all(prev: &Vec<Conditional>) -> (r: Conditional)
    requires
        prev.len() > 0,
    ensures
        r@ == or_all(cond_views(prev@)),
{
    let mut acc = prev[0].duplicate();
    let mut i: usize = 1;
    assert(cond_views(prev@).subrange(0, 1)[0] == prev@[0]@);
    while i < prev.len()
        invariant
            1 <= i <= prev.len(),
            acc@ == or_all(cond_views(prev@).subrange(0, i as int)),
        decreases prev.len() - i,
    {
        proof {
            let next = cond_views(prev@).subrange(0, i + 1);
            assert(next.drop_last() =~= cond_views(prev@).subrange(0, i as int));
            assert(next.last() == prev@[i as int]@);
        }
        acc = Conditional::Or(Box::new(acc), Box::new(prev[i].duplicate()));
        i += 1;
    }
    assert(cond_views(prev@).subrange(0, prev.len() as int) =~= cond_views(prev@));
    acc
}

/// The conjunction of the negations of the chain, taken from the left.
fn build_else(prev: &Vec<Conditional>) -> (r: Option<Conditional>)
    ensures
        opt_cond(r) == else_conditional(cond_views(prev@)),
{
    if prev.len() == 0 {
        return None;
    }
    let mut acc = Conditional::Not(Box::new(prev[0].duplicate()));
    let mut i: usize = 1;
    assert(cond_views(prev@).subrange(0, 1)[0] == prev@[0]@);
    while i < prev.len()
        invariant
            1 <= i <= prev.len(),
            Some(acc@) == else_conditional(cond_views(prev@).subrange(0, i as int)),
        decreases prev.len() - i,
    {
        proof {
            let next = cond_views(prev@).subrange(0, i + 1);
            assert(next.drop_last() =~= cond_views(prev@).subrange(0, i as int));
            assert(next.last() == prev@[i as int]@);
        }
        let negated = Conditional::Not(Box::new(prev[i].duplicate()));
        assert(negated@ == Cond::Not(Box::new(prev@[i as int]@)));
        acc = Conditional::And(Box::new(acc), Box::new(negated));
        i += 1;
    }
    assert(cond_views(prev@).subrange(0, prev.len() as int) =~= cond_views(prev@));
    Some(acc)
}

/// The conditional of a declaration with the given attributes, absent
/// where it is unconditional; the scope goes on to the state that the
/// next declaration of the list sees.
pub fn build_conditional(scope: &mut ConditionalScope, attributes: &Vec<SyntaxAttribute>) -> (r:
    Option<Conditional>)
    ensures
        (opt_cond(r), final(scope)@) == marked(old(scope)@, first_marker(attributes@)),
{
    let mut i: usize = 0;
    while i < attributes.len()
        invariant
            i <= attributes.len(),
            *scope == *old(scope),
            marker_from(attributes@, 0) == marker_from(attributes@, i as int),
        decreases attributes.len() - i,
    {
        match &attributes[i] {
            SyntaxAttribute::If(node) => {
                return match conditional_from_expr(&node.expression) {
                    None => None,
                    Some(this) => {
                        scope.prev = Vec::new();
                        scope.prev.push(this.duplicate());
                        assert(scope@ =~= seq![this@]);
                        Some(this)
                    },
                };
            },
            SyntaxAttribute::Elif(node) => {
                return match conditional_from_expr(&node.expression) {
                    None => None,
                    Some(this) => {
                        let combined = if scope.prev.len() == 0 {
                            this.duplicate()
                        } else {
                            let negated = Conditional::Not(Box::new(build_or_all(&scope.prev)));
                            assert(negated@ == Cond::Not(Box::new(or_all(scope@))));
                            Conditional::And(Box::new(this.duplicate()), Box::new(negated))
                        };
                        let ghost before = scope@;
                        scope.prev.push(this);
                        assert(scope@ =~= before.push(this@));
                        Some(combined)
                    },
                };
            },
            SyntaxAttribute::Else => {
                let r = build_else(&scope.prev);
                scope.prev = Vec::new();
                assert(scope@ =~= Seq::<Cond>::empty());
                return r;
            },
            _ => {},
        }
        i += 1;
    }
    scope.prev = Vec::new();
    assert(scope@ =~= Seq::<Cond>::empty());
    None
}

/// Whether none of the conditionals holds under the assignment.
pub open spec fn none_holds(prev: Seq<Cond>, on: Set<Seq<char>>) -> bool {
    forall|i: int| 0 <= i < prev.len() ==> !holds(#[trigger] prev[i], on)
}

/// The branch of a chain at position `k`: the expression at `k`, and none
/// of the expressions before it.
pub open spec fn branch(chain: Seq<Cond>, k: int) -> Cond {
    elif_conditional(chain[k], chain.subrange(0, k))
}

/// The disjunction of a chain holds exactly when one of its expressions holds.
pub proof fn lemma_or_all_holds(prev: Seq<Cond>, on: Set<Seq<char>>)
    requires
        prev.len() > 0,
    ensures
        holds(or_all(prev), on) == !none_holds(prev, on),
    decreases prev.len(),
{
    if prev.len() == 1 {
        if holds(prev[0], on) {
            assert(!none_holds(prev, on));
        }
    } else {
        let front = prev.drop_last();
        lemma_or_all_holds(front, on);
        if !none_holds(front, on) {
            let i = choose|i: int| 0 <= i < front.len() && holds(#[trigger] front[i], on);
            assert(prev[i] == front[i]);
        }
        if holds(prev.last(), on) {
            assert(prev[prev.len() - 1] == prev.last());
        }
        if none_holds(front, on) && !holds(prev.last(), on) {
            assert forall|i: int| 0 <= i < prev.len() implies !holds(#[trigger] prev[i], on) by {
                if i < front.len() {
                    assert(front[i] == prev[i]);
                }
            }
        }
    }
}

/// An `elif` branch holds exactly when its own expression holds and none
/// of the chain so far does.
pub proof fn lemma_elif_holds(this: Cond, prev: Seq<Cond>, on: Set<Seq<char>>)
    ensures
        holds(elif_conditional(this, prev), on) == (holds(this, on) && none_holds(prev, on)),
{
    if prev.len() > 0 {
        lemma_or_all_holds(prev, on);
        let negated = Cond::Not(Box::new(or_all(prev)));
        assert(holds(negated, on) == !holds(or_all(prev), on));
    }
}

/// An `else` branch holds exactly when none of the chain does.
pub proof fn lemma_else_holds(prev: Seq<Cond>, on: Set<Seq<char>>)
    requires
        prev.len() > 0,
    ensures
        else_conditional(prev).is_some(),
        holds(else_conditional(prev).unwrap(), on) == none_holds(prev, on),
    decreases prev.len(),
{
    if prev.len() == 1 {
        let negated = Cond::Not(Box::new(prev[0]));
        assert(holds(negated, on) == !holds(prev[0], on));
        if !holds(prev[0], on) {
            assert(none_holds(prev, on));
        }
    } else {
        let front = prev.drop_last();
        lemma_else_holds(front, on);
        let negated = Cond::Not(Box::new(prev.last()));
        assert(holds(negated, on) == !holds(prev.last(), on));
        if none_holds(prev, on) {
            assert forall|i: int| 0 <= i < front.len() implies !holds(#[trigger] front[i], on) by {
                assert(front[i] == prev[i]);
            }
            assert(!holds(prev[prev.len() - 1], on));
        }
        if none_holds(front, on) && !holds(prev.last(), on) {
            assert forall|i: int| 0 <= i < prev.len() implies !holds(#[trigger] prev[i], on) by {
                if i < front.len() {
                    assert(front[i] == prev[i]);
                }
            }
        }
    }
}

/// No two branches of a chain hold under one assignment.
pub proof fn lemma_branches_exclude_each_other(
    chain: Seq<Cond>,
    k: int,
    l: int,
    on: Set<Seq<char>>,
)
    requires
        0 <= k < l < chain.len(),
    ensures
        !(holds(branch(chain, k), on) && holds(branch(chain, l), on)),
{
    lemma_elif_holds(chain[k], chain.subrange(0, k), on);
    lemma_elif_holds(chain[l], chain.subrange(0, l), on);
    if holds(branch(chain, l), on) {
        assert(chain.subrange(0, l)[k] == chain[k]);
    }
}

/// Under every assignment a branch of a chain holds or its `else` branch
/// does, and never both.
pub proof fn lemma_else_completes_the_chain(chain: Seq<Cond>, on: Set<Seq<char>>)
    requires
        chain.len() > 0,
    ensures
        holds(else_conditional(chain).unwrap(), on) == (forall|k: int|
            0 <= k < chain.len() ==> !holds(#[trigger] branch(chain, k), on)),
{
    lemma_else_holds(chain, on);
    assert forall|k: int| 0 <= k < chain.len() implies (holds(#[trigger] branch(chain, k), on) ==> holds(
        chain[k],
        on,
    )) by {
        lemma_elif_holds(chain[k], chain.subrange(0, k), on);
    }
    if !none_holds(chain, on) {
        assert(chain.subrange(0, chain.len() as int) =~= chain);
        lemma_first_that_holds(chain, chain.len() as int, on);
        let k = choose|k: int|
            0 <= k < chain.len() && holds(chain[k], on) && none_holds(chain.subrange(0, k), on);
        lemma_elif_holds(chain[k], chain.subrange(0, k), on);
        assert(holds(branch(chain, k), on));
    } else {
        assert forall|k: int| 0 <= k < chain.len() implies !holds(#[trigger] branch(chain, k), on) by {
            assert(!holds(chain[k], on));
        }
    }
}

/// Where one of the first `n` expressions of a chain holds, one of them
/// is the first to hold.
proof fn lemma_first_that_holds(chain: Seq<Cond>, n: int, on: Set<Seq<char>>)
    requires
        0 <= n <= chain.len(),
        !none_holds(chain.subrange(0, n), on),
    ensures
        exists|k: int|
            0 <= k < n && holds(chain[k], on) && none_holds(#[trigger] chain.subrange(0, k), on),
    decreases n,
{
    let part = chain.subrange(0, n);
    let i = choose|i: int| 0 <= i < part.len() && holds(#[trigger] part[i], on);
    assert(part[i] == chain[i]);
    if none_holds(chain.subrange(0, n - 1), on) {
        assert forall|j: int| 0 <= j < n - 1 implies !holds(chain[j], on) by {
            assert(chain.subrange(0, n - 1)[j] == chain[j]);
        }
        assert(i == n - 1);
    } else {
        lemma_first_that_holds(chain, n - 1, on);
    }
}

/// For every feature, a declaration under `if F` and one under
/// `elif !F` merge into an item without a conditional: one of the two is
/// visible whatever the feature is.
pub proof fn lemma_if_elif_not_is_always_visible(f: Seq<char>)
    ensures
        ({
            let feature = Cond::Feature(f);
            let first = marked(Seq::empty(), Marker::If(Some(feature)));
            let second = marked(first.1, Marker::Elif(Some(Cond::Not(Box::new(feature)))));
            merged_conditional(seq![first.0, second.0])
        }).is_none(),
{
    let feature = Cond::Feature(f);
    let negated = Cond::Not(Box::new(feature));
    let first = marked(Seq::empty(), Marker::If(Some(feature)));
    let second = marked(first.1, Marker::Elif(Some(negated)));
    assert(first.0 == Some(feature));
    assert(first.1 =~= seq![feature]);
    assert(or_all(first.1) == feature);
    let branch = Cond::And(Box::new(negated), Box::new(negated));
    assert(second.0 == Some(branch));
    let both = seq![first.0, second.0];
    assert(both.drop_last() =~= seq![first.0]);
    assert(or_fold(seq![first.0]) == first.0);
    reveal_with_fuel(features_into, 5);
    let whole = Cond::Or(Box::new(feature), Box::new(branch));
    assert(or_fold(both) == Some(whole));
    let none = Seq::<Seq<char>>::empty();
    assert(with_feature(none, f) =~= seq![f]);
    assert(with_feature(seq![f], f) =~= seq![f]) by {
        assert(seq![f][0] == f);
    }
    assert(features_of(whole) =~= seq![f]);
    assert(always_holds(whole)) by {
        assert forall|on: Set<Seq<char>>| holds(whole, on) by {
            assert(holds(feature, on) == on.contains(f));
            assert(holds(negated, on) == !on.contains(f));
            assert(holds(branch, on) == !on.contains(f));
        }
    }
    assert(tautology_verdict(whole));
}

} // verus!
