//! Visibility predicates over named features: their meaning, the features
//! they mention, and the test that finds the ones that always hold.
use vstd::prelude::*;
use indexmap::{IndexMap, IndexSet};
use crate::context::{first_index, lemma_first_index_at, lemma_first_index_holds, lemma_first_index_none};
use crate::name_index::{
    entries_with, entry_keys, entry_value, flag_entries, flags_get, flags_insert, flags_new,
};
use crate::text::text_views;
use crate::feature_set::{set_items, set_new, set_insert, set_len, set_to_vec};

verus! {

/// The name of a declaration or of a feature.
#[derive(Debug, Clone, PartialEq, Eq, PartialOrd, Ord, Hash)]
pub struct Ident(pub String);

impl View for Ident {
    type V = Seq<char>;

    open spec fn view(&self) -> Seq<char> {
        self.0@
    }
}

impl Ident {
    /// A copy with the same text.
    pub fn duplicate(&self) -> (r: Ident)
        ensures
            r@ == self@,
    {
        Ident(self.0.clone())
    }

    /// The text of the name.
    pub fn to_text(&self) -> (r: String)
        ensures
            r@ == self@,
    {
        self.0.clone()
    }
}

/// A boolean expression over named features.
#[derive(Debug, PartialEq, Eq)]
pub enum Conditional {
    False,
    True,
    Feature(Ident),
    Not(Box<Conditional>),
    And(Box<Conditional>, Box<Conditional>),
    Or(Box<Conditional>, Box<Conditional>),
}

/// The mathematical form of a [`Conditional`]: the same tree with each
/// feature given by its text.
pub enum Cond {
    False,
    True,
    Feature(Seq<char>),
    Not(Box<Cond>),
    And(Box<Cond>, Box<Cond>),
    Or(Box<Cond>, Box<Cond>),
}

impl View for Conditional {
    type V = Cond;

    open spec fn view(&self) -> Cond
        decreases self,
    {
        match self {
            Conditional::False => Cond::False,
            Conditional::True => Cond::True,
            Conditional::Feature(ident) => Cond::Feature(ident@),
            Conditional::Not(operand) => Cond::Not(Box::new((**operand).view())),
            Conditional::And(left, right) => Cond::And(
                Box::new((**left).view()),
                Box::new((**right).view()),
            ),
            Conditional::Or(left, right) => Cond::Or(
                Box::new((**left).view()),
                Box::new((**right).view()),
            ),
        }
    }
}

/// The view of an optional conditional.
pub open spec fn opt_cond(c: Option<Conditional>) -> Option<Cond> {
    match c {
        Some(c) => Some(c@),
        None => None,
    }
}

/// The views of a list of conditionals.
pub open spec fn cond_views(v: Seq<Conditional>) -> Seq<Cond> {
    Seq::new(v.len(), |i: int| v[i]@)
}

/// The value of a conditional when exactly the features in `on` are enabled.
pub open spec fn holds(c: Cond, on: Set<Seq<char>>) -> bool
    decreases c,
{
    match c {
        Cond::False => false,
        Cond::True => true,
        Cond::Feature(f) => on.contains(f),
        Cond::Not(x) => !holds(*x, on),
        Cond::And(l, r) => holds(*l, on) && holds(*r, on),
        Cond::Or(l, r) => holds(*l, on) || holds(*r, on),
    }
}

/// Whether a conditional names the feature `f` in one of its leaves.
pub open spec fn mentions(c: Cond, f: Seq<char>) -> bool
    decreases c,
{
    match c {
        Cond::False => false,
        Cond::True => false,
        Cond::Feature(g) => g == f,
        Cond::Not(x) => mentions(*x, f),
        Cond::And(l, r) => mentions(*l, f) || mentions(*r, f),
        Cond::Or(l, r) => mentions(*l, f) || mentions(*r, f),
    }
}

/// An ordered set after one insertion: a name that is already there
/// changes nothing, a new one goes to the end.
pub open spec fn with_feature(acc: Seq<Seq<char>>, f: Seq<char>) -> Seq<Seq<char>> {
    if acc.contains(f) {
        acc
    } else {
        acc.push(f)
    }
}

/// An ordered set after the insertion of each name of `more`, in order.
pub open spec fn with_features(acc: Seq<Seq<char>>, more: Seq<Seq<char>>) -> Seq<Seq<char>>
    decreases more.len(),
{
    if more.len() == 0 {
        acc
    } else {
        with_feature(with_features(acc, more.drop_last()), more.last())
    }
}

/// The ordered set `acc` after the features of `c` were inserted, leaves
/// taken from left to right.
pub open spec fn features_into(c: Cond, acc: Seq<Seq<char>>) -> Seq<Seq<char>>
    decreases c,
{
    match c {
        Cond::False => acc,
        Cond::True => acc,
        Cond::Feature(f) => with_feature(acc, f),
        Cond::Not(x) => features_into(*x, acc),
        Cond::And(l, r) => features_into(*r, features_into(*l, acc)),
        Cond::Or(l, r) => features_into(*r, features_into(*l, acc)),
    }
}

/// The distinct features of a conditional in the order of their first occurrence.
pub open spec fn features_of(c: Cond) -> Seq<Seq<char>> {
    features_into(c, Seq::empty())
}

/// Whether a conditional is true under every assignment of its features.
pub open spec fn always_holds(c: Cond) -> bool {
    forall|on: Set<Seq<char>>| holds(c, on)
}

/// The largest number of distinct features for which a conditional is
/// examined for being a tautology.
pub const MAX_TAUTOLOGY_FEATURES: usize = 8;

/// What the bounded tautology test answers: a conditional with more than
/// eight distinct features is never reported, any other exactly when it
/// holds under every assignment.
pub open spec fn tautology_verdict(c: Cond) -> bool {
    features_of(c).len() <= 8 && always_holds(c)
}

impl Conditional {
    /// A deep copy.
    pub fn duplicate(&self) -> (r: Conditional)
        ensures
            r@ == self@,
        decreases self,
    {
        match self {
            Conditional::False => Conditional::False,
            Conditional::True => Conditional::True,
            Conditional::Feature(ident) => Conditional::Feature(ident.duplicate()),
            Conditional::Not(operand) => Conditional::Not(Box::new(operand.duplicate())),
            Conditional::And(left, right) => Conditional::And(
                Box::new(left.duplicate()),
                Box::new(right.duplicate()),
            ),
            Conditional::Or(left, right) => Conditional::Or(
                Box::new(left.duplicate()),
                Box::new(right.duplicate()),
            ),
        }
    }
}

impl Clone for Conditional {
    fn clone(&self) -> (r: Conditional)
        ensures
            r@ == self@,
    {
        self.duplicate()
    }
}

/// A copy of an optional conditional.
pub fn duplicate_option(c: &Option<Conditional>) -> (r: Option<Conditional>)
    ensures
        opt_cond(r) == opt_cond(*c),
{
    match c {
        Some(c) => Some(c.duplicate()),
        None => None,
    }
}

/// The features that an assignment enables: those that it gives the
/// value true. A feature that it does not hold is not enabled.
pub open spec fn enabled(entries: Seq<(Seq<char>, bool)>) -> Set<Seq<char>> {
    Set::new(|f: Seq<char>| entry_value(entries, f) == Some(true))
}

/// Evaluates a conditional under an assignment of truth values to
/// features; a feature that the assignment does not hold counts as false.
pub fn evaluate_conditional(cond: &Conditional, features: &IndexMap<String, bool>) -> (r: bool)
    ensures
        r == holds(cond@, enabled(flag_entries(*features))),
    decreases cond,
{
    match cond {
        Conditional::False => false,
        Conditional::True => true,
        Conditional::Feature(ident) => match flags_get(features, ident.0.as_str()) {
            Some(value) => value,
            None => false,
        },
        Conditional::Not(operand) => !evaluate_conditional(operand, features),
        Conditional::And(left, right) => {
            evaluate_conditional(left, features) && evaluate_conditional(right, features)
        },
        Conditional::Or(left, right) => {
            evaluate_conditional(left, features) || evaluate_conditional(right, features)
        },
    }
}

/// The names that `features_into` yields are those of the accumulator and
/// those that the conditional mentions.
pub proof fn lemma_features_into_contains(c: Cond, acc: Seq<Seq<char>>, f: Seq<char>)
    ensures
        features_into(c, acc).contains(f) <==> (acc.contains(f) || mentions(c, f)),
    decreases c,
{
    match c {
        Cond::False => {},
        Cond::True => {},
        Cond::Feature(g) => {
            if !acc.contains(g) {
                let p = acc.push(g);
                assert(p[acc.len() as int] == g);
                if acc.contains(f) {
                    let i = choose|i: int| 0 <= i < acc.len() && acc[i] == f;
                    assert(p[i] == f);
                }
            }
        },
        Cond::Not(x) => {
            lemma_features_into_contains(*x, acc, f);
        },
        Cond::And(l, r) => {
            lemma_features_into_contains(*l, acc, f);
            lemma_features_into_contains(*r, features_into(*l, acc), f);
        },
        Cond::Or(l, r) => {
            lemma_features_into_contains(*l, acc, f);
            lemma_features_into_contains(*r, features_into(*l, acc), f);
        },
    }
}

/// Inserting names into a duplicate-free list, one by one, leaves it
/// duplicate-free.
pub proof fn lemma_with_features_distinct(acc: Seq<Seq<char>>, more: Seq<Seq<char>>)
    requires
        acc.no_duplicates(),
    ensures
        with_features(acc, more).no_duplicates(),
    decreases more.len(),
{
    if more.len() > 0 {
        lemma_with_features_distinct(acc, more.drop_last());
    }
}

/// Inserting the features of a conditional into a duplicate-free list
/// leaves it duplicate-free.
pub proof fn lemma_features_into_distinct(c: Cond, acc: Seq<Seq<char>>)
    requires
        acc.no_duplicates(),
    ensures
        features_into(c, acc).no_duplicates(),
    decreases c,
{
    match c {
        Cond::False => {},
        Cond::True => {},
        Cond::Feature(g) => {},
        Cond::Not(x) => {
            lemma_features_into_distinct(*x, acc);
        },
        Cond::And(l, r) => {
            lemma_features_into_distinct(*l, acc);
            lemma_features_into_distinct(*r, features_into(*l, acc));
        },
        Cond::Or(l, r) => {
            lemma_features_into_distinct(*l, acc);
            lemma_features_into_distinct(*r, features_into(*l, acc));
        },
    }
}

/// The value of a conditional depends only on the features it mentions.
pub proof fn lemma_holds_depends_on_mentions(c: Cond, a: Set<Seq<char>>, b: Set<Seq<char>>)
    requires
        forall|f: Seq<char>| mentions(c, f) ==> (a.contains(f) == b.contains(f)),
    ensures
        holds(c, a) == holds(c, b),
    decreases c,
{
    match c {
        Cond::False => {},
        Cond::True => {},
        Cond::Feature(g) => {
            assert(mentions(c, g));
        },
        Cond::Not(x) => {
            lemma_holds_depends_on_mentions(*x, a, b);
        },
        Cond::And(l, r) => {
            lemma_holds_depends_on_mentions(*l, a, b);
            lemma_holds_depends_on_mentions(*r, a, b);
        },
        Cond::Or(l, r) => {
            lemma_holds_depends_on_mentions(*l, a, b);
            lemma_holds_depends_on_mentions(*r, a, b);
        },
    }
}

/// The names of `names` from position `from` on, as a set.
pub open spec fn tail_set(names: Seq<Seq<char>>, from: int) -> Set<Seq<char>> {
    Set::new(|f: Seq<char>| exists|i: int| from <= i < names.len() && names[i] == f)
}

/// The features among the first `from` of an assignment that have the
/// value true.
pub open spec fn fixed(entries: Seq<(Seq<char>, bool)>, from: int) -> Set<Seq<char>> {
    Set::new(
        |f: Seq<char>|
            exists|j: int| 0 <= j < from && j < entries.len() && #[trigger] entries[j] == (f, true),
    )
}

/// An assignment without a feature twice enables the features to which
/// it gives the value true.
pub proof fn lemma_enabled_is_fixed(entries: Seq<(Seq<char>, bool)>)
    requires
        entry_keys(entries).no_duplicates(),
    ensures
        enabled(entries) == fixed(entries, entries.len() as int),
{
    let keys = entry_keys(entries);
    assert forall|f: Seq<char>| enabled(entries).contains(f) == fixed(
        entries,
        entries.len() as int,
    ).contains(f) by {
        lemma_first_index_holds(keys, f);
        if enabled(entries).contains(f) {
            let i = first_index(keys, f).unwrap();
            assert(keys[i] == f);
            assert(entries[i] == (f, true));
        }
        if fixed(entries, entries.len() as int).contains(f) {
            let j = choose|j: int|
                0 <= j < entries.len() && j < entries.len() && #[trigger] entries[j] == (f, true);
            assert(keys[j] == f);
            let i = first_index(keys, f).unwrap();
            assert(keys[i] == f);
            assert(i == j);
        }
    }
    assert(enabled(entries) =~= fixed(entries, entries.len() as int));
}

/// In an assignment without a feature twice, an insertion for the
/// feature at a position replaces the value at that position.
pub proof fn lemma_flag_is_set(entries: Seq<(Seq<char>, bool)>, k: int, value: bool)
    requires
        entry_keys(entries).no_duplicates(),
        0 <= k < entries.len(),
    ensures
        entries_with(entries, entries[k].0, value) == entries.update(k, (entries[k].0, value)),
        entry_keys(entries.update(k, (entries[k].0, value))) == entry_keys(entries),
{
    let keys = entry_keys(entries);
    assert(keys[k] == entries[k].0);
    assert forall|j: int| 0 <= j < k implies keys[j] != entries[k].0 by {
        assert(keys[j] != keys[k]);
    }
    lemma_first_index_at(keys, entries[k].0, k);
    assert(entry_keys(entries.update(k, (entries[k].0, value))) =~= keys);
}

/// Whether `cond` holds under every assignment that gives the first
/// `from` features the values they have in `flags` and any values to the
/// other features.
fn holds_for_all(
    cond: &Conditional,
    names: &Vec<String>,
    from: usize,
    flags: &mut IndexMap<String, bool>,
) -> (r: bool)
    requires
        from <= names.len(),
        entry_keys(flag_entries(*old(flags))) == text_views(names@),
        text_views(names@).no_duplicates(),
    ensures
        entry_keys(flag_entries(*final(flags))) == text_views(names@),
        forall|j: int|
            0 <= j < from ==> #[trigger] flag_entries(*final(flags))[j] == flag_entries(
                *old(flags),
            )[j],
        r == (forall|s: Set<Seq<char>>|
            s.subset_of(tail_set(text_views(names@), from as int)) ==> holds(
                cond@,
                fixed(flag_entries(*old(flags)), from as int).union(s),
            )),
    decreases names.len() - from,
{
    let ghost all = text_views(names@);
    let ghost start = flag_entries(*flags);
    let ghost base = fixed(start, from as int);
    assert(start.len() == all.len()) by {
        assert(entry_keys(start).len() == all.len());
    }
    if from == names.len() {
        let r = evaluate_conditional(cond, flags);
        proof {
            lemma_enabled_is_fixed(start);
            assert forall|s: Set<Seq<char>>|
                s.subset_of(tail_set(all, from as int)) implies base.union(s) == base by {
                assert forall|f: Seq<char>| !s.contains(f) by {
                    if s.contains(f) {
                        assert(tail_set(all, from as int).contains(f));
                    }
                }
                assert(base.union(s) =~= base);
            }
            assert(Set::<Seq<char>>::empty().subset_of(tail_set(all, from as int)));
            assert(base.union(Set::<Seq<char>>::empty()) =~= base);
        }
        return r;
    }
    let ghost name = names@[from as int]@;
    proof {
        assert(all[from as int] == name);
        assert(entry_keys(start)[from as int] == start[from as int].0);
        lemma_flag_is_set(start, from as int, false);
    }
    flags_insert(flags, names[from].clone(), false);
    let ghost cleared = flag_entries(*flags);
    proof {
        assert(cleared == start.update(from as int, (name, false)));
        assert(fixed(cleared, from + 1) =~= base) by {
            assert forall|f: Seq<char>| fixed(cleared, from + 1).contains(f) == base.contains(f) by {
                if fixed(cleared, from + 1).contains(f) {
                    let j = choose|j: int|
                        0 <= j < from + 1 && j < cleared.len() && #[trigger] cleared[j] == (f, true);
                    assert(j != from);
                    assert(start[j] == cleared[j]);
                }
                if base.contains(f) {
                    let j = choose|j: int|
                        0 <= j < from && j < start.len() && #[trigger] start[j] == (f, true);
                    assert(cleared[j] == start[j]);
                }
            }
        }
    }
    let without = holds_for_all(cond, names, from + 1, flags);
    let ghost middle = flag_entries(*flags);
    proof {
        assert forall|j: int| 0 <= j < from implies #[trigger] middle[j] == start[j] by {
            assert(middle[j] == cleared[j]);
        }
    }
    if !without {
        proof {
            let s = choose|s: Set<Seq<char>>|
                s.subset_of(tail_set(all, from + 1)) && !holds(cond@, base.union(s));
            assert(s.subset_of(tail_set(all, from as int))) by {
                assert forall|f: Seq<char>| s.contains(f) implies tail_set(
                    all,
                    from as int,
                ).contains(f) by {
                    assert(tail_set(all, from + 1).contains(f));
                }
            }
        }
        return false;
    }
    proof {
        assert(middle.len() == all.len()) by {
            assert(entry_keys(middle).len() == all.len());
        }
        assert(entry_keys(middle)[from as int] == middle[from as int].0);
        lemma_flag_is_set(middle, from as int, true);
    }
    flags_insert(flags, names[from].clone(), true);
    let ghost raised = flag_entries(*flags);
    let ghost grown = fixed(raised, from + 1);
    proof {
        assert(raised == middle.update(from as int, (name, true)));
        assert(grown =~= base.insert(name)) by {
            assert forall|f: Seq<char>| grown.contains(f) == base.insert(name).contains(f) by {
                if grown.contains(f) {
                    let j = choose|j: int|
                        0 <= j < from + 1 && j < raised.len() && #[trigger] raised[j] == (f, true);
                    if j < from {
                        assert(raised[j] == middle[j]);
                        assert(middle[j] == start[j]);
                    }
                }
                if base.contains(f) {
                    let j = choose|j: int|
                        0 <= j < from && j < start.len() && #[trigger] start[j] == (f, true);
                    assert(raised[j] == middle[j]);
                    assert(middle[j] == start[j]);
                }
                if f == name {
                    assert(raised[from as int] == (name, true));
                }
            }
        }
    }
    let with = holds_for_all(cond, names, from + 1, flags);
    proof {
        let last = flag_entries(*flags);
        assert forall|j: int| 0 <= j < from implies #[trigger] last[j] == start[j] by {
            assert(last[j] == raised[j]);
            assert(raised[j] == middle[j]);
            assert(middle[j] == start[j]);
        }
        if with {
            assert forall|s: Set<Seq<char>>|
                s.subset_of(tail_set(all, from as int)) implies holds(cond@, base.union(s)) by {
                let rest = s.remove(name);
                assert(rest.subset_of(tail_set(all, from + 1))) by {
                    assert forall|f: Seq<char>| rest.contains(f) implies tail_set(
                        all,
                        from + 1,
                    ).contains(f) by {
                        assert(tail_set(all, from as int).contains(f));
                        let i = choose|i: int| from <= i < all.len() && all[i] == f;
                        assert(i != from);
                    }
                }
                if s.contains(name) {
                    assert(grown.union(rest) =~= base.union(s));
                } else {
                    assert(rest =~= s);
                }
            }
        } else {
            let rest = choose|s: Set<Seq<char>>|
                s.subset_of(tail_set(all, from + 1)) && !holds(cond@, grown.union(s));
            let s = rest.insert(name);
            assert(s.subset_of(tail_set(all, from as int))) by {
                assert forall|f: Seq<char>| s.contains(f) implies tail_set(
                    all,
                    from as int,
                ).contains(f) by {
                    if f != name {
                        assert(tail_set(all, from + 1).contains(f));
                    }
                }
            }
            assert(grown.union(rest) =~= base.union(s));
        }
    }
    with
}

/// Inserts the features of a conditional into an ordered set, leaves
/// taken from left to right.
pub fn collect_features(cond: &Conditional, features: &mut IndexSet<String>)
    ensures
        set_items(*final(features)) == features_into(cond@, set_items(*old(features))),
    decreases cond,
{
    match cond {
        Conditional::False => {},
        Conditional::True => {},
        Conditional::Feature(ident) => {
            set_insert(features, ident.to_text());
        },
        Conditional::Not(operand) => collect_features(operand, features),
        Conditional::And(left, right) => {
            collect_features(left, features);
            collect_features(right, features);
        },
        Conditional::Or(left, right) => {
            collect_features(left, features);
            collect_features(right, features);
        },
    }
}

/// Whether a conditional is reported as a tautology: it has at most eight
/// distinct features and is true under each of their assignments.
pub fn is_tautology(cond: &Conditional) -> (r: bool)
    ensures
        r == tautology_verdict(cond@),
{
    let mut features = set_new();
    collect_features(cond, &mut features);
    if set_len(&features) > MAX_TAUTOLOGY_FEATURES {
        return false;
    }
    let names = set_to_vec(&features);
    let ghost all = text_views(names@);
    proof {
        assert(all == features_of(cond@));
        lemma_features_into_distinct(cond@, Seq::empty());
    }
    let mut flags = flags_new();
    let mut i: usize = 0;
    assert(entry_keys(flag_entries(flags)) =~= all.subrange(0, 0));
    while i < names.len()
        invariant
            i <= names.len(),
            all == text_views(names@),
            all.no_duplicates(),
            entry_keys(flag_entries(flags)) == all.subrange(0, i as int),
        decreases names.len() - i,
    {
        let ghost before = flag_entries(flags);
        proof {
            let keys = entry_keys(before);
            assert(all[i as int] == names@[i as int]@);
            assert forall|j: int| 0 <= j < keys.len() implies keys[j] != all[i as int] by {
                assert(keys[j] == all[j]);
            }
            lemma_first_index_none(keys, all[i as int]);
        }
        flags_insert(&mut flags, names[i].clone(), false);
        proof {
            let after = flag_entries(flags);
            assert(entry_keys(before).len() == before.len());
            assert(before.len() == i);
            assert(after == before.push((all[i as int], false)));
            assert forall|j: int| 0 <= j < i + 1 implies entry_keys(after)[j] == all[j] by {
                if j < i {
                    assert(after[j] == before[j]);
                    assert(entry_keys(before)[j] == all.subrange(0, i as int)[j]);
                }
            }
            assert(entry_keys(after) =~= all.subrange(0, i + 1));
        }
        i += 1;
    }
    assert(all.subrange(0, names.len() as int) =~= all);
    let ghost start = flag_entries(flags);
    let r = holds_for_all(cond, &names, 0, &mut flags);
    proof {
        let none = fixed(start, 0);
        assert(none =~= Set::<Seq<char>>::empty());
        if r {
            assert forall|on: Set<Seq<char>>| holds(cond@, on) by {
                let s = on.intersect(tail_set(all, 0));
                assert(s.subset_of(tail_set(all, 0)));
                assert forall|f: Seq<char>| mentions(cond@, f) implies (on.contains(f) == none.union(
                    s,
                ).contains(f)) by {
                    lemma_features_into_contains(cond@, Seq::empty(), f);
                    let i = choose|i: int| 0 <= i < all.len() && all[i] == f;
                    assert(tail_set(all, 0).contains(f));
                }
                lemma_holds_depends_on_mentions(cond@, on, none.union(s));
            }
        }
    }
    r
}

/// The disjunction of a list of conditionals, taken from the left; absent
/// for an empty list and as soon as one of them is absent.
pub open spec fn or_fold(conds: Seq<Option<Cond>>) -> Option<Cond>
    decreases conds.len(),
{
    if conds.len() == 0 {
        None
    } else if conds.len() == 1 {
        conds[0]
    } else {
        match (or_fold(conds.drop_last()), conds.last()) {
            (Some(a), Some(b)) => Some(Cond::Or(Box::new(a), Box::new(b))),
            _ => None,
        }
    }
}

/// The conditional of an item whose instances carry `conds`: their
/// disjunction, or absent where that is absent or reported as a tautology.
pub open spec fn merged_conditional(conds: Seq<Option<Cond>>) -> Option<Cond> {
    match or_fold(conds) {
        Some(c) => if tautology_verdict(c) {
            None
        } else {
            Some(c)
        },
        None => None,
    }
}

/// A list with an absent disjunction keeps it absent however it goes on.
pub proof fn lemma_or_fold_absent_prefix(conds: Seq<Option<Cond>>, n: int)
    requires
        0 < n <= conds.len(),
        or_fold(conds.subrange(0, n)).is_none(),
    ensures
        or_fold(conds).is_none(),
    decreases conds.len() - n,
{
    if n < conds.len() {
        let next = conds.subrange(0, n + 1);
        assert(next.drop_last() =~= conds.subrange(0, n));
        lemma_or_fold_absent_prefix(conds, n + 1);
    } else {
        assert(conds.subrange(0, n) =~= conds);
    }
}

/// For instances that are all conditional, the disjunction before
/// reduction is the left fold with `Or` over the instances in insertion
/// order, starting from the first; it is the conditional of the item
/// unless it is reported as a tautology.
pub proof fn lemma_or_fold_is_left_fold(conds: Seq<Cond>)
    requires
        conds.len() > 0,
    ensures
        or_fold(conds.map_values(|c: Cond| Some(c))) == Some(
            conds.drop_first().fold_left(
                conds[0],
                |acc: Cond, c: Cond| Cond::Or(Box::new(acc), Box::new(c)),
            ),
        ),
        !tautology_verdict(
            conds.drop_first().fold_left(
                conds[0],
                |acc: Cond, c: Cond| Cond::Or(Box::new(acc), Box::new(c)),
            ),
        ) ==> merged_conditional(conds.map_values(|c: Cond| Some(c))) == Some(
            conds.drop_first().fold_left(
                conds[0],
                |acc: Cond, c: Cond| Cond::Or(Box::new(acc), Box::new(c)),
            ),
        ),
    decreases conds.len(),
{
    let wrap = |c: Cond| Some(c);
    let join = |acc: Cond, c: Cond| Cond::Or(Box::new(acc), Box::new(c));
    let all = conds.map_values(wrap);
    if conds.len() == 1 {
        assert(conds.drop_first() =~= Seq::<Cond>::empty());
    } else {
        let front = conds.drop_last();
        lemma_or_fold_is_left_fold(front);
        assert(all.drop_last() =~= front.map_values(wrap));
        assert(conds.drop_first().drop_last() =~= front.drop_first());
        assert(conds.drop_first().last() == conds.last());
        assert(front[0] == conds[0]);
    }
}

/// The bounded tautology test answers alike for conditionals that are
/// alike: its answer is a function of the conditional's tree alone.
pub proof fn lemma_tautology_verdict_is_function(a: Conditional, b: Conditional)
    requires
        a@ == b@,
    ensures
        tautology_verdict(a@) == tautology_verdict(b@),
        forall|on: Set<Seq<char>>| holds(a@, on) == holds(b@, on),
{
}

} // verus!
