//! The pass over the finished tree: the features of the submodules are
//! gathered, every list is sorted by name, and every item gets its
//! merged conditional.
use vstd::prelude::*;
use crate::ast::{Item, ItemInstance, Module, WeslDocs, group_names, item_views};
use crate::conditional::{
    Cond, Conditional, is_tautology, lemma_or_fold_absent_prefix, merged_conditional, opt_cond,
    or_fold, with_features,
};
use crate::feature_set::{set_extend, set_items};
use crate::name_order::{is_stable_sort, sort_by_name, sorted_by_name, stable_sort_of};

verus! {

/// The conditionals of a list of declarations.
pub open spec fn instance_conditionals<T: ItemInstance>(v: Seq<T>) -> Seq<Option<Cond>> {
    Seq::new(v.len(), |i: int| v[i].instance_view().conditional)
}

/// The conditional of an item: the disjunction of the conditionals of its
/// declarations in their order; absent where one of them is
/// unconditional, or where the disjunction has at most eight features and
/// holds under each of their assignments.
pub fn item_conditional<T: ItemInstance>(item: &Item<T>) -> (r: Option<Conditional>)
    ensures
        opt_cond(r) == merged_conditional(instance_conditionals(item.instances@)),
{
    let ghost conds = instance_conditionals(item.instances@);
    if item.instances.len() == 0 {
        return None;
    }
    let mut acc = match item.instances[0].conditional() {
        Some(c) => c.duplicate(),
        None => {
            proof {
                assert(conds.subrange(0, 1)[0] == conds[0]);
                lemma_or_fold_absent_prefix(conds, 1);
            }
            return None;
        },
    };
    let mut i: usize = 1;
    assert(conds.subrange(0, 1)[0] == conds[0]);
    while i < item.instances.len()
        invariant
            1 <= i <= item.instances.len(),
            conds == instance_conditionals(item.instances@),
            or_fold(conds.subrange(0, i as int)) == Some(acc@),
        decreases item.instances.len() - i,
    {
        proof {
            let next = conds.subrange(0, i + 1);
            assert(next.drop_last() =~= conds.subrange(0, i as int));
            assert(next.last() == conds[i as int]);
        }
        match item.instances[i].conditional() {
            Some(c) => {
                acc = Conditional::Or(Box::new(acc), Box::new(c.duplicate()));
            },
            None => {
                proof {
                    lemma_or_fold_absent_prefix(conds, i + 1);
                }
                return None;
            },
        }
        i += 1;
    }
    assert(conds.subrange(0, i as int) =~= conds);
    if is_tautology(&acc) {
        return None;
    }
    Some(acc)
}

/// Whether every item of a list carries the merged conditional of its declarations.
pub open spec fn items_merged<T: ItemInstance>(items: Seq<Item<T>>) -> bool {
    forall|i: int|
        0 <= i < items.len() ==> opt_cond((#[trigger] items[i]).conditional) == merged_conditional(
            instance_conditionals(items[i].instances@),
        )
}

/// Whether `merged` holds the items of `items` in their order, each with
/// its declarations untouched and with its merged conditional.
pub open spec fn is_merge_of<T: ItemInstance>(merged: Seq<Item<T>>, items: Seq<Item<T>>) -> bool {
    &&& merged.len() == items.len()
    &&& items_merged(merged)
    &&& forall|i: int| 0 <= i < items.len() ==> (#[trigger] merged[i]).instances == items[i].instances
}

/// Whether `after` holds the items of `before`, each with its
/// declarations untouched and with its merged conditional, sorted by
/// name, items of the same name in the order they had; where no two
/// items of `before` have the same name, none of `after` have.
pub open spec fn items_from<T: ItemInstance>(after: Seq<Item<T>>, before: Seq<Item<T>>) -> bool {
    &&& exists|merged: Seq<Item<T>>| is_merge_of(merged, before) && stable_sort_of(after, merged)
    &&& names_distinct(before) ==> names_distinct(after)
}

/// Whether no two items of a list have the same name.
pub open spec fn names_distinct<T: ItemInstance>(items: Seq<Item<T>>) -> bool {
    group_names(item_views(items)).no_duplicates()
}

/// Whether in each of the six lists of a module no two items have the
/// same name.
pub open spec fn lists_distinct(m: Module) -> bool {
    &&& names_distinct(m.constants@)
    &&& names_distinct(m.overrides@)
    &&& names_distinct(m.global_variables@)
    &&& names_distinct(m.structs@)
    &&& names_distinct(m.functions@)
    &&& names_distinct(m.type_aliases@)
}

/// Whether in no list of any module of a tree two items have the same name.
pub open spec fn tree_items_distinct(m: Module) -> bool
    decreases m,
{
    &&& lists_distinct(m)
    &&& forall|i: int| 0 <= i < m.modules@.len() ==> tree_items_distinct(#[trigger] m.modules@[i])
}

/// Items with distinct names keep distinct names when they are merged
/// and sorted.
pub proof fn lemma_sorted_names_distinct<T: ItemInstance>(
    after: Seq<Item<T>>,
    merged: Seq<Item<T>>,
    before: Seq<Item<T>>,
)
    requires
        is_merge_of(merged, before),
        stable_sort_of(after, merged),
        names_distinct(before),
    ensures
        names_distinct(after),
{
    let origin = choose|origin: Seq<int>| is_stable_sort(after, merged, origin);
    let old_names = group_names(item_views(before));
    let new_names = group_names(item_views(after));
    assert forall|k: int, l: int|
        0 <= k < new_names.len() && 0 <= l < new_names.len() && k != l implies new_names[k]
        != new_names[l] by {
        let i = origin[k];
        let j = origin[l];
        if k < l {
            assert(origin[k] != origin[l]);
        } else {
            assert(origin[l] != origin[k]);
        }
        assert(after[k] == merged[i]);
        assert(after[l] == merged[j]);
        assert(merged[i].instances == before[i].instances);
        assert(merged[j].instances == before[j].instances);
        assert(item_views(after)[k] == item_views(before)[i]);
        assert(item_views(after)[l] == item_views(before)[j]);
        assert(new_names[k] == old_names[i]);
        assert(new_names[l] == old_names[j]);
    }
}

/// Whether a list of items is finished: sorted by name, every item with
/// its merged conditional.
pub open spec fn items_finished<T: ItemInstance>(items: Seq<Item<T>>) -> bool {
    sorted_by_name(items) && items_merged(items)
}

/// Gives every item its merged conditional and sorts the items by name.
pub fn post_process_items<T: ItemInstance>(items: &mut Vec<Item<T>>)
    ensures
        items_finished(final(items)@),
        items_from(final(items)@, old(items)@),
{
    let mut merged: Vec<Item<T>> = Vec::new();
    let ghost all = items@;
    let mut k: usize = 0;
    assert(all.len() == items.len());
    assert(items@ =~= all.subrange(0, all.len() as int));
    while items.len() > 0
        invariant
            all.len() <= usize::MAX,
            k + items.len() == all.len(),
            merged.len() == k,
            items@ == all.subrange(k as int, all.len() as int),
            items_merged(merged@),
            forall|i: int| 0 <= i < k ==> (#[trigger] merged@[i]).instances == all[i].instances,
        decreases items.len(),
    {
        let item = items.remove(0);
        assert(item == all[k as int]);
        let conditional = item_conditional(&item);
        let ghost before = merged@;
        merged.push(Item { instances: item.instances, conditional });
        proof {
            assert(items@ =~= all.subrange(k + 1, all.len() as int));
            assert forall|i: int| 0 <= i < merged@.len() implies opt_cond(
                (#[trigger] merged@[i]).conditional,
            ) == merged_conditional(instance_conditionals(merged@[i].instances@)) by {
                if i < k {
                    assert(merged@[i] == before[i]);
                }
            }
            assert forall|i: int| 0 <= i < k + 1 implies (#[trigger] merged@[i]).instances
                == all[i].instances by {
                if i < k {
                    assert(merged@[i] == before[i]);
                }
            }
        }
        k += 1;
    }
    let ghost unsorted = merged@;
    sort_by_name(&mut merged);
    proof {
        assert(is_merge_of(unsorted, all));
        if names_distinct(all) {
            lemma_sorted_names_distinct(merged@, unsorted, all);
        }
        assert forall|i: int| 0 <= i < merged@.len() implies opt_cond(
            (#[trigger] merged@[i]).conditional,
        ) == merged_conditional(instance_conditionals(merged@[i].instances@)) by {
            vstd::seq_lib::to_multiset_contains(merged@, merged@[i]);
            vstd::seq_lib::to_multiset_contains(unsorted, merged@[i]);
            assert(merged@.contains(merged@[i]));
            let j = choose|j: int| 0 <= j < unsorted.len() && unsorted[j] == merged@[i];
            assert(unsorted[j] == merged@[i]);
        }
    }
    *items = merged;
}

/// The features of a module and of the modules below it: its own, then
/// those of each submodule's tree in the order of the submodules, each
/// name where it is first seen.
pub open spec fn tree_features(m: Module) -> Seq<Seq<char>>
    decreases m,
{
    gathered_features(m, m.modules@.len() as int)
}

/// The features of a module and of the trees of its first `n` submodules.
pub open spec fn gathered_features(m: Module, n: int) -> Seq<Seq<char>>
    decreases m, n,
{
    if n <= 0 || n > m.modules@.len() {
        set_items(m.translate_time_features)
    } else {
        with_features(gathered_features(m, n - 1), tree_features(m.modules@[n - 1]))
    }
}

/// Where no feature occurs twice in the set of any module of a tree, none
/// occurs twice among the features of the tree.
pub proof fn lemma_tree_features_distinct(m: Module)
    requires
        own_features_distinct(m),
    ensures
        tree_features(m).no_duplicates(),
    decreases m,
{
    lemma_gathered_features_distinct(m, m.modules@.len() as int);
}

/// Whether no feature occurs twice in the set of any module of a tree.
pub open spec fn own_features_distinct(m: Module) -> bool
    decreases m,
{
    &&& set_items(m.translate_time_features).no_duplicates()
    &&& forall|i: int| 0 <= i < m.modules@.len() ==> own_features_distinct(#[trigger] m.modules@[i])
}

proof fn lemma_gathered_features_distinct(m: Module, n: int)
    requires
        own_features_distinct(m),
    ensures
        gathered_features(m, n).no_duplicates(),
    decreases m, n,
{
    if !(n <= 0 || n > m.modules@.len()) {
        lemma_gathered_features_distinct(m, n - 1);
        crate::conditional::lemma_with_features_distinct(
            gathered_features(m, n - 1),
            tree_features(m.modules@[n - 1]),
        );
    }
}

/// Whether a tree is finished: at every module the submodules and the
/// items of each kind are sorted by name, and every item carries its
/// merged conditional.
pub open spec fn finished(m: Module) -> bool
    decreases m,
{
    &&& sorted_by_name(m.modules@)
    &&& forall|i: int| 0 <= i < m.modules@.len() ==> finished(#[trigger] m.modules@[i])
    &&& items_finished(m.constants@)
    &&& items_finished(m.overrides@)
    &&& items_finished(m.global_variables@)
    &&& items_finished(m.structs@)
    &&& items_finished(m.functions@)
    &&& items_finished(m.type_aliases@)
}

/// Whether `r` is what the pass makes of the tree `m`: name, source and
/// comment are kept; the features are those of the whole tree; each list
/// of items holds the items of `m` with their merged conditionals; and
/// the submodules are what the pass makes of the submodules of `m`,
/// sorted by name, submodules of the same name in the order they had.
pub open spec fn processed(r: Module, m: Module) -> bool
    decreases m,
{
    &&& r.name == m.name
    &&& r.source == m.source
    &&& r.comment == m.comment
    &&& set_items(r.translate_time_features) == tree_features(m)
    &&& items_from(r.constants@, m.constants@)
    &&& items_from(r.overrides@, m.overrides@)
    &&& items_from(r.global_variables@, m.global_variables@)
    &&& items_from(r.structs@, m.structs@)
    &&& items_from(r.functions@, m.functions@)
    &&& items_from(r.type_aliases@, m.type_aliases@)
    &&& exists|children: Seq<Module>|
        #![trigger stable_sort_of(r.modules@, children)]
        {
            &&& children.len() == m.modules@.len()
            &&& stable_sort_of(r.modules@, children)
            &&& forall|i: int|
                0 <= i < m.modules@.len() ==> processed(#[trigger] children[i], m.modules@[i])
        }
}

/// Finishes the tree below a module: its features become those of the
/// whole tree, and all its lists are sorted and merged.
pub fn post_process_module(module: Module) -> (r: Module)
    ensures
        finished(r),
        processed(r, module),
        own_features_distinct(module) ==> own_features_distinct(r),
        tree_items_distinct(module) ==> tree_items_distinct(r),
    decreases module,
{
    let ghost all = module.modules@;
    let Module {
        name,
        source,
        comment,
        modules,
        constants,
        overrides,
        global_variables,
        structs,
        functions,
        type_aliases,
        translate_time_features,
    } = module;
    let mut waiting = modules;
    let mut features = translate_time_features;
    let mut done: Vec<Module> = Vec::new();
    let mut k: usize = 0;
    assert(all.len() == waiting.len());
    assert(waiting@ =~= all.subrange(0, all.len() as int));
    while waiting.len() > 0
        invariant
            all == module.modules@,
            all.len() <= usize::MAX,
            k + waiting.len() == all.len(),
            done.len() == k,
            waiting@ == all.subrange(k as int, all.len() as int),
            set_items(features) == gathered_features(module, k as int),
            forall|i: int| 0 <= i < k ==> finished(#[trigger] done@[i]),
            forall|i: int| 0 <= i < k ==> processed(#[trigger] done@[i], all[i]),
            own_features_distinct(module) ==> forall|i: int|
                0 <= i < k ==> own_features_distinct(#[trigger] done@[i]),
            tree_items_distinct(module) ==> forall|i: int|
                0 <= i < k ==> tree_items_distinct(#[trigger] done@[i]),
        decreases waiting.len(),
    {
        let inner = waiting.remove(0);
        proof {
            assert(inner == all[k as int]);
            assert(decreases_to!(module => module.modules));
            assert(decreases_to!(module.modules => module.modules@[k as int]));
            assert(waiting@ =~= all.subrange(k + 1, all.len() as int));
        }
        let inner = post_process_module(inner);
        set_extend(&mut features, &inner.translate_time_features);
        let ghost before = done@;
        done.push(inner);
        proof {
            assert forall|i: int| 0 <= i < k + 1 implies finished(#[trigger] done@[i]) by {
                if i < k {
                    assert(done@[i] == before[i]);
                }
            }
            assert forall|i: int| 0 <= i < k + 1 implies processed(#[trigger] done@[i], all[i]) by {
                if i < k {
                    assert(done@[i] == before[i]);
                }
            }
            if own_features_distinct(module) {
                assert(own_features_distinct(all[k as int]));
                assert forall|i: int| 0 <= i < k + 1 implies own_features_distinct(
                    #[trigger] done@[i],
                ) by {
                    if i < k {
                        assert(done@[i] == before[i]);
                    }
                }
            }
            if tree_items_distinct(module) {
                assert(tree_items_distinct(all[k as int]));
                assert forall|i: int| 0 <= i < k + 1 implies tree_items_distinct(
                    #[trigger] done@[i],
                ) by {
                    if i < k {
                        assert(done@[i] == before[i]);
                    }
                }
            }
        }
        k += 1;
    }
    let ghost unsorted = done@;
    sort_by_name(&mut done);
    proof {
        assert forall|i: int| 0 <= i < done@.len() implies finished(#[trigger] done@[i]) by {
            vstd::seq_lib::to_multiset_contains(done@, done@[i]);
            vstd::seq_lib::to_multiset_contains(unsorted, done@[i]);
            assert(done@.contains(done@[i]));
            let j = choose|j: int| 0 <= j < unsorted.len() && unsorted[j] == done@[i];
            assert(finished(unsorted[j]));
        }
        if own_features_distinct(module) {
            assert forall|i: int| 0 <= i < done@.len() implies own_features_distinct(
                #[trigger] done@[i],
            ) by {
                vstd::seq_lib::to_multiset_contains(done@, done@[i]);
                vstd::seq_lib::to_multiset_contains(unsorted, done@[i]);
                assert(done@.contains(done@[i]));
                let j = choose|j: int| 0 <= j < unsorted.len() && unsorted[j] == done@[i];
                assert(own_features_distinct(unsorted[j]));
            }
            lemma_tree_features_distinct(module);
        }
        if tree_items_distinct(module) {
            assert forall|i: int| 0 <= i < done@.len() implies tree_items_distinct(
                #[trigger] done@[i],
            ) by {
                vstd::seq_lib::to_multiset_contains(done@, done@[i]);
                vstd::seq_lib::to_multiset_contains(unsorted, done@[i]);
                assert(done@.contains(done@[i]));
                let j = choose|j: int| 0 <= j < unsorted.len() && unsorted[j] == done@[i];
                assert(tree_items_distinct(unsorted[j]));
            }
        }
        vstd::seq_lib::to_multiset_len(done@);
        vstd::seq_lib::to_multiset_len(unsorted);
    }
    let mut constants = constants;
    let mut overrides = overrides;
    let mut global_variables = global_variables;
    let mut structs = structs;
    let mut functions = functions;
    let mut type_aliases = type_aliases;
    post_process_items(&mut constants);
    post_process_items(&mut overrides);
    post_process_items(&mut global_variables);
    post_process_items(&mut structs);
    post_process_items(&mut functions);
    post_process_items(&mut type_aliases);
    let r = Module {
        name,
        source,
        comment,
        modules: done,
        constants,
        overrides,
        global_variables,
        structs,
        functions,
        type_aliases,
        translate_time_features: features,
    };
    proof {
        assert(unsorted.len() == module.modules@.len());
        assert(stable_sort_of(r.modules@, unsorted));
        assert(forall|i: int|
            0 <= i < module.modules@.len() ==> processed(#[trigger] unsorted[i], module.modules@[i]));
    }
    r
}

/// Finishes a documentation tree.
pub fn post_process(docs: WeslDocs) -> (r: WeslDocs)
    ensures
        r.version == docs.version,
        finished(r.root),
        processed(r.root, docs.root),
        own_features_distinct(docs.root) ==> own_features_distinct(r.root),
        tree_items_distinct(docs.root) ==> tree_items_distinct(r.root),
{
    let WeslDocs { version, root } = docs;
    WeslDocs { version, root: post_process_module(root) }
}

} // verus!
