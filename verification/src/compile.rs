//! The assembly of the documentation tree from the compiled modules of a
//! package.
use vstd::prelude::*;
use indexmap::IndexMap;
use crate::ast::{
    Constant, DocComment, DocView, Expression, Function, FunctionParameter, GlobalVariable,
    InstanceView, Item, ItemInstance, ItemKind, MemberView, Module, Override, ParameterView,
    Span, Struct, StructMember, TypeAlias, WeslDocs, comment_view, group_names, item_conditionals,
    item_views, member_views, parameter_views,
};
use crate::build_conditional::{ConditionalScope, build_conditional, first_marker, marked};
use crate::build_doc_comment::{build_inner_doc_comment, build_outer_doc_comment, documented};
use crate::build_items::{
    build_attributes, build_expression, build_type, built_attributes, built_expression,
    built_type, opt_built_expression, opt_built_type,
};
use crate::calculate_span::{calculate_span, located};
use crate::collect_features::{collect_features, lemma_module_features_distinct, module_features};
use crate::conditional::{Cond, Ident};
use crate::context::{
    Context, Scope, declared_locally, default_text, first_index, lemma_first_index_holds,
    opt_text, registered,
};
use crate::extract_comments::{
    above_comment, extract_comments_inner, extract_comments_outer, head_comment, inner_marker,
    lines_before, outer_marker, trimmed_lines,
};
use crate::feature_set::set_items;
use crate::name_index::{entry_keys, index_get, index_insert, index_new, map_entries};
use crate::post_process::{
    finished, lists_distinct, own_features_distinct, post_process, processed,
    tree_items_distinct,
};
use crate::syntax::{
    CompiledModule, Convert, DeclarationKind, DeclarationNode, Dependency, GlobalDeclaration,
    MemberDeclaration, ParameterDeclaration, SourceRange, SyntaxAddressSpace, WeslModule,
    WeslPackage, declared_attributes, declared_kind,
};
use crate::text::{clone_strings, text_views};
use crate::views::ExpressionView;

verus! {

/// The doc comment of the declaration that covers the bytes of `range`:
/// that of the `///` lines above its first line; nothing without a
/// source.
pub open spec fn declared_comment(env: Scope, range: SourceRange) -> Option<DocView> {
    match (located(default_text(env.compiled), range), default_text(env.compiled)) {
        (Some(span), Some(text)) => documented(
            above_comment(
                trimmed_lines(text, 0),
                lines_before(trimmed_lines(text, 0).len() as int, span.line_start as int),
                outer_marker(),
            ),
            outer_marker(),
            env,
        ),
        _ => None,
    }
}

/// The chain of conditionals that the member at position `n` sees.
pub open spec fn member_chain(members: Seq<MemberDeclaration>, n: int) -> Seq<Cond>
    decreases n,
{
    if n <= 0 || n > members.len() {
        Seq::empty()
    } else {
        marked(member_chain(members, n - 1), first_marker(members[n - 1].attributes@)).1
    }
}

/// The member of the documentation model for a member of a struct.
pub open spec fn built_member(m: MemberDeclaration, chain: Seq<Cond>, env: Scope) -> MemberView {
    MemberView {
        name: m.name@,
        ty: built_type(m.ty, env),
        attributes: built_attributes(m.attributes@, env),
        conditional: marked(chain, first_marker(m.attributes@)).0,
        comment: declared_comment(env, m.range),
    }
}

/// The members of the documentation model for the members of a struct,
/// which share one chain of conditionals.
pub open spec fn built_members(members: Seq<MemberDeclaration>, env: Scope) -> Seq<MemberView> {
    Seq::new(members.len(), |i: int| built_member(members[i], member_chain(members, i), env))
}

/// The chain of conditionals that the parameter at position `n` sees.
pub open spec fn parameter_chain(parameters: Seq<ParameterDeclaration>, n: int) -> Seq<Cond>
    decreases n,
{
    if n <= 0 || n > parameters.len() {
        Seq::empty()
    } else {
        marked(parameter_chain(parameters, n - 1), first_marker(parameters[n - 1].attributes@)).1
    }
}

/// The parameter of the documentation model for a parameter of a function.
pub open spec fn built_parameter(p: ParameterDeclaration, chain: Seq<Cond>, env: Scope) -> ParameterView {
    ParameterView {
        name: p.name@,
        ty: built_type(p.ty, env),
        attributes: built_attributes(p.attributes@, env),
        conditional: marked(chain, first_marker(p.attributes@)).0,
    }
}

/// The parameters of the documentation model for the parameters of a
/// function, which share one chain of conditionals.
pub open spec fn built_parameters(parameters: Seq<ParameterDeclaration>, env: Scope) -> Seq<
    ParameterView,
> {
    Seq::new(
        parameters.len(),
        |i: int| built_parameter(parameters[i], parameter_chain(parameters, i), env),
    )
}

/// The declaration of the documentation model for a top-level
/// declaration that follows a chain of conditionals `chain`.
pub open spec fn built_instance(node: DeclarationNode, chain: Seq<Cond>, env: Scope) -> InstanceView {
    let attributes = declared_attributes(node.declaration);
    let common = InstanceView {
        kind: ItemKind::Module,
        name: Seq::empty(),
        space: None,
        ty: None,
        init: None,
        members: Seq::empty(),
        parameters: Seq::empty(),
        attributes: built_attributes(attributes, env),
        return_attributes: Seq::empty(),
        conditional: marked(chain, first_marker(attributes)).0,
        comment: declared_comment(env, node.range),
        span: located(default_text(env.compiled), node.range),
    };
    match node.declaration {
        GlobalDeclaration::Declaration(d) => match d.kind {
            DeclarationKind::Const => InstanceView {
                kind: ItemKind::Constant,
                name: d.name@,
                ty: opt_built_type(d.ty, env),
                init: Some(
                    match d.initializer {
                        Some(e) => built_expression(e, env),
                        None => ExpressionView::NotExpanded(None),
                    },
                ),
                ..common
            },
            DeclarationKind::Var(space) => InstanceView {
                kind: ItemKind::GlobalVariable,
                name: d.name@,
                space: Some(
                    match space {
                        Some(space) => space.converted(),
                        None => SyntaxAddressSpace::Handle.converted(),
                    },
                ),
                ty: opt_built_type(d.ty, env),
                init: opt_built_expression(d.initializer, env),
                ..common
            },
            _ => InstanceView {
                kind: ItemKind::Override,
                name: d.name@,
                ty: opt_built_type(d.ty, env),
                init: opt_built_expression(d.initializer, env),
                ..common
            },
        },
        GlobalDeclaration::TypeAlias(a) => InstanceView {
            kind: ItemKind::TypeAlias,
            name: a.name@,
            ty: Some(built_type(a.ty, env)),
            ..common
        },
        GlobalDeclaration::Struct(s) => InstanceView {
            kind: ItemKind::Struct,
            name: s.name@,
            members: built_members(s.members@, env),
            ..common
        },
        GlobalDeclaration::Function(f) => InstanceView {
            kind: ItemKind::Function,
            name: f.name@,
            ty: opt_built_type(f.return_type, env),
            parameters: built_parameters(f.parameters@, env),
            return_attributes: built_attributes(f.return_attributes@, env),
            ..common
        },
        _ => common,
    }
}

/// Whether a declaration adds to the items of its module: it is local and
/// of a kind that is documented.
pub open spec fn contributes(env: Scope, d: GlobalDeclaration) -> bool {
    declared_locally(env.local, d) && declared_kind(d).is_some()
}

/// The chain of conditionals that the top-level declaration at position
/// `n` sees: that of the contributing declarations before it.
pub open spec fn chain_before(env: Scope, n: int) -> Seq<Cond>
    decreases n,
{
    let decls = env.compiled.declarations@;
    if n <= 0 || n > decls.len() {
        Seq::empty()
    } else if contributes(env, decls[n - 1].declaration) {
        marked(chain_before(env, n - 1), first_marker(declared_attributes(decls[n - 1].declaration))).1
    } else {
        chain_before(env, n - 1)
    }
}

/// The declarations that the first `n` top-level declarations of the
/// compiled module add, in their order.
pub open spec fn instances_upto(env: Scope, n: int) -> Seq<InstanceView>
    decreases n,
{
    let decls = env.compiled.declarations@;
    if n <= 0 || n > decls.len() {
        Seq::empty()
    } else if contributes(env, decls[n - 1].declaration) {
        instances_upto(env, n - 1).push(built_instance(decls[n - 1], chain_before(env, n - 1), env))
    } else {
        instances_upto(env, n - 1)
    }
}

/// The groups after one more declaration: it joins the first group of its
/// name, or opens a new group at the end.
pub open spec fn group_insert(groups: Seq<Seq<InstanceView>>, x: InstanceView) -> Seq<
    Seq<InstanceView>,
> {
    match first_index(group_names(groups), x.name) {
        Some(i) => groups.update(i, groups[i].push(x)),
        None => groups.push(seq![x]),
    }
}

/// The declarations of one kind among `instances`, grouped by name: the
/// groups in the order in which their names first occur, the
/// declarations of a group in their order.
pub open spec fn grouped(instances: Seq<InstanceView>, kind: ItemKind) -> Seq<Seq<InstanceView>>
    decreases instances.len(),
{
    if instances.len() == 0 {
        Seq::empty()
    } else if instances.last().kind == kind {
        group_insert(grouped(instances.drop_last(), kind), instances.last())
    } else {
        grouped(instances.drop_last(), kind)
    }
}

/// Whether every group is non-empty and of one name and of the given
/// kind, and no two groups have the same name.
pub open spec fn well_grouped(groups: Seq<Seq<InstanceView>>, kind: ItemKind) -> bool {
    &&& group_names(groups).no_duplicates()
    &&& forall|g: int|
        0 <= g < groups.len() ==> (#[trigger] groups[g]).len() > 0 && forall|i: int|
            0 <= i < groups[g].len() ==> (#[trigger] groups[g][i]).name == groups[g][0].name
                && groups[g][i].kind == kind
}

/// A declaration that joins well-formed groups leaves them well-formed.
pub proof fn lemma_group_insert_well_grouped(
    groups: Seq<Seq<InstanceView>>,
    x: InstanceView,
    kind: ItemKind,
)
    requires
        well_grouped(groups, kind),
        x.kind == kind,
    ensures
        well_grouped(group_insert(groups, x), kind),
{
    let names = group_names(groups);
    let after = group_insert(groups, x);
    lemma_first_index_holds(names, x.name);
    match first_index(names, x.name) {
        Some(at) => {
            assert(names[at] == x.name);
            assert(groups[at].len() > 0);
            assert(group_names(after) =~= names) by {
                assert forall|g: int| 0 <= g < groups.len() implies group_names(after)[g]
                    == names[g] by {
                    if g == at {
                        assert(after[g] == groups[at].push(x));
                        assert(after[g][0] == groups[at][0]);
                    } else {
                        assert(after[g] == groups[g]);
                    }
                }
            }
            assert forall|g: int| 0 <= g < after.len() implies (#[trigger] after[g]).len() > 0
                && forall|i: int|
                0 <= i < after[g].len() ==> (#[trigger] after[g][i]).name == after[g][0].name
                    && after[g][i].kind == kind by {
                if g == at {
                    assert(after[g] == groups[at].push(x));
                    assert forall|i: int| 0 <= i < after[g].len() implies (#[trigger] after[g][i])
                        .name == after[g][0].name && after[g][i].kind == kind by {
                        if i < groups[at].len() {
                            assert(after[g][i] == groups[at][i]);
                        }
                    }
                } else {
                    assert(after[g] == groups[g]);
                }
            }
        },
        None => {
            assert(group_names(after) =~= names.push(x.name)) by {
                assert forall|g: int| 0 <= g < after.len() implies group_names(after)[g]
                    == names.push(x.name)[g] by {
                    if g < groups.len() {
                        assert(after[g] == groups[g]);
                    } else {
                        assert(after[g] == seq![x]);
                    }
                }
            }
            assert(names.push(x.name).no_duplicates()) by {
                assert forall|a: int, b: int|
                    0 <= a < names.len() + 1 && 0 <= b < names.len() + 1 && a != b implies names.push(
                    x.name,
                )[a] != names.push(x.name)[b] by {}
            }
            assert forall|g: int| 0 <= g < after.len() implies (#[trigger] after[g]).len() > 0
                && forall|i: int|
                0 <= i < after[g].len() ==> (#[trigger] after[g][i]).name == after[g][0].name
                    && after[g][i].kind == kind by {
                if g < groups.len() {
                    assert(after[g] == groups[g]);
                } else {
                    assert(after[g] == seq![x]);
                }
            }
        },
    }
}

/// The declarations of an item share one name and one kind, no item is
/// empty, and no two items of a list have the same name.
pub proof fn lemma_grouped_well_grouped(instances: Seq<InstanceView>, kind: ItemKind)
    ensures
        well_grouped(grouped(instances, kind), kind),
    decreases instances.len(),
{
    if instances.len() == 0 {
        assert(group_names(grouped(instances, kind)) =~= Seq::<Seq<char>>::empty());
    } else {
        lemma_grouped_well_grouped(instances.drop_last(), kind);
        if instances.last().kind == kind {
            lemma_group_insert_well_grouped(
                grouped(instances.drop_last(), kind),
                instances.last(),
                kind,
            );
        }
    }
}

/// Whether no item of a list carries a conditional.
pub open spec fn all_unmerged<T>(items: Seq<Item<T>>) -> bool {
    forall|i: int| 0 <= i < items.len() ==> (#[trigger] items[i]).conditional.is_none()
}

/// Whether an index leads from the name of each group to its place.
pub open spec fn indexed(entries: Seq<(Seq<char>, usize)>, groups: Seq<Seq<InstanceView>>) -> bool {
    &&& entries.len() == groups.len()
    &&& forall|k: int|
        #![trigger entries[k]]
        0 <= k < entries.len() ==> entries[k].0 == group_names(groups)[k] && entries[k].1 == k
}

/// The items of one kind of a module while it is assembled, with the
/// index that finds the item of a name.
pub struct ItemTable<T> {
    pub items: Vec<Item<T>>,
    pub index: IndexMap<String, usize>,
}

impl<T: ItemInstance> ItemTable<T> {
    /// Whether the index leads from the name of each item to its place.
    pub open spec fn wf(&self) -> bool {
        indexed(map_entries(self.index), item_views(self.items@))
    }

    /// A table without items.
    pub fn new() -> (r: ItemTable<T>)
        ensures
            r.wf(),
            r.items@.len() == 0,
    {
        let r = ItemTable { items: Vec::new(), index: index_new() };
        assert(item_views(r.items@) =~= Seq::<Seq<InstanceView>>::empty());
        r
    }

    /// Appends a declaration to the item of its name, which is created
    /// at the end of the list where the name is new.
    pub fn add(&mut self, instance: T)
        requires
            old(self).wf(),
        ensures
            final(self).wf(),
            item_views(final(self).items@) == group_insert(
                item_views(old(self).items@),
                instance.instance_view(),
            ),
            item_conditionals(final(self).items@) == match first_index(
                group_names(item_views(old(self).items@)),
                instance.instance_view().name,
            ) {
                Some(_) => item_conditionals(old(self).items@),
                None => item_conditionals(old(self).items@).push(None),
            },
            all_unmerged(old(self).items@) ==> all_unmerged(final(self).items@),
    {
        let ghost groups = item_views(self.items@);
        let ghost names = group_names(groups);
        let ghost entries = map_entries(self.index);
        let ghost x = instance.instance_view();
        proof {
            assert(entry_keys(entries) =~= names) by {
                assert forall|k: int| 0 <= k < names.len() implies entry_keys(entries)[k]
                    == names[k] by {
                    assert(entries[k].0 == names[k]);
                }
            }
            lemma_first_index_holds(names, x.name);
        }
        match index_get(&self.index, instance.name().0.as_str()) {
            Some(at) => {
                let ghost i = first_index(names, x.name).unwrap();
                assert(entries[i].1 == i);
                assert(at == i);
                let mut item = self.items.remove(at);
                item.instances.push(instance);
                let ghost stored = item;
                self.items.insert(at, item);
                proof {
                    let want = groups.update(at as int, groups[at as int].push(x));
                    assert(item_views(self.items@).len() == want.len());
                    assert forall|k: int| 0 <= k < want.len() implies item_views(self.items@)[k]
                        == want[k] by {
                        if k == at {
                            assert(self.items@[k] == stored);
                            assert(item_views(self.items@)[k] =~= groups[at as int].push(x));
                        } else {
                            assert(self.items@[k] == old(self).items@[k]);
                            assert(groups[k] == item_views(old(self).items@)[k]);
                        }
                    }
                    assert(item_views(self.items@) =~= want);
                    assert forall|k: int| 0 <= k < self.items@.len() implies (
                    #[trigger] self.items@[k]).conditional == old(self).items@[k].conditional by {
                        if k == at {
                            assert(stored.conditional == old(self).items@[at as int].conditional);
                        } else {
                            assert(self.items@[k] == old(self).items@[k]);
                        }
                    }
                    assert(item_conditionals(self.items@) =~= item_conditionals(old(self).items@));
                    assert(group_names(want) =~= names) by {
                        assert forall|k: int| 0 <= k < names.len() implies group_names(want)[k]
                            == names[k] by {
                            if k == at {
                                if groups[at as int].len() > 0 {
                                    assert(want[k][0] == groups[at as int][0]);
                                } else {
                                    assert(want[k][0] == x);
                                    assert(names[at as int] == x.name);
                                }
                            }
                        }
                    }
                }
            },
            None => {
                assert(first_index(names, x.name).is_none());
                let at = self.items.len();
                index_insert(&mut self.index, instance.name().0.clone(), at);
                let mut instances: Vec<T> = Vec::new();
                instances.push(instance);
                self.items.push(Item { instances, conditional: None });
                proof {
                    let want = groups.push(seq![x]);
                    assert forall|k: int| 0 <= k < want.len() implies item_views(self.items@)[k]
                        == want[k] by {
                        if k == groups.len() {
                            assert(item_views(self.items@)[k] =~= seq![x]);
                        } else {
                            assert(self.items@[k] == old(self).items@[k]);
                            assert(groups[k] == item_views(old(self).items@)[k]);
                        }
                    }
                    assert(item_views(self.items@) =~= want);
                    assert forall|k: int| 0 <= k < groups.len() implies (#[trigger] self.items@[k])
                        == old(self).items@[k] by {}
                    assert(item_conditionals(self.items@) =~= item_conditionals(
                        old(self).items@,
                    ).push(None));
                    let after = map_entries(self.index);
                    assert(after == entries.push((x.name, at)));
                    assert forall|k: int|
                        #![trigger after[k]]
                        0 <= k < after.len() implies after[k].0 == group_names(want)[k]
                        && after[k].1 == k by {
                        if k < entries.len() {
                            assert(after[k] == entries[k]);
                            assert(want[k] == groups[k]);
                            assert(entries[k].0 == names[k]);
                        } else {
                            assert(want[k] == seq![x]);
                        }
                    }
                }
            },
        }
    }
}

/// The lines and the doc comment of the declaration that covers the
/// bytes of `range`.
pub fn span_and_comment(range: SourceRange, ctx: &Context) -> (r: (Option<Span>, Option<DocComment>))
    ensures
        r.0 == located(default_text(ctx.scope().compiled), range),
        comment_view(r.1) == declared_comment(ctx.scope(), range),
{
    let span = calculate_span(range, ctx);
    let comment = match (span, ctx.default_source()) {
        (Some(span), Some(source)) => {
            let raw = extract_comments_outer(span, source.as_str());
            build_outer_doc_comment(raw.as_str(), ctx)
        },
        _ => None,
    };
    (span, comment)
}

/// Builds the members of a struct.
pub fn build_members(members: &Vec<MemberDeclaration>, ctx: &Context) -> (r: Vec<StructMember>)
    ensures
        member_views(r@) == built_members(members@, ctx.scope()),
{
    let mut scope = ConditionalScope::new();
    let mut r: Vec<StructMember> = Vec::new();
    let mut i: usize = 0;
    while i < members.len()
        invariant
            i <= members.len(),
            r.len() == i,
            scope@ == member_chain(members@, i as int),
            forall|k: int|
                0 <= k < i ==> (#[trigger] r@[k])@ == built_member(
                    members@[k],
                    member_chain(members@, k),
                    ctx.scope(),
                ),
        decreases members.len() - i,
    {
        let member = &members[i];
        let ty = build_type(&member.ty, ctx);
        let attributes = build_attributes(&member.attributes, ctx);
        let conditional = build_conditional(&mut scope, &member.attributes);
        let (_, comment) = span_and_comment(member.range, ctx);
        r.push(StructMember { name: Ident(member.name.clone()), ty, attributes, conditional, comment });
        i += 1;
    }
    assert(member_views(r@) =~= built_members(members@, ctx.scope()));
    r
}

/// Builds the parameters of a function.
pub fn build_parameters(parameters: &Vec<ParameterDeclaration>, ctx: &Context) -> (r: Vec<
    FunctionParameter,
>)
    ensures
        parameter_views(r@) == built_parameters(parameters@, ctx.scope()),
{
    let mut scope = ConditionalScope::new();
    let mut r: Vec<FunctionParameter> = Vec::new();
    let mut i: usize = 0;
    while i < parameters.len()
        invariant
            i <= parameters.len(),
            r.len() == i,
            scope@ == parameter_chain(parameters@, i as int),
            forall|k: int|
                0 <= k < i ==> (#[trigger] r@[k])@ == built_parameter(
                    parameters@[k],
                    parameter_chain(parameters@, k),
                    ctx.scope(),
                ),
        decreases parameters.len() - i,
    {
        let parameter = &parameters[i];
        let ty = build_type(&parameter.ty, ctx);
        let attributes = build_attributes(&parameter.attributes, ctx);
        let conditional = build_conditional(&mut scope, &parameter.attributes);
        r.push(FunctionParameter { name: Ident(parameter.name.clone()), ty, attributes, conditional });
        i += 1;
    }
    assert(parameter_views(r@) =~= built_parameters(parameters@, ctx.scope()));
    r
}

/// The six lists of items of a module while it is assembled.
pub struct Tables {
    pub constants: ItemTable<Constant>,
    pub overrides: ItemTable<Override>,
    pub global_variables: ItemTable<GlobalVariable>,
    pub structs: ItemTable<Struct>,
    pub functions: ItemTable<Function>,
    pub type_aliases: ItemTable<TypeAlias>,
}

impl Tables {
    /// Whether the lists hold the given declarations, each list those of
    /// its kind grouped by name, and no item carries a conditional.
    pub open spec fn holds(&self, instances: Seq<InstanceView>) -> bool {
        &&& self.constants.wf()
        &&& self.overrides.wf()
        &&& self.global_variables.wf()
        &&& self.structs.wf()
        &&& self.functions.wf()
        &&& self.type_aliases.wf()
        &&& item_views(self.constants.items@) == grouped(instances, ItemKind::Constant)
        &&& item_views(self.overrides.items@) == grouped(instances, ItemKind::Override)
        &&& item_views(self.global_variables.items@) == grouped(instances, ItemKind::GlobalVariable)
        &&& item_views(self.structs.items@) == grouped(instances, ItemKind::Struct)
        &&& item_views(self.functions.items@) == grouped(instances, ItemKind::Function)
        &&& item_views(self.type_aliases.items@) == grouped(instances, ItemKind::TypeAlias)
        &&& all_unmerged(self.constants.items@)
        &&& all_unmerged(self.overrides.items@)
        &&& all_unmerged(self.global_variables.items@)
        &&& all_unmerged(self.structs.items@)
        &&& all_unmerged(self.functions.items@)
        &&& all_unmerged(self.type_aliases.items@)
    }

    /// Six empty lists.
    pub fn new() -> (r: Tables)
        ensures
            r.holds(Seq::empty()),
    {
        let r = Tables {
            constants: ItemTable::new(),
            overrides: ItemTable::new(),
            global_variables: ItemTable::new(),
            structs: ItemTable::new(),
            functions: ItemTable::new(),
            type_aliases: ItemTable::new(),
        };
        proof {
            assert(item_views(r.constants.items@) =~= Seq::<Seq<InstanceView>>::empty());
            assert(item_views(r.overrides.items@) =~= Seq::<Seq<InstanceView>>::empty());
            assert(item_views(r.global_variables.items@) =~= Seq::<Seq<InstanceView>>::empty());
            assert(item_views(r.structs.items@) =~= Seq::<Seq<InstanceView>>::empty());
            assert(item_views(r.functions.items@) =~= Seq::<Seq<InstanceView>>::empty());
            assert(item_views(r.type_aliases.items@) =~= Seq::<Seq<InstanceView>>::empty());
        }
        r
    }
}

/// Adds what one top-level declaration contributes to the lists of its
/// module, and moves the chain of conditionals on.
fn add_declaration(
    tables: &mut Tables,
    scope: &mut ConditionalScope,
    node: &DeclarationNode,
    ctx: &Context,
    Ghost(before): Ghost<Seq<InstanceView>>,
)
    requires
        old(tables).holds(before),
        declared_kind(node.declaration).is_some(),
    ensures
        final(tables).holds(before.push(built_instance(*node, old(scope)@, ctx.scope()))),
        final(scope)@ == marked(
            old(scope)@,
            first_marker(declared_attributes(node.declaration)),
        ).1,
{
    let (span, comment) = span_and_comment(node.range, ctx);
    let ghost x = built_instance(*node, scope@, ctx.scope());
    let ghost after = before.push(x);
    proof {
        assert(after.drop_last() =~= before);
        assert(after.last() == x);
    }
    match &node.declaration {
        GlobalDeclaration::Declaration(d) => {
            let ty = match &d.ty {
                Some(ty) => Some(build_type(ty, ctx)),
                None => None,
            };
            let attributes = build_attributes(&d.attributes, ctx);
            match d.kind {
                DeclarationKind::Const => {
                    let init = match &d.initializer {
                        Some(e) => build_expression(e, ctx),
                        None => Expression::NotExpanded(None),
                    };
                    let conditional = build_conditional(scope, &d.attributes);
                    let instance = Constant {
                        name: Ident(d.name.clone()),
                        ty,
                        init,
                        attributes,
                        conditional,
                        comment,
                        span,
                    };
                    assert(instance.instance_view() == x);
                    tables.constants.add(instance);
                },
                DeclarationKind::Override => {
                    let init = match &d.initializer {
                        Some(e) => Some(build_expression(e, ctx)),
                        None => None,
                    };
                    let conditional = build_conditional(scope, &d.attributes);
                    let instance = Override {
                        name: Ident(d.name.clone()),
                        ty,
                        init,
                        attributes,
                        conditional,
                        comment,
                        span,
                    };
                    assert(instance.instance_view() == x);
                    tables.overrides.add(instance);
                },
                DeclarationKind::Let => {
                    assert(false);
                },
                DeclarationKind::Var(space) => {
                    let space = match space {
                        Some(space) => space.map(),
                        None => SyntaxAddressSpace::Handle.map(),
                    };
                    let init = match &d.initializer {
                        Some(e) => Some(build_expression(e, ctx)),
                        None => None,
                    };
                    let conditional = build_conditional(scope, &d.attributes);
                    let instance = GlobalVariable {
                        name: Ident(d.name.clone()),
                        space,
                        ty,
                        init,
                        attributes,
                        conditional,
                        comment,
                        span,
                    };
                    assert(instance.instance_view() == x);
                    tables.global_variables.add(instance);
                },
            }
        },
        GlobalDeclaration::TypeAlias(a) => {
            let ty = build_type(&a.ty, ctx);
            let attributes = build_attributes(&a.attributes, ctx);
            let conditional = build_conditional(scope, &a.attributes);
            let instance = TypeAlias {
                name: Ident(a.name.clone()),
                ty,
                attributes,
                conditional,
                comment,
                span,
            };
            assert(instance.instance_view() == x);
            tables.type_aliases.add(instance);
        },
        GlobalDeclaration::Struct(s) => {
            let members = build_members(&s.members, ctx);
            let attributes = build_attributes(&s.attributes, ctx);
            let conditional = build_conditional(scope, &s.attributes);
            let instance = Struct {
                name: Ident(s.name.clone()),
                members,
                attributes,
                conditional,
                comment,
                span,
            };
            assert(instance.instance_view() == x);
            tables.structs.add(instance);
        },
        GlobalDeclaration::Function(f) => {
            let parameters = build_parameters(&f.parameters, ctx);
            let ret = match &f.return_type {
                Some(ty) => Some(build_type(ty, ctx)),
                None => None,
            };
            let attributes = build_attributes(&f.attributes, ctx);
            let return_attributes = build_attributes(&f.return_attributes, ctx);
            let conditional = build_conditional(scope, &f.attributes);
            let instance = Function {
                name: Ident(f.name.clone()),
                parameters,
                ret,
                attributes,
                return_attributes,
                conditional,
                comment,
                span,
            };
            assert(instance.instance_view() == x);
            tables.functions.add(instance);
        },
        _ => {
            assert(false);
        },
    }
}

/// The scope in which the declarations of a compiled module are
/// resolved: every top-level declaration registered, the module at `path`.
pub open spec fn module_scope(
    compiled: CompiledModule,
    path: Seq<Seq<char>>,
    dependencies: Seq<Dependency>,
) -> Scope {
    Scope {
        local: registered(compiled, compiled.declarations@.len() as int),
        compiled,
        path,
        dependencies,
    }
}

/// Whether a module of the documentation model holds what a compiled
/// module gives: its source and head comment, its features, and its
/// local declarations grouped into items by kind and name.
pub open spec fn holds_compiled(m: Module, env: Scope) -> bool {
    let all = instances_upto(env, env.compiled.declarations@.len() as int);
    &&& opt_text(m.source) == default_text(env.compiled)
    &&& comment_view(m.comment) == match default_text(env.compiled) {
        Some(text) => documented(
            head_comment(trimmed_lines(text, 0), inner_marker()),
            inner_marker(),
            env,
        ),
        None => None,
    }
    &&& set_items(m.translate_time_features) == module_features(env.local, env.compiled)
    &&& item_views(m.constants@) == grouped(all, ItemKind::Constant)
    &&& item_views(m.overrides@) == grouped(all, ItemKind::Override)
    &&& item_views(m.global_variables@) == grouped(all, ItemKind::GlobalVariable)
    &&& item_views(m.structs@) == grouped(all, ItemKind::Struct)
    &&& item_views(m.functions@) == grouped(all, ItemKind::Function)
    &&& item_views(m.type_aliases@) == grouped(all, ItemKind::TypeAlias)
}

/// Whether a module of the documentation model holds nothing of its own.
pub open spec fn holds_nothing(m: Module) -> bool {
    &&& m.source.is_none()
    &&& m.comment.is_none()
    &&& set_items(m.translate_time_features).len() == 0
    &&& m.constants@.len() == 0
    &&& m.overrides@.len() == 0
    &&& m.global_variables@.len() == 0
    &&& m.structs@.len() == 0
    &&& m.functions@.len() == 0
    &&& m.type_aliases@.len() == 0
}

/// Whether `m` is the documentation tree of the module `w` that stands
/// below the modules of `parent` (package root first): it has the name
/// of `w`, its submodules are the trees of the submodules of `w` in
/// their order, no item carries a conditional yet, no two items of a
/// list have the same name, and it holds what the compiled form of `w`
/// gives, or nothing where `w` has none.
pub open spec fn assembled(
    m: Module,
    w: WeslModule,
    parent: Seq<Seq<char>>,
    dependencies: Seq<Dependency>,
) -> bool
    decreases w,
{
    &&& m.name@ == w.name@
    &&& m.modules@.len() == w.submodules@.len()
    &&& forall|i: int|
        0 <= i < w.submodules@.len() ==> assembled(
            #[trigger] m.modules@[i],
            w.submodules@[i],
            parent.push(w.name@),
            dependencies,
        )
    &&& all_unmerged(m.constants@)
    &&& all_unmerged(m.overrides@)
    &&& all_unmerged(m.global_variables@)
    &&& all_unmerged(m.structs@)
    &&& all_unmerged(m.functions@)
    &&& all_unmerged(m.type_aliases@)
    &&& lists_distinct(m)
    &&& match w.compiled {
        Some(compiled) => holds_compiled(
            m,
            module_scope(compiled, parent.push(w.name@), dependencies),
        ),
        None => holds_nothing(m),
    }
}

/// No feature occurs twice in the set of any module of an assembled tree.
pub proof fn lemma_assembled_features_distinct(
    m: Module,
    w: WeslModule,
    parent: Seq<Seq<char>>,
    dependencies: Seq<Dependency>,
)
    requires
        assembled(m, w, parent, dependencies),
    ensures
        own_features_distinct(m),
    decreases w,
{
    assert forall|i: int| 0 <= i < m.modules@.len() implies own_features_distinct(
        #[trigger] m.modules@[i],
    ) by {
        lemma_assembled_features_distinct(
            m.modules@[i],
            w.submodules@[i],
            parent.push(w.name@),
            dependencies,
        );
    }
    match w.compiled {
        Some(compiled) => {
            let env = module_scope(compiled, parent.push(w.name@), dependencies);
            lemma_module_features_distinct(env.local, env.compiled);
        },
        None => {},
    }
}

/// In no list of any module of an assembled tree two items have the same
/// name.
pub proof fn lemma_assembled_items_distinct(
    m: Module,
    w: WeslModule,
    parent: Seq<Seq<char>>,
    dependencies: Seq<Dependency>,
)
    requires
        assembled(m, w, parent, dependencies),
    ensures
        tree_items_distinct(m),
    decreases w,
{
    assert forall|i: int| 0 <= i < m.modules@.len() implies tree_items_distinct(
        #[trigger] m.modules@[i],
    ) by {
        lemma_assembled_items_distinct(
            m.modules@[i],
            w.submodules@[i],
            parent.push(w.name@),
            dependencies,
        );
    }
}

/// Assembles the documentation tree of a module and of the modules below it.
pub fn compile_module(wesl_module: &WeslModule, path: &Vec<String>, dependencies: &Vec<Dependency>) -> (r:
    Module)
    ensures
        assembled(r, *wesl_module, text_views(path@), dependencies@),
    decreases wesl_module,
{
    let mut here = clone_strings(path);
    here.push(wesl_module.name.clone());
    assert(text_views(here@) =~= text_views(path@).push(wesl_module.name@));
    let mut modules: Vec<Module> = Vec::new();
    let mut i: usize = 0;
    while i < wesl_module.submodules.len()
        invariant
            i <= wesl_module.submodules.len(),
            modules.len() == i,
            text_views(here@) == text_views(path@).push(wesl_module.name@),
            forall|k: int|
                0 <= k < i ==> assembled(
                    #[trigger] modules@[k],
                    wesl_module.submodules@[k],
                    text_views(here@),
                    dependencies@,
                ),
        decreases wesl_module.submodules.len() - i,
    {
        proof {
            assert(decreases_to!(*wesl_module => wesl_module.submodules));
            assert(decreases_to!(wesl_module.submodules => wesl_module.submodules@[i as int]));
        }
        modules.push(compile_module(&wesl_module.submodules[i], &here, dependencies));
        i += 1;
    }
    let mut module = Module::empty(wesl_module.name.clone());
    module.modules = modules;
    let compiled = match &wesl_module.compiled {
        Some(compiled) => compiled,
        None => {
            proof {
                lemma_no_items_distinct(module);
            }
            return module;
        },
    };
    let ctx = Context::init(compiled, &here, dependencies);
    let ghost env = ctx.scope();
    assert(env == module_scope(*compiled, text_views(here@), dependencies@));
    match ctx.default_source() {
        Some(source) => {
            module.source = Some(source.clone());
            let raw = extract_comments_inner(source.as_str());
            module.comment = build_inner_doc_comment(raw.as_str(), &ctx);
        },
        None => {},
    }
    module.translate_time_features = collect_features(&ctx);
    let mut tables = Tables::new();
    let mut scope = ConditionalScope::new();
    let mut k: usize = 0;
    while k < compiled.declarations.len()
        invariant
            k <= compiled.declarations.len(),
            env == ctx.scope(),
            env.compiled == *compiled,
            scope@ == chain_before(env, k as int),
            tables.holds(instances_upto(env, k as int)),
        decreases compiled.declarations.len() - k,
    {
        let node = &compiled.declarations[k];
        if ctx.is_local(&node.declaration) && node.declaration.kind().is_some() {
            add_declaration(
                &mut tables,
                &mut scope,
                node,
                &ctx,
                Ghost(instances_upto(env, k as int)),
            );
        }
        k += 1;
    }
    let Tables { constants, overrides, global_variables, structs, functions, type_aliases } =
        tables;
    module.constants = constants.items;
    module.overrides = overrides.items;
    module.global_variables = global_variables.items;
    module.structs = structs.items;
    module.functions = functions.items;
    module.type_aliases = type_aliases.items;
    proof {
        let all = instances_upto(env, compiled.declarations@.len() as int);
        lemma_grouped_well_grouped(all, ItemKind::Constant);
        lemma_grouped_well_grouped(all, ItemKind::Override);
        lemma_grouped_well_grouped(all, ItemKind::GlobalVariable);
        lemma_grouped_well_grouped(all, ItemKind::Struct);
        lemma_grouped_well_grouped(all, ItemKind::Function);
        lemma_grouped_well_grouped(all, ItemKind::TypeAlias);
    }
    module
}

/// A module without items has no two items of the same name.
proof fn lemma_no_items_distinct(m: Module)
    requires
        m.constants@.len() == 0,
        m.overrides@.len() == 0,
        m.global_variables@.len() == 0,
        m.structs@.len() == 0,
        m.functions@.len() == 0,
        m.type_aliases@.len() == 0,
    ensures
        lists_distinct(m),
{
    assert(group_names(item_views(m.constants@)) =~= Seq::<Seq<char>>::empty());
    assert(group_names(item_views(m.overrides@)) =~= Seq::<Seq<char>>::empty());
    assert(group_names(item_views(m.global_variables@)) =~= Seq::<Seq<char>>::empty());
    assert(group_names(item_views(m.structs@)) =~= Seq::<Seq<char>>::empty());
    assert(group_names(item_views(m.functions@)) =~= Seq::<Seq<char>>::empty());
    assert(group_names(item_views(m.type_aliases@)) =~= Seq::<Seq<char>>::empty());
}

/// Compiles the documentation of a package: the tree of its modules is
/// assembled, then sorted and merged. No feature occurs twice in the set
/// of any module, and no two items of a list have the same name.
pub fn compile(package: &WeslPackage) -> (r: WeslDocs)
    ensures
        r.version@ == package.version@,
        finished(r.root),
        own_features_distinct(r.root),
        tree_items_distinct(r.root),
        exists|tree: Module|
            assembled(tree, package.root, Seq::empty(), package.dependencies@) && processed(
                r.root,
                tree,
            ),
{
    let path: Vec<String> = Vec::new();
    assert(text_views(path@) =~= Seq::<Seq<char>>::empty());
    let root = compile_module(&package.root, &path, &package.dependencies);
    let docs = WeslDocs { version: package.version.duplicate(), root };
    let ghost tree = docs.root;
    proof {
        lemma_assembled_features_distinct(tree, package.root, Seq::empty(), package.dependencies@);
        lemma_assembled_items_distinct(tree, package.root, Seq::empty(), package.dependencies@);
    }
    let r = post_process(docs);
    assert(assembled(tree, package.root, Seq::empty(), package.dependencies@) && processed(
        r.root,
        tree,
    ));
    r
}

} // verus!
