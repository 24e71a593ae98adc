//! The local declaration index of a module and the resolver that turns a
//! name into the path of its declaration.
use vstd::prelude::*;
use crate::ast::{DefinitionPath, ItemKind, PathView};
use crate::conditional::Ident;
use crate::syntax::{
    CompiledModule, DeclarationNode, Dependency, GlobalDeclaration, ModulePath,
    OriginView, PathOrigin, SourceMapEntry, declared_kind, declared_name,
};
use crate::text::{clone_strings, text_views};

verus! {

/// The first position of a sequence that holds the given value.
#[verifier::opaque]
pub open spec fn first_index<K>(keys: Seq<K>, key: K) -> Option<int> {
    if exists|i: int| 0 <= i < keys.len() && keys[i] == key {
        Some(
            choose|i: int|
                0 <= i < keys.len() && keys[i] == key && forall|j: int|
                    0 <= j < i ==> keys[j] != key,
        )
    } else {
        None
    }
}

/// A position that holds the value, with none before it, is the first.
pub proof fn lemma_first_index_at<K>(keys: Seq<K>, key: K, i: int)
    requires
        0 <= i < keys.len(),
        keys[i] == key,
        forall|j: int| 0 <= j < i ==> keys[j] != key,
    ensures
        first_index(keys, key) == Some(i),
{
    reveal(first_index);
    let c = choose|c: int|
        0 <= c < keys.len() && keys[c] == key && forall|j: int| 0 <= j < c ==> keys[j] != key;
    if c < i {
        assert(keys[c] != key);
    }
    if i < c {
        assert(keys[i] != key);
    }
}

/// A sequence without the value has no first position of it.
pub proof fn lemma_first_index_none<K>(keys: Seq<K>, key: K)
    requires
        forall|j: int| 0 <= j < keys.len() ==> keys[j] != key,
    ensures
        first_index(keys, key).is_none(),
{
    reveal(first_index);
}

/// The first position, where there is one, is in range and holds the
/// value, and no position before it does.
pub proof fn lemma_first_index_holds<K>(keys: Seq<K>, key: K)
    ensures
        match first_index(keys, key) {
            Some(i) => 0 <= i < keys.len() && keys[i] == key && forall|j: int|
                0 <= j < i ==> keys[j] != key,
            None => forall|j: int| 0 <= j < keys.len() ==> keys[j] != key,
        },
{
    reveal(first_index);
    if exists|i: int| 0 <= i < keys.len() && keys[i] == key {
        let w = choose|i: int| 0 <= i < keys.len() && keys[i] == key;
        lemma_least_index(keys, key, w);
    }
}

proof fn lemma_least_index<K>(keys: Seq<K>, key: K, w: int)
    requires
        0 <= w < keys.len(),
        keys[w] == key,
    ensures
        exists|i: int|
            0 <= i < keys.len() && keys[i] == key && forall|j: int| 0 <= j < i ==> keys[j] != key,
    decreases w,
{
    if exists|k: int| 0 <= k < w && keys[k] == key {
        let k = choose|k: int| 0 <= k < w && keys[k] == key;
        lemma_least_index(keys, key, k);
    } else {
        assert(forall|j: int| 0 <= j < w ==> keys[j] != key);
    }
}

/// The first position of a value in a sequence with one more element:
/// that in the sequence where it is there, else the new place where the
/// new element is the value.
pub proof fn lemma_first_index_push<K>(keys: Seq<K>, last: K, key: K)
    ensures
        first_index(keys.push(last), key) == match first_index(keys, key) {
            Some(i) => Some(i),
            None => if last == key {
                Some(keys.len() as int)
            } else {
                None
            },
        },
{
    let more = keys.push(last);
    lemma_first_index_holds(keys, key);
    match first_index(keys, key) {
        Some(i) => {
            assert(more[i] == key);
            assert forall|j: int| 0 <= j < i implies more[j] != key by {
                assert(more[j] == keys[j]);
            }
            lemma_first_index_at(more, key, i);
        },
        None => {
            assert forall|j: int| 0 <= j < keys.len() implies more[j] != key by {
                assert(more[j] == keys[j]);
            }
            if last == key {
                lemma_first_index_at(more, key, keys.len() as int);
            } else {
                lemma_first_index_none(more, key);
            }
        },
    }
}

/// The names of a list of local entries.
pub open spec fn local_names(local: Seq<(Seq<char>, ItemKind)>) -> Seq<Seq<char>> {
    Seq::new(local.len(), |i: int| local[i].0)
}

/// The names of the compiled module for which a source map has lines.
pub open spec fn entry_names(entries: Seq<SourceMapEntry>) -> Seq<Seq<char>> {
    Seq::new(entries.len(), |i: int| entries[i].mangled@)
}

/// The local names of a list of dependencies.
pub open spec fn dependency_names(dependencies: Seq<Dependency>) -> Seq<Seq<char>> {
    Seq::new(dependencies.len(), |i: int| dependencies[i].name@)
}

/// By what each declaration is found: one that has a kind of item, by
/// its unmangled name for a raw name and by its declared name for an
/// identifier; any other declaration is never found.
pub open spec fn declaration_keys(decls: Seq<DeclarationNode>, raw: bool) -> Seq<
    Option<Seq<char>>,
> {
    Seq::new(
        decls.len(),
        |i: int|
            if declared_kind(decls[i].declaration).is_none() {
                None
            } else if raw {
                opt_text(decls[i].unmangled)
            } else {
                declared_name(decls[i].declaration)
            },
    )
}

/// The text of an optional string.
pub open spec fn opt_text(s: Option<String>) -> Option<Seq<char>> {
    match s {
        Some(s) => Some(s@),
        None => None,
    }
}

/// How a name is looked up: as written by a person, or as the compiled
/// module spells it.
#[derive(Debug, Clone, Copy, PartialEq, Eq)]
pub enum ResolveTarget<'a> {
    /// A raw name, as found in the text of a doc comment.
    Name(&'a str),
    /// An identifier of the compiled module, mangled or not.
    MaybeMangled(&'a str),
}

impl<'a> ResolveTarget<'a> {
    /// The text of the target.
    pub open spec fn text(&self) -> Seq<char> {
        match self {
            ResolveTarget::Name(name) => name@,
            ResolveTarget::MaybeMangled(name) => name@,
        }
    }

    /// Whether the target is a raw name, to be found by reversing the mangling.
    pub open spec fn is_raw(&self) -> bool {
        self is Name
    }

    pub fn as_str(&self) -> (r: &str)
        ensures
            r@ == self.text(),
    {
        match self {
            ResolveTarget::Name(name) => name,
            ResolveTarget::MaybeMangled(name) => name,
        }
    }
}

/// A name that the current module defines itself, with its kind.
#[derive(Debug, Clone, PartialEq, Eq)]
pub struct LocalEntry {
    pub name: String,
    pub kind: ItemKind,
}

/// The names and kinds of a list of local entries.
pub open spec fn local_views(local: Seq<LocalEntry>) -> Seq<(Seq<char>, ItemKind)> {
    Seq::new(local.len(), |i: int| (local[i].name@, local[i].kind))
}

/// What a lookup yields: the name of the declaration where it was
/// written, its kind, and the raw path of the module that holds it.
pub struct Found {
    pub name: Seq<char>,
    pub kind: ItemKind,
    pub origin: OriginView,
    pub components: Seq<Seq<char>>,
}

/// The declaration that a target selects in the compiled module: among
/// the declarations that have a kind of item, for a raw name the first
/// whose unmangled name is the target, else the first whose name is the
/// target.
pub open spec fn selected_declaration(
    decls: Seq<DeclarationNode>,
    raw: bool,
    target: Seq<char>,
) -> Option<int> {
    first_index(declaration_keys(decls, raw), Some(target))
}

/// The lookup of a target: first among the local names, which live in
/// this module; else, with a source map, through the declaration that the
/// target selects: its kind, and the source map's line for its name.
/// Nothing is found where the target selects no declaration or where
/// the source map has no line for the declaration.
pub open spec fn lookup(
    local: Seq<(Seq<char>, ItemKind)>,
    compiled: CompiledModule,
    raw: bool,
    target: Seq<char>,
) -> Option<Found> {
    match first_index(local_names(local), target) {
        Some(i) => Some(
            Found {
                name: target,
                kind: local[i].1,
                origin: OriginView::Relative(0),
                components: Seq::empty(),
            },
        ),
        None => match compiled.source_map {
            None => None,
            Some(map) => match selected_declaration(compiled.declarations@, raw, target) {
                None => None,
                Some(d) => match declared_kind(compiled.declarations@[d].declaration) {
                    None => None,
                    Some(kind) => {
                        let mangled = declared_name(compiled.declarations@[d].declaration).unwrap();
                        match first_index(entry_names(map.entries@), mangled) {
                            None => None,
                            Some(e) => Some(
                                Found {
                                    name: map.entries@[e].name@,
                                    kind,
                                    origin: map.entries@[e].path.origin@,
                                    components: text_views(map.entries@[e].path.components@),
                                },
                            ),
                        }
                    },
                },
            },
        },
    }
}

/// Whether a declaration's name is among the local names.
pub open spec fn declared_locally(local: Seq<(Seq<char>, ItemKind)>, d: GlobalDeclaration) -> bool {
    match declared_name(d) {
        Some(name) => first_index(local_names(local), name).is_some(),
        None => false,
    }
}

/// Whether the source map has a line for a name of the compiled module:
/// the declaration of that name came from another module.
pub open spec fn mapped_elsewhere(compiled: CompiledModule, name: Seq<char>) -> bool {
    match compiled.source_map {
        Some(map) => first_index(entry_names(map.entries@), name).is_some(),
        None => false,
    }
}

/// Whether a name is among the local names or the source map has a line
/// for it.
pub open spec fn taken(local: Seq<(Seq<char>, ItemKind)>, compiled: CompiledModule, name: Seq<char>) -> bool {
    first_index(local_names(local), name).is_some() || mapped_elsewhere(compiled, name)
}

/// The local names after one registration: a name that already resolves
/// is skipped, any other goes to the end.
pub open spec fn after_insert(
    local: Seq<(Seq<char>, ItemKind)>,
    compiled: CompiledModule,
    name: Seq<char>,
    kind: ItemKind,
) -> Seq<(Seq<char>, ItemKind)> {
    if lookup(local, compiled, false, name).is_some() {
        local
    } else {
        local.push((name, kind))
    }
}

/// The kind under which a name is local, if it is.
pub open spec fn local_kind(local: Seq<(Seq<char>, ItemKind)>, name: Seq<char>) -> Option<ItemKind> {
    match first_index(local_names(local), name) {
        Some(i) => Some(local[i].1),
        None => None,
    }
}

/// By what each top-level declaration registers: its name, where it has
/// a kind of item.
pub open spec fn registering_keys(decls: Seq<DeclarationNode>) -> Seq<Option<Seq<char>>> {
    Seq::new(
        decls.len(),
        |i: int|
            if declared_kind(decls[i].declaration).is_some() {
                declared_name(decls[i].declaration)
            } else {
                None
            },
    )
}

/// The kind under which a name is local after the first `n` declarations
/// were registered: nothing where the source map places the name in
/// another module; else the kind of the first of these declarations that
/// declares the name and has a kind of item.
pub open spec fn registered_kind(compiled: CompiledModule, n: int, name: Seq<char>) -> Option<
    ItemKind,
> {
    if mapped_elsewhere(compiled, name) {
        None
    } else {
        match first_index(registering_keys(compiled.declarations@).subrange(0, n), Some(name)) {
            Some(k) => declared_kind(compiled.declarations@[k].declaration),
            None => None,
        }
    }
}

/// The local names after the first `n` declarations of the compiled
/// module were registered in order.
pub open spec fn registered(compiled: CompiledModule, n: int) -> Seq<(Seq<char>, ItemKind)>
    decreases n,
{
    if n <= 0 || n > compiled.declarations@.len() {
        Seq::empty()
    } else {
        let before = registered(compiled, n - 1);
        let d = compiled.declarations@[n - 1].declaration;
        match (declared_name(d), declared_kind(d)) {
            (Some(name), Some(kind)) => after_insert(before, compiled, name, kind),
            _ => before,
        }
    }
}

/// A name that a declaration with a kind of item declares resolves
/// exactly when it is local or the source map has a line for it.
pub proof fn lemma_declared_name_resolves(
    local: Seq<(Seq<char>, ItemKind)>,
    compiled: CompiledModule,
    k: int,
)
    requires
        0 <= k < compiled.declarations@.len(),
        declared_kind(compiled.declarations@[k].declaration).is_some(),
        declared_name(compiled.declarations@[k].declaration).is_some(),
    ensures
        lookup(
            local,
            compiled,
            false,
            declared_name(compiled.declarations@[k].declaration).unwrap(),
        ).is_some() == taken(
            local,
            compiled,
            declared_name(compiled.declarations@[k].declaration).unwrap(),
        ),
{
    let decls = compiled.declarations@;
    let name = declared_name(decls[k].declaration).unwrap();
    let keys = declaration_keys(decls, false);
    assert(keys[k] == Some(name));
    lemma_first_index_holds(keys, Some(name));
    match first_index(keys, Some(name)) {
        Some(d) => {
            assert(keys[d] == Some(name));
            assert(declared_name(decls[d].declaration) == Some(name));
            assert(declared_kind(decls[d].declaration).is_some());
        },
        None => {
            assert(keys[k] != Some(name));
        },
    }
}

/// After registration a name is local exactly when the source map does
/// not place it in another module and one of the registered declarations
/// declares it with a kind of item; its kind is that of the first such
/// declaration.
pub proof fn lemma_registered_kind(compiled: CompiledModule, n: int, name: Seq<char>)
    requires
        0 <= n <= compiled.declarations@.len(),
    ensures
        local_kind(registered(compiled, n), name) == registered_kind(compiled, n, name),
    decreases n,
{
    let keys = registering_keys(compiled.declarations@);
    if n == 0 {
        assert(local_names(registered(compiled, 0)) =~= Seq::<Seq<char>>::empty());
        lemma_first_index_none(local_names(registered(compiled, 0)), name);
        assert(keys.subrange(0, 0) =~= Seq::<Option<Seq<char>>>::empty());
        lemma_first_index_none(keys.subrange(0, 0), Some(name));
    } else {
        lemma_registered_kind(compiled, n - 1, name);
        let before = registered(compiled, n - 1);
        let after = registered(compiled, n);
        let d = compiled.declarations@[n - 1].declaration;
        assert(keys.subrange(0, n) =~= keys.subrange(0, n - 1).push(keys[n - 1]));
        lemma_first_index_push(keys.subrange(0, n - 1), keys[n - 1], Some(name));
        lemma_first_index_holds(keys.subrange(0, n - 1), Some(name));
        match first_index(keys.subrange(0, n - 1), Some(name)) {
            Some(k) => {
                assert(keys.subrange(0, n - 1)[k] == keys[k]);
                assert(declared_kind(compiled.declarations@[k].declaration).is_some());
            },
            None => {},
        }
        match (declared_name(d), declared_kind(d)) {
            (Some(own), Some(kind)) => {
                assert(keys[n - 1] == Some(own));
                lemma_declared_name_resolves(before, compiled, n - 1);
                if taken(before, compiled, own) {
                    if own == name && !mapped_elsewhere(compiled, name) {
                        assert(local_kind(before, name).is_some());
                    }
                } else {
                    assert(local_names(after) =~= local_names(before).push(own));
                    lemma_first_index_push(local_names(before), own, name);
                    lemma_first_index_holds(local_names(before), name);
                    if own == name {
                        assert(after[before.len() as int] == (own, kind));
                    } else {
                        match first_index(local_names(before), name) {
                            Some(i) => {
                                assert(after[i] == before[i]);
                            },
                            None => {},
                        }
                    }
                }
            },
            _ => {
                assert(keys[n - 1].is_none());
            },
        }
    }
}

/// After all declarations were registered, a declaration with a kind of
/// item is local exactly when the source map has no line for its name.
pub proof fn lemma_local_unless_mapped(compiled: CompiledModule, k: int)
    requires
        0 <= k < compiled.declarations@.len(),
        declared_kind(compiled.declarations@[k].declaration).is_some(),
    ensures
        declared_locally(
            registered(compiled, compiled.declarations@.len() as int),
            compiled.declarations@[k].declaration,
        ) == !mapped_elsewhere(
            compiled,
            declared_name(compiled.declarations@[k].declaration).unwrap(),
        ),
{
    let decls = compiled.declarations@;
    let name = declared_name(decls[k].declaration).unwrap();
    let keys = registering_keys(decls);
    lemma_registered_kind(compiled, decls.len() as int, name);
    assert(keys.subrange(0, decls.len() as int) =~= keys);
    lemma_first_index_holds(keys, Some(name));
    assert(keys[k] == Some(name));
    match first_index(keys, Some(name)) {
        Some(first) => {
            assert(keys[first] == Some(name));
            assert(declared_kind(decls[first].declaration).is_some());
        },
        None => {},
    }
}

/// The path that a raw path stands for, seen from the module at
/// `current_path` (package root first): an absolute path is kept; a
/// relative one replaces the last `n` segments of the module path, the
/// root left out, and needs `n + 1` segments to be there; a path into a
/// dependency takes the version that the dependency resolved to.
pub open spec fn resolved_path(
    origin: OriginView,
    components: Seq<Seq<char>>,
    current_path: Seq<Seq<char>>,
    dependencies: Seq<Dependency>,
) -> Option<PathView> {
    match origin {
        OriginView::Absolute => Some(PathView::Absolute(components)),
        OriginView::Relative(n) => if current_path.len() < n + 1 {
            None
        } else {
            Some(PathView::Absolute(current_path.subrange(1, current_path.len() - n) + components))
        },
        OriginView::Package(name) => match first_index(dependency_names(dependencies), name) {
            Some(i) => Some(PathView::Package(name, dependencies[i].version@, components)),
            None => None,
        },
    }
}

/// What the resolution of a target yields: the declaration's name, its
/// kind and its path, or nothing where the lookup or the path fails.
pub open spec fn resolution(
    local: Seq<(Seq<char>, ItemKind)>,
    compiled: CompiledModule,
    current_path: Seq<Seq<char>>,
    dependencies: Seq<Dependency>,
    raw: bool,
    target: Seq<char>,
) -> Option<(Seq<char>, ItemKind, PathView)> {
    match lookup(local, compiled, raw, target) {
        None => None,
        Some(found) => match resolved_path(
            found.origin,
            found.components,
            current_path,
            dependencies,
        ) {
            None => None,
            Some(path) => Some((found.name, found.kind, path)),
        },
    }
}

/// The view of a resolved reference.
pub open spec fn reference_view(r: Option<(Ident, ItemKind, DefinitionPath)>) -> Option<
    (Seq<char>, ItemKind, PathView),
> {
    match r {
        Some((name, kind, path)) => Some((name@, kind, path@)),
        None => None,
    }
}

/// A declaration as a lookup returns it.
#[derive(Debug, Clone, PartialEq, Eq)]
pub struct Declared {
    pub name: String,
    pub kind: ItemKind,
    pub path: ModulePath,
}

impl Declared {
    pub open spec fn found(&self) -> Found {
        Found {
            name: self.name@,
            kind: self.kind,
            origin: self.path.origin@,
            components: text_views(self.path.components@),
        }
    }
}

/// The view of an optional lookup result.
pub open spec fn declared_view(r: Option<Declared>) -> Option<Found> {
    match r {
        Some(d) => Some(d.found()),
        None => None,
    }
}

/// The position of the first local entry of the given name.
fn find_local(local: &Vec<LocalEntry>, name: &String) -> (r: Option<usize>)
    ensures
        match r {
            Some(i) => first_index(local_names(local_views(local@)), name@) == Some(i as int) && i
                < local.len(),
            None => first_index(local_names(local_views(local@)), name@).is_none(),
        },
{
    let ghost keys = local_names(local_views(local@));
    let mut i: usize = 0;
    while i < local.len()
        invariant
            i <= local.len(),
            keys == local_names(local_views(local@)),
            forall|j: int| 0 <= j < i ==> keys[j] != name@,
        decreases local.len() - i,
    {
        if local[i].name == *name {
            proof {
                lemma_first_index_at(keys, name@, i as int);
            }
            return Some(i);
        }
        i += 1;
    }
    proof {
        lemma_first_index_none(keys, name@);
    }
    None
}

/// The position of the source map's first line for a name.
fn find_entry(entries: &Vec<SourceMapEntry>, name: &String) -> (r: Option<usize>)
    ensures
        match r {
            Some(i) => first_index(entry_names(entries@), name@) == Some(i as int) && i
                < entries.len(),
            None => first_index(entry_names(entries@), name@).is_none(),
        },
{
    let ghost keys = entry_names(entries@);
    let mut i: usize = 0;
    while i < entries.len()
        invariant
            i <= entries.len(),
            keys == entry_names(entries@),
            forall|j: int| 0 <= j < i ==> keys[j] != name@,
        decreases entries.len() - i,
    {
        if entries[i].mangled == *name {
            proof {
                lemma_first_index_at(keys, name@, i as int);
            }
            return Some(i);
        }
        i += 1;
    }
    proof {
        lemma_first_index_none(keys, name@);
    }
    None
}

/// The position of the first dependency of the given local name.
fn find_dependency(dependencies: &Vec<Dependency>, name: &String) -> (r: Option<usize>)
    ensures
        match r {
            Some(i) => first_index(dependency_names(dependencies@), name@) == Some(i as int) && i
                < dependencies.len(),
            None => first_index(dependency_names(dependencies@), name@).is_none(),
        },
{
    let ghost keys = dependency_names(dependencies@);
    let mut i: usize = 0;
    while i < dependencies.len()
        invariant
            i <= dependencies.len(),
            keys == dependency_names(dependencies@),
            forall|j: int| 0 <= j < i ==> keys[j] != name@,
        decreases dependencies.len() - i,
    {
        if dependencies[i].name == *name {
            proof {
                lemma_first_index_at(keys, name@, i as int);
            }
            return Some(i);
        }
        i += 1;
    }
    proof {
        lemma_first_index_none(keys, name@);
    }
    None
}

/// The position of the declaration that a target selects.
fn find_declaration(decls: &Vec<DeclarationNode>, raw: bool, target: &String) -> (r: Option<
    usize,
>)
    ensures
        match r {
            Some(i) => selected_declaration(decls@, raw, target@) == Some(i as int) && i
                < decls.len() && declared_name(decls@[i as int].declaration).is_some()
                && declared_kind(decls@[i as int].declaration).is_some(),
            None => selected_declaration(decls@, raw, target@).is_none(),
        },
{
    let ghost keys = declaration_keys(decls@, raw);
    let mut i: usize = 0;
    while i < decls.len()
        invariant
            i <= decls.len(),
            keys == declaration_keys(decls@, raw),
            forall|j: int| 0 <= j < i ==> keys[j] != Some(target@),
        decreases decls.len() - i,
    {
        let node = &decls[i];
        let hit = match (node.declaration.name(), node.declaration.kind()) {
            (Some(name), Some(_)) => if raw {
                match &node.unmangled {
                    Some(item) => *item == *target,
                    None => false,
                }
            } else {
                *name == *target
            },
            _ => false,
        };
        if hit {
            proof {
                assert(keys[i as int] == Some(target@));
                lemma_first_index_at(keys, Some(target@), i as int);
            }
            return Some(i);
        }
        assert(keys[i as int] != Some(target@));
        i += 1;
    }
    proof {
        lemma_first_index_none(keys, Some(target@));
    }
    None
}

/// A copy of a module path.
fn clone_path(path: &ModulePath) -> (r: ModulePath)
    ensures
        r.origin@ == path.origin@,
        text_views(r.components@) == text_views(path.components@),
{
    let origin = match &path.origin {
        PathOrigin::Absolute => PathOrigin::Absolute,
        PathOrigin::Relative(n) => PathOrigin::Relative(*n),
        PathOrigin::Package(name) => PathOrigin::Package(name.clone()),
    };
    ModulePath { origin, components: clone_strings(&path.components) }
}

/// Looks a target up: among the local names, then through the source map.
pub fn get_decl(
    local: &Vec<LocalEntry>,
    compiled: &CompiledModule,
    raw: bool,
    target: &String,
) -> (r: Option<Declared>)
    ensures
        declared_view(r) == lookup(local_views(local@), *compiled, raw, target@),
{
    match find_local(local, target) {
        Some(i) => {
            let r = Declared {
                name: target.clone(),
                kind: local[i].kind,
                path: ModulePath { origin: PathOrigin::Relative(0), components: Vec::new() },
            };
            assert(text_views(r.path.components@) =~= Seq::<Seq<char>>::empty());
            return Some(r);
        },
        None => {},
    }
    let map = match &compiled.source_map {
        None => {
            return None;
        },
        Some(map) => map,
    };
    let d = match find_declaration(&compiled.declarations, raw, target) {
        None => {
            return None;
        },
        Some(d) => d,
    };
    let kind = match compiled.declarations[d].declaration.kind() {
        None => {
            return None;
        },
        Some(kind) => kind,
    };
    let mangled = match compiled.declarations[d].declaration.name() {
        None => {
            return None;
        },
        Some(name) => name,
    };
    match find_entry(&map.entries, mangled) {
        None => None,
        Some(e) => Some(
            Declared {
                name: map.entries[e].name.clone(),
                kind,
                path: clone_path(&map.entries[e].path),
            },
        ),
    }
}

/// The path that a raw path stands for, seen from the module at
/// `current_path`, or nothing where it leads nowhere.
pub fn resolve_path(
    path: &ModulePath,
    current_path: &Vec<String>,
    dependencies: &Vec<Dependency>,
) -> (r: Option<DefinitionPath>)
    ensures
        match r {
            Some(p) => Some(p@),
            None => None,
        } == resolved_path(
            path.origin@,
            text_views(path.components@),
            text_views(current_path@),
            dependencies@,
        ),
{
    match &path.origin {
        PathOrigin::Absolute => Some(DefinitionPath::Absolute(clone_strings(&path.components))),
        PathOrigin::Relative(n) => {
            if current_path.len() <= *n {
                None
            } else {
                let stop = current_path.len() - *n;
                let mut combined: Vec<String> = Vec::new();
                let mut i: usize = 1;
                while i < stop
                    invariant
                        1 <= i <= stop <= current_path.len(),
                        combined.len() == i - 1,
                        forall|k: int| 0 <= k < i - 1 ==> combined@[k]@ == current_path@[k + 1]@,
                    decreases stop - i,
                {
                    combined.push(current_path[i].clone());
                    i += 1;
                }
                let ghost kept = combined@;
                let mut k: usize = 0;
                while k < path.components.len()
                    invariant
                        k <= path.components.len(),
                        combined.len() == kept.len() + k,
                        forall|j: int| 0 <= j < kept.len() ==> combined@[j]@ == kept[j]@,
                        forall|j: int| 0 <= j < k ==> combined@[kept.len() + j]@ == path.components@[j]@,
                    decreases path.components.len() - k,
                {
                    combined.push(path.components[k].clone());
                    k += 1;
                }
                proof {
                    let want = text_views(current_path@).subrange(1, current_path.len() - *n)
                        + text_views(path.components@);
                    assert(text_views(combined@).len() == want.len());
                    assert forall|j: int| 0 <= j < want.len() implies text_views(combined@)[j]
                        == want[j] by {
                        if j < kept.len() {
                            assert(combined@[j]@ == kept[j]@);
                        } else {
                            assert(combined@[kept.len() + (j - kept.len())]@
                                == path.components@[j - kept.len()]@);
                        }
                    }
                    assert(text_views(combined@) =~= want);
                }
                Some(DefinitionPath::Absolute(combined))
            }
        },
        PathOrigin::Package(name) => match find_dependency(dependencies, name) {
            Some(i) => Some(
                DefinitionPath::Package(
                    name.clone(),
                    dependencies[i].version.duplicate(),
                    clone_strings(&path.components),
                ),
            ),
            None => None,
        },
    }
}

/// The text of a module's own source, where its source map has it.
pub open spec fn default_text(compiled: CompiledModule) -> Option<Seq<char>> {
    match compiled.source_map {
        Some(map) => opt_text(map.default_source),
        None => None,
    }
}

/// The local declaration index of one module together with what a
/// resolution needs besides: the compiled module, the path of the module
/// from the package root, and the versions of the dependencies.
pub struct Context<'a> {
    pub compiled: &'a CompiledModule,
    pub current_path: &'a Vec<String>,
    pub dependencies: &'a Vec<Dependency>,
    pub local: Vec<LocalEntry>,
}

/// What a resolution depends on: the local names, the compiled module,
/// the path of the current module and the dependencies.
pub struct Scope {
    pub local: Seq<(Seq<char>, ItemKind)>,
    pub compiled: CompiledModule,
    pub path: Seq<Seq<char>>,
    pub dependencies: Seq<Dependency>,
}

impl<'a> Context<'a> {
    /// What resolutions in this context depend on.
    pub open spec fn scope(&self) -> Scope {
        Scope {
            local: local_views(self.local@),
            compiled: *self.compiled,
            path: text_views(self.current_path@),
            dependencies: self.dependencies@,
        }
    }

    /// A context whose index holds nothing yet.
    pub fn new(
        compiled: &'a CompiledModule,
        current_path: &'a Vec<String>,
        dependencies: &'a Vec<Dependency>,
    ) -> (r: Context<'a>)
        ensures
            r.compiled == compiled,
            r.current_path == current_path,
            r.dependencies == dependencies,
            r.local@.len() == 0,
    {
        Context { compiled, current_path, dependencies, local: Vec::new() }
    }

    /// A context whose index holds the top-level declarations of the
    /// compiled module that are defined in it: a name is local exactly
    /// when a declaration with a kind of item declares it and the source
    /// map has no line for it, under the kind of the first such
    /// declaration.
    pub fn init(
        compiled: &'a CompiledModule,
        current_path: &'a Vec<String>,
        dependencies: &'a Vec<Dependency>,
    ) -> (r: Context<'a>)
        ensures
            r.compiled == compiled,
            r.current_path == current_path,
            r.dependencies == dependencies,
            local_views(r.local@) == registered(*compiled, compiled.declarations@.len() as int),
            forall|name: Seq<char>|
                #[trigger] local_kind(local_views(r.local@), name) == registered_kind(
                    *compiled,
                    compiled.declarations@.len() as int,
                    name,
                ),
    {
        let mut ctx = Context::new(compiled, current_path, dependencies);
        assert(local_views(ctx.local@) =~= registered(*compiled, 0));
        let mut i: usize = 0;
        while i < compiled.declarations.len()
            invariant
                i <= compiled.declarations.len(),
                ctx.compiled == compiled,
                ctx.current_path == current_path,
                ctx.dependencies == dependencies,
                local_views(ctx.local@) == registered(*compiled, i as int),
            decreases compiled.declarations.len() - i,
        {
            let declaration = &compiled.declarations[i].declaration;
            match (declaration.name(), declaration.kind()) {
                (Some(name), Some(kind)) => {
                    ctx.insert_local(name, kind);
                },
                _ => {},
            }
            i += 1;
        }
        proof {
            assert forall|name: Seq<char>|
                #[trigger] local_kind(local_views(ctx.local@), name) == registered_kind(
                    *compiled,
                    compiled.declarations@.len() as int,
                    name,
                ) by {
                lemma_registered_kind(*compiled, compiled.declarations@.len() as int, name);
            }
        }
        ctx
    }

    /// The compiled module that the context was made for.
    pub fn compiled(&self) -> (r: &CompiledModule)
        ensures
            r == self.compiled,
    {
        self.compiled
    }

    /// Registers a name as defined in this module, unless it already
    /// resolves to something.
    pub fn insert_local(&mut self, name: &String, kind: ItemKind)
        ensures
            final(self).compiled == old(self).compiled,
            final(self).current_path == old(self).current_path,
            final(self).dependencies == old(self).dependencies,
            local_views(final(self).local@) == after_insert(
                local_views(old(self).local@),
                *old(self).compiled,
                name@,
                kind,
            ),
    {
        let known = get_decl(&self.local, self.compiled, false, name);
        if known.is_none() {
            let ghost before = local_views(self.local@);
            self.local.push(LocalEntry { name: name.clone(), kind });
            assert(local_views(self.local@) =~= before.push((name@, kind)));
        }
    }

    /// Whether a declaration's name is among the local names.
    pub fn is_local(&self, declaration: &GlobalDeclaration) -> (r: bool)
        ensures
            r == declared_locally(local_views(self.local@), *declaration),
    {
        match declaration.name() {
            Some(name) => find_local(&self.local, name).is_some(),
            None => false,
        }
    }

    /// The text of the module's own source, where the source map has it.
    pub fn default_source(&self) -> (r: Option<&String>)
        ensures
            r.is_some() == default_text(*self.compiled).is_some(),
            r.is_some() ==> r.unwrap()@ == default_text(*self.compiled).unwrap(),
    {
        match &self.compiled.source_map {
            Some(map) => map.default_source.as_ref(),
            None => None,
        }
    }

    /// The declaration that a target names, with its kind and the path of
    /// the module that holds it; nothing where the target is not found,
    /// a relative path climbs above the package root, or a dependency is
    /// not in the version table.
    pub fn resolve_reference(&self, target: ResolveTarget) -> (r: Option<
        (Ident, ItemKind, DefinitionPath),
    >)
        ensures
            reference_view(r) == resolution(
                local_views(self.local@),
                *self.compiled,
                text_views(self.current_path@),
                self.dependencies@,
                target.is_raw(),
                target.text(),
            ),
    {
        let raw = match target {
            ResolveTarget::Name(_) => true,
            ResolveTarget::MaybeMangled(_) => false,
        };
        let text = target.as_str().to_owned();
        let declared = match get_decl(&self.local, self.compiled, raw, &text) {
            None => {
                return None;
            },
            Some(declared) => declared,
        };
        match resolve_path(&declared.path, self.current_path, self.dependencies) {
            None => None,
            Some(path) => Some((Ident(declared.name), declared.kind, path)),
        }
    }
}

} // verus!
