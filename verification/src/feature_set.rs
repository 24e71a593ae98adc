//! The ordered, duplicate-free set of feature names, kept in an
//! `indexmap::IndexSet`.
use vstd::prelude::*;
use indexmap::IndexSet;
use crate::conditional::{with_feature, with_features};

verus! {

/// `indexmap::IndexSet`, taken as an opaque type: what a set holds is
/// known through [`set_items`] alone.
#[verifier::external_type_specification]
#[verifier::external_body]
#[verifier::reject_recursive_types(T)]
#[verifier::reject_recursive_types(S)]
pub struct ExIndexSet<T, S>(IndexSet<T, S>);

/// The names that a feature set holds, in the order of the set.
pub uninterp spec fn set_items(s: IndexSet<String>) -> Seq<Seq<char>>;

/// `IndexSet::new`: a set that holds nothing.
#[verifier::external_body]
pub(crate) fn set_new() -> (s: IndexSet<String>)
    ensures
        set_items(s) == Seq::<Seq<char>>::empty(),
{
    IndexSet::new()
}

/// `IndexSet::insert`: a name that the set holds already is left where it
/// is and `false` comes back; a new one goes to the end and `true` comes back.
#[verifier::external_body]
pub(crate) fn set_insert(s: &mut IndexSet<String>, value: String) -> (added: bool)
    ensures
        added == !set_items(*old(s)).contains(value@),
        set_items(*final(s)) == with_feature(set_items(*old(s)), value@),
{
    s.insert(value)
}

/// `IndexSet::len`: the number of names in the set.
#[verifier::external_body]
pub(crate) fn set_len(s: &IndexSet<String>) -> (n: usize)
    ensures
        n == set_items(*s).len(),
{
    s.len()
}

/// `IndexSet::get_index`: the name at a position of the set's order, or
/// nothing from the set's length on.
#[verifier::external_body]
pub(crate) fn set_get(s: &IndexSet<String>, index: usize) -> (r: Option<String>)
    ensures
        index < set_items(*s).len() ==> r.is_some() && r.unwrap()@ == set_items(*s)[index as int],
        index >= set_items(*s).len() ==> r.is_none(),
{
    s.get_index(index).cloned()
}

/// The names of a feature set as a list, in the set's order.
pub fn set_to_vec(s: &IndexSet<String>) -> (r: Vec<String>)
    ensures
        crate::text::text_views(r@) == set_items(*s),
{
    let n = set_len(s);
    let mut r: Vec<String> = Vec::new();
    let mut i: usize = 0;
    while i < n
        invariant
            i <= n,
            n == set_items(*s).len(),
            r.len() == i,
            forall|k: int| 0 <= k < i ==> r@[k]@ == set_items(*s)[k],
        decreases n - i,
    {
        match set_get(s, i) {
            Some(name) => {
                r.push(name);
            },
            None => {},
        }
        i += 1;
    }
    assert(crate::text::text_views(r@) =~= set_items(*s));
    r
}

/// Inserts every name of `more` into `into`, in the order of `more`.
pub fn set_extend(into: &mut IndexSet<String>, more: &IndexSet<String>)
    ensures
        set_items(*final(into)) == with_features(set_items(*old(into)), set_items(*more)),
{
    let n = set_len(more);
    let mut i: usize = 0;
    while i < n
        invariant
            i <= n,
            n == set_items(*more).len(),
            set_items(*into) == with_features(
                set_items(*old(into)),
                set_items(*more).subrange(0, i as int),
            ),
        decreases n - i,
    {
        match set_get(more, i) {
            Some(name) => {
                proof {
                    let next = set_items(*more).subrange(0, i + 1);
                    assert(next.drop_last() =~= set_items(*more).subrange(0, i as int));
                    assert(next.last() == name@);
                }
                set_insert(into, name);
            },
            None => {},
        }
        i += 1;
    }
    assert(set_items(*more).subrange(0, n as int) =~= set_items(*more));
}

} // verus!
