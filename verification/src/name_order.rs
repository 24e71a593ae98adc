//! The order of names, which is the order of their UTF-8 encodings, and
//! sorting by it.
use vstd::prelude::*;
use vstd::utf8::encode_utf8;
use vstd::seq_lib::{to_multiset_build, to_multiset_remove};
use crate::ast::{Item, ItemInstance, Module};

verus! {

/// Whether the bytes of `a` from position `i` on come before those of `b`
/// or are the same, byte by byte, a shorter text before its extensions.
pub open spec fn bytes_le_from(a: Seq<u8>, b: Seq<u8>, i: int) -> bool
    decreases a.len() - i,
{
    if i < 0 || i >= a.len() {
        true
    } else if i >= b.len() {
        false
    } else if a[i] != b[i] {
        a[i] < b[i]
    } else {
        bytes_le_from(a, b, i + 1)
    }
}

/// Whether the name `a` sorts before the name `b` or is the same.
pub open spec fn name_le(a: Seq<char>, b: Seq<char>) -> bool {
    bytes_le_from(encode_utf8(a), encode_utf8(b), 0)
}

/// Of two texts one comes before the other or they are the same.
pub proof fn lemma_bytes_le_total(a: Seq<u8>, b: Seq<u8>, i: int)
    requires
        0 <= i,
    ensures
        bytes_le_from(a, b, i) || bytes_le_from(b, a, i),
    decreases a.len() - i,
{
    if i < a.len() && i < b.len() && a[i] == b[i] {
        lemma_bytes_le_total(a, b, i + 1);
    }
}

/// The order of texts is transitive.
pub proof fn lemma_bytes_le_transitive(a: Seq<u8>, b: Seq<u8>, c: Seq<u8>, i: int)
    requires
        0 <= i,
        bytes_le_from(a, b, i),
        bytes_le_from(b, c, i),
    ensures
        bytes_le_from(a, c, i),
    decreases a.len() - i,
{
    if i < a.len() && a[i] == b[i] && b[i] == c[i] {
        lemma_bytes_le_transitive(a, b, c, i + 1);
    }
}

/// Whether the text `a` sorts before the text `b` or is the same.
pub fn text_le(a: &str, b: &str) -> (r: bool)
    ensures
        r == name_le(a@, b@),
{
    let x = a.as_bytes();
    let y = b.as_bytes();
    let mut i: usize = 0;
    while i < x.len() && i < y.len() && x[i] == y[i]
        invariant
            i <= x.len(),
            i <= y.len(),
            x@ == encode_utf8(a@),
            y@ == encode_utf8(b@),
            bytes_le_from(x@, y@, 0) == bytes_le_from(x@, y@, i as int),
        decreases x.len() - i,
    {
        i += 1;
    }
    if i >= x.len() {
        true
    } else if i >= y.len() {
        false
    } else {
        x[i] < y[i]
    }
}

/// A thing that is sorted by a name.
pub trait Named {
    /// The name by which the thing is sorted.
    spec fn sort_key(&self) -> Seq<char>;

    fn key(&self) -> (r: &str)
        ensures
            r@ == self.sort_key(),
    ;
}

impl Named for Module {
    open spec fn sort_key(&self) -> Seq<char> {
        self.name@
    }

    fn key(&self) -> (r: &str) {
        self.name.as_str()
    }
}

/// The name of an item: that of its first declaration.
pub open spec fn item_name<T: ItemInstance>(item: Item<T>) -> Seq<char> {
    if item.instances@.len() > 0 {
        item.instances@[0].instance_view().name
    } else {
        Seq::empty()
    }
}

impl<T: ItemInstance> Named for Item<T> {
    open spec fn sort_key(&self) -> Seq<char> {
        item_name(*self)
    }

    fn key(&self) -> (r: &str) {
        if self.instances.len() > 0 {
            self.instances[0].name().0.as_str()
        } else {
            proof {
                reveal_strlit("");
            }
            assert(""@ =~= Seq::<char>::empty());
            ""
        }
    }
}

/// Whether a list is in the order of its names.
pub open spec fn sorted_by_name<T: Named>(s: Seq<T>) -> bool {
    forall|i: int, j: int|
        0 <= i <= j < s.len() ==> name_le(#[trigger] s[i].sort_key(), #[trigger] s[j].sort_key())
}

/// Whether the name of `a` sorts before the name of `b` or is the same.
pub open spec fn key_le<T: Named>(a: T, b: T) -> bool {
    name_le(a.sort_key(), b.sort_key())
}

/// Whether `out` is `input` sorted by name, `origin` telling for each
/// place of `out` the place of `input` that its element came from:
/// every element of `input` is used once, the names ascend, and
/// elements of the same name stand in the order they had in `input`.
pub open spec fn is_stable_sort<T: Named>(out: Seq<T>, input: Seq<T>, origin: Seq<int>) -> bool {
    &&& out.len() == input.len()
    &&& origin.len() == input.len()
    &&& forall|k: int|
        #![trigger origin[k]]
        0 <= k < out.len() ==> 0 <= origin[k] < input.len() && out[k] == input[origin[k]]
    &&& forall|k: int, l: int|
        #![trigger origin[k], origin[l]]
        0 <= k < l < out.len() ==> origin[k] != origin[l]
    &&& sorted_by_name(out)
    &&& forall|k: int, l: int|
        #![trigger origin[k], origin[l]]
        0 <= k < l < out.len() && key_le(out[l], out[k]) ==> origin[k] < origin[l]
}

/// Whether `out` is `input` sorted by name, elements of the same name in
/// the order they had in `input`.
pub open spec fn stable_sort_of<T: Named>(out: Seq<T>, input: Seq<T>) -> bool {
    exists|origin: Seq<int>| is_stable_sort(out, input, origin)
}

/// Takes the first element with the least name out of a list.
fn take_least<T: Named>(v: &mut Vec<T>) -> (r: (usize, T))
    requires
        old(v).len() > 0,
    ensures
        r.0 < old(v).len(),
        r.1 == old(v)@[r.0 as int],
        final(v)@ == old(v)@.remove(r.0 as int),
        forall|j: int| 0 <= j < old(v).len() ==> key_le(r.1, #[trigger] old(v)@[j]),
        forall|j: int| 0 <= j < r.0 ==> !key_le(#[trigger] old(v)@[j], r.1),
{
    let mut best: usize = 0;
    let mut i: usize = 1;
    proof {
        lemma_bytes_le_total(encode_utf8(v@[0].sort_key()), encode_utf8(v@[0].sort_key()), 0);
    }
    while i < v.len()
        invariant
            1 <= i <= v.len(),
            best < i,
            *v == *old(v),
            forall|j: int| 0 <= j < i ==> key_le(v@[best as int], #[trigger] v@[j]),
            forall|j: int| 0 <= j < best ==> !key_le(#[trigger] v@[j], v@[best as int]),
        decreases v.len() - i,
    {
        let keep = text_le(v[best].key(), v[i].key());
        proof {
            let b = encode_utf8(v@[best as int].sort_key());
            let n = encode_utf8(v@[i as int].sort_key());
            if !keep {
                lemma_bytes_le_total(b, n, 0);
                lemma_bytes_le_total(n, n, 0);
                assert forall|j: int| 0 <= j < i + 1 implies key_le(
                    v@[i as int],
                    #[trigger] v@[j],
                ) by {
                    if j < i {
                        lemma_bytes_le_transitive(n, b, encode_utf8(v@[j].sort_key()), 0);
                    }
                }
                assert forall|j: int| 0 <= j < i implies !key_le(#[trigger] v@[j], v@[i as int]) by {
                    if key_le(v@[j], v@[i as int]) {
                        lemma_bytes_le_transitive(b, encode_utf8(v@[j].sort_key()), n, 0);
                    }
                }
            }
        }
        if !keep {
            best = i;
        }
        i += 1;
    }
    let least = v.remove(best);
    (best, least)
}

/// Sorts a list by name; elements of the same name keep their order.
pub fn sort_by_name<T: Named>(v: &mut Vec<T>)
    ensures
        sorted_by_name(final(v)@),
        final(v)@.to_multiset() == old(v)@.to_multiset(),
        stable_sort_of(final(v)@, old(v)@),
{
    let ghost input = v@;
    let mut out: Vec<T> = Vec::new();
    let ghost mut origin: Seq<int> = Seq::empty();
    let ghost mut rest: Seq<int> = Seq::new(input.len(), |i: int| i);
    proof {
        assert(out@.to_multiset().add(v@.to_multiset()) =~= old(v)@.to_multiset()) by {
            broadcast use vstd::seq_lib::group_to_multiset_ensures;
            assert(out@.to_multiset() =~= vstd::multiset::Multiset::<T>::empty());
        }
    }
    while v.len() > 0
        invariant
            input == old(v)@,
            out@.to_multiset().add(v@.to_multiset()) == old(v)@.to_multiset(),
            sorted_by_name(out@),
            forall|i: int, j: int|
                0 <= i < out@.len() && 0 <= j < v@.len() ==> key_le(
                    #[trigger] out@[i],
                    #[trigger] v@[j],
                ),
            origin.len() == out@.len(),
            rest.len() == v@.len(),
            out@.len() + v@.len() == input.len(),
            forall|k: int|
                #![trigger origin[k]]
                0 <= k < out@.len() ==> 0 <= origin[k] < input.len() && out@[k] == input[origin[k]],
            forall|j: int|
                #![trigger rest[j]]
                0 <= j < v@.len() ==> 0 <= rest[j] < input.len() && v@[j] == input[rest[j]],
            forall|a: int, b: int|
                #![trigger rest[a], rest[b]]
                0 <= a < b < v@.len() ==> rest[a] < rest[b],
            forall|k: int, l: int|
                #![trigger origin[k], origin[l]]
                0 <= k < l < out@.len() ==> origin[k] != origin[l],
            forall|k: int, j: int|
                #![trigger origin[k], rest[j]]
                0 <= k < out@.len() && 0 <= j < v@.len() ==> origin[k] != rest[j],
            forall|k: int, l: int|
                #![trigger origin[k], origin[l]]
                0 <= k < l < out@.len() && key_le(out@[l], out@[k]) ==> origin[k] < origin[l],
            forall|k: int, j: int|
                #![trigger origin[k], rest[j]]
                0 <= k < out@.len() && 0 <= j < v@.len() && key_le(v@[j], out@[k]) ==> origin[k]
                    < rest[j],
        decreases v.len(),
    {
        let ghost before = v@;
        let ghost sorted = out@;
        let ghost origin0 = origin;
        let ghost rest0 = rest;
        let (at, least) = take_least(v);
        out.push(least);
        proof {
            origin = origin0.push(rest0[at as int]);
            rest = rest0.remove(at as int);
            to_multiset_build(sorted, least);
            to_multiset_remove(before, at as int);
            assert(before[at as int] == least);
            assert(before.contains(least));
            vstd::seq_lib::to_multiset_contains(before, least);
            assert(out@.to_multiset().add(v@.to_multiset()) =~= sorted.to_multiset().add(
                before.to_multiset(),
            ));
            lemma_bytes_le_total(encode_utf8(least.sort_key()), encode_utf8(least.sort_key()), 0);
            assert forall|i: int, j: int| 0 <= i <= j < out@.len() implies name_le(
                #[trigger] out@[i].sort_key(),
                #[trigger] out@[j].sort_key(),
            ) by {
                if j == sorted.len() && i < j {
                    assert(out@[i] == sorted[i]);
                    assert(key_le(sorted[i], before[at as int]));
                } else if j < sorted.len() {
                    assert(out@[i] == sorted[i]);
                    assert(out@[j] == sorted[j]);
                }
            }
            assert forall|i: int, j: int| 0 <= i < out@.len() && 0 <= j < v@.len() implies key_le(
                #[trigger] out@[i],
                #[trigger] v@[j],
            ) by {
                let k = if j < at { j } else { j + 1 };
                assert(v@[j] == before[k]);
                if i < sorted.len() {
                    assert(out@[i] == sorted[i]);
                }
            }
            assert forall|k: int|
                #![trigger origin[k]]
                0 <= k < out@.len() implies 0 <= origin[k] < input.len() && out@[k]
                == input[origin[k]] by {
                if k < sorted.len() {
                    assert(origin[k] == origin0[k]);
                    assert(out@[k] == sorted[k]);
                } else {
                    assert(origin[k] == rest0[at as int]);
                }
            }
            assert forall|j: int|
                #![trigger rest[j]]
                0 <= j < v@.len() implies 0 <= rest[j] < input.len() && v@[j] == input[rest[j]] by {
                let jj = if j < at { j } else { j + 1 };
                assert(rest[j] == rest0[jj]);
                assert(v@[j] == before[jj]);
            }
            assert forall|a: int, b: int|
                #![trigger rest[a], rest[b]]
                0 <= a < b < v@.len() implies rest[a] < rest[b] by {
                let aa = if a < at { a } else { a + 1 };
                let bb = if b < at { b } else { b + 1 };
                assert(rest[a] == rest0[aa]);
                assert(rest[b] == rest0[bb]);
            }
            assert forall|k: int, l: int|
                #![trigger origin[k], origin[l]]
                0 <= k < l < out@.len() implies origin[k] != origin[l] by {
                assert(origin[k] == origin0[k]);
                if l < sorted.len() {
                    assert(origin[l] == origin0[l]);
                } else {
                    assert(origin[l] == rest0[at as int]);
                }
            }
            assert forall|k: int, j: int|
                #![trigger origin[k], rest[j]]
                0 <= k < out@.len() && 0 <= j < v@.len() implies origin[k] != rest[j] by {
                let jj = if j < at { j } else { j + 1 };
                assert(rest[j] == rest0[jj]);
                if k < sorted.len() {
                    assert(origin[k] == origin0[k]);
                } else {
                    assert(origin[k] == rest0[at as int]);
                    if jj < at {
                        assert(rest0[jj] < rest0[at as int]);
                    } else {
                        assert(rest0[at as int] < rest0[jj]);
                    }
                }
            }
            assert forall|k: int, l: int|
                #![trigger origin[k], origin[l]]
                0 <= k < l < out@.len() && key_le(out@[l], out@[k]) implies origin[k]
                < origin[l] by {
                assert(origin[k] == origin0[k]);
                assert(out@[k] == sorted[k]);
                if l < sorted.len() {
                    assert(origin[l] == origin0[l]);
                    assert(out@[l] == sorted[l]);
                } else {
                    assert(origin[l] == rest0[at as int]);
                    assert(out@[l] == before[at as int]);
                }
            }
            assert forall|k: int, j: int|
                #![trigger origin[k], rest[j]]
                0 <= k < out@.len() && 0 <= j < v@.len() && key_le(v@[j], out@[k]) implies origin[k]
                < rest[j] by {
                let jj = if j < at { j } else { j + 1 };
                assert(rest[j] == rest0[jj]);
                assert(v@[j] == before[jj]);
                if k < sorted.len() {
                    assert(origin[k] == origin0[k]);
                    assert(out@[k] == sorted[k]);
                } else {
                    assert(origin[k] == rest0[at as int]);
                    assert(out@[k] == least);
                    if jj < at {
                        assert(!key_le(before[jj], least));
                    } else {
                        assert(rest0[at as int] < rest0[jj]);
                    }
                }
            }
        }
    }
    proof {
        assert(v@.to_multiset() =~= vstd::multiset::Multiset::<T>::empty()) by {
            broadcast use vstd::seq_lib::group_to_multiset_ensures;
        }
        assert(out@.to_multiset().add(v@.to_multiset()) =~= out@.to_multiset());
        assert(is_stable_sort(out@, input, origin));
    }
    *v = out;
}

} // verus!
