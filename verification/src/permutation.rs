//! Facts about sequences that hold the same elements, each as often: sums
//! over them agree, and so do their first occurrences and their repeats.
use vstd::prelude::*;
use vstd::multiset::Multiset;

use crate::text::TextOrder;

verus! {

broadcast use vstd::multiset::group_multiset_axioms;

/// The multisets `f` gives for the elements of `s`, added up.
pub open spec fn sum_map<A, B>(s: Seq<A>, f: spec_fn(A) -> Multiset<B>) -> Multiset<B>
    decreases s.len(),
{
    if s.len() == 0 {
        Multiset::empty()
    } else {
        sum_map(s.drop_last(), f).add(f(s.last()))
    }
}

/// Summing over a concatenation is adding the two sums.
pub proof fn lemma_sum_map_concat<A, B>(a: Seq<A>, b: Seq<A>, f: spec_fn(A) -> Multiset<B>)
    ensures
        sum_map(a + b, f) == sum_map(a, f).add(sum_map(b, f)),
    decreases b.len(),
{
    if b.len() == 0 {
        assert(a + b =~= a);
        assert(sum_map(a, f).add(Multiset::empty()) =~= sum_map(a, f));
    } else {
        assert((a + b).drop_last() =~= a + b.drop_last());
        lemma_sum_map_concat(a, b.drop_last(), f);
        assert(sum_map(a + b, f) =~= sum_map(a, f).add(sum_map(b, f)));
    }
}

/// Summing over a sequence is summing without element `i`, then adding
/// what `f` gives for it.
pub proof fn lemma_sum_map_remove<A, B>(s: Seq<A>, i: int, f: spec_fn(A) -> Multiset<B>)
    requires
        0 <= i < s.len(),
    ensures
        sum_map(s, f) == sum_map(s.remove(i), f).add(f(s[i])),
{
    let left = s.subrange(0, i);
    let right = s.subrange(i + 1, s.len() as int);
    assert(s =~= (left + seq![s[i]]) + right);
    assert(s.remove(i) =~= left + right);
    lemma_sum_map_concat(left + seq![s[i]], right, f);
    lemma_sum_map_concat(left, seq![s[i]], f);
    lemma_sum_map_concat(left, right, f);
    let one = seq![s[i]];
    assert(one.drop_last() =~= Seq::<A>::empty());
    assert(sum_map(one.drop_last(), f) == Multiset::<B>::empty());
    assert(sum_map(one, f) == Multiset::<B>::empty().add(f(s[i])));
    assert(Multiset::<B>::empty().add(f(s[i])) =~= f(s[i]));
    assert(sum_map(s, f) =~= sum_map(s.remove(i), f).add(f(s[i])));
}

/// Two sequences that hold the same elements, each as often, have the same
/// sum.
pub proof fn lemma_sum_map_permutation<A, B>(a: Seq<A>, b: Seq<A>, f: spec_fn(A) -> Multiset<B>)
    requires
        a.to_multiset() == b.to_multiset(),
    ensures
        sum_map(a, f) == sum_map(b, f),
    decreases a.len(),
{
    broadcast use vstd::seq_lib::group_to_multiset_ensures;
    vstd::seq_lib::to_multiset_len(a);
    vstd::seq_lib::to_multiset_len(b);
    if a.len() == 0 {
        assert(b.len() == 0);
    } else {
        let x = a.last();
        vstd::seq_lib::to_multiset_contains(a, x);
        vstd::seq_lib::to_multiset_contains(b, x);
        assert(a.contains(x)) by {
            assert(a[a.len() - 1] == x);
        }
        let k = choose|k: int| 0 <= k < b.len() && b[k] == x;
        vstd::seq_lib::to_multiset_remove(b, k);
        assert(a.drop_last().push(x) =~= a);
        vstd::seq_lib::to_multiset_build(a.drop_last(), x);
        assert(a.drop_last().to_multiset() =~= b.remove(k).to_multiset());
        lemma_sum_map_permutation(a.drop_last(), b.remove(k), f);
        lemma_sum_map_remove(b, k, f);
    }
}

/// The multiset of a mapped sequence is the sum of the singletons of the
/// mapped elements.
pub proof fn lemma_map_values_sum<A, B>(s: Seq<A>, g: spec_fn(A) -> B)
    ensures
        s.map_values(g).to_multiset() == sum_map(s, |x: A| Multiset::singleton(g(x))),
    decreases s.len(),
{
    broadcast use vstd::seq_lib::group_to_multiset_ensures;
    if s.len() == 0 {
        assert(s.map_values(g) =~= Seq::<B>::empty());
        assert(s.map_values(g).to_multiset() =~= Multiset::empty());
    } else {
        lemma_map_values_sum(s.drop_last(), g);
        assert(s.map_values(g) =~= s.drop_last().map_values(g).push(g(s.last())));
        vstd::seq_lib::to_multiset_build(s.drop_last().map_values(g), g(s.last()));
        assert(s.map_values(g).to_multiset() =~= sum_map(s, |x: A| Multiset::singleton(g(x))));
    }
}

/// Mapping two sequences that hold the same elements, each as often, gives
/// two sequences that do too.
pub proof fn lemma_map_values_permutation<A, B>(a: Seq<A>, b: Seq<A>, g: spec_fn(A) -> B)
    requires
        a.to_multiset() == b.to_multiset(),
    ensures
        a.map_values(g).to_multiset() == b.map_values(g).to_multiset(),
{
    lemma_map_values_sum(a, g);
    lemma_map_values_sum(b, g);
    lemma_sum_map_permutation(a, b, |x: A| Multiset::singleton(g(x)));
}

/// The elements of `s` that no earlier element equals, in order.
pub open spec fn firsts<A>(s: Seq<A>) -> Seq<A>
    decreases s.len(),
{
    if s.len() == 0 {
        s
    } else {
        firsts(s.drop_last()) + if s.drop_last().contains(s.last()) { seq![] } else { seq![s.last()] }
    }
}

/// The elements of `s` that some earlier element equals, in order.
pub open spec fn repeats<A>(s: Seq<A>) -> Seq<A>
    decreases s.len(),
{
    if s.len() == 0 {
        s
    } else {
        repeats(s.drop_last()) + if s.drop_last().contains(s.last()) { seq![s.last()] } else { seq![] }
    }
}

/// The first occurrences hold each element of `s` once; the repeats hold
/// each element as often as `s` does, less one.
pub proof fn lemma_firsts_repeats_count<A>(s: Seq<A>, x: A)
    ensures
        firsts(s).to_multiset().count(x) == if s.to_multiset().count(x) > 0 { 1nat } else { 0nat },
        repeats(s).to_multiset().count(x) == if s.to_multiset().count(x) > 0 {
            (s.to_multiset().count(x) - 1) as nat
        } else {
            0nat
        },
    decreases s.len(),
{
    broadcast use vstd::seq_lib::group_to_multiset_ensures;
    if s.len() == 0 {
        assert(s.to_multiset() =~= Multiset::empty());
        assert(firsts(s).to_multiset() =~= Multiset::empty());
        assert(repeats(s).to_multiset() =~= Multiset::empty());
    } else {
        let p = s.drop_last();
        let y = s.last();
        lemma_firsts_repeats_count(p, x);
        assert(p.push(y) =~= s);
        vstd::seq_lib::to_multiset_build(p, y);
        vstd::seq_lib::to_multiset_contains(p, y);
        vstd::seq_lib::lemma_multiset_commutative(firsts(p), if p.contains(y) { seq![] } else { seq![y] });
        vstd::seq_lib::lemma_multiset_commutative(repeats(p), if p.contains(y) { seq![y] } else { seq![] });
        assert(Seq::<A>::empty().to_multiset() =~= Multiset::empty());
        assert(seq![y].to_multiset() =~= Multiset::singleton(y)) by {
            vstd::seq_lib::to_multiset_build(Seq::<A>::empty(), y);
            assert(Seq::<A>::empty().push(y) =~= seq![y]);
        }
    }
}

/// Two sequences that hold the same elements, each as often, have first
/// occurrences that do too, and repeats that do too.
pub proof fn lemma_firsts_repeats_permutation<A>(a: Seq<A>, b: Seq<A>)
    requires
        a.to_multiset() == b.to_multiset(),
    ensures
        firsts(a).to_multiset() == firsts(b).to_multiset(),
        repeats(a).to_multiset() == repeats(b).to_multiset(),
{
    assert forall|x: A| #[trigger] firsts(a).to_multiset().count(x) == firsts(b).to_multiset().count(x) by {
        lemma_firsts_repeats_count(a, x);
        lemma_firsts_repeats_count(b, x);
    }
    assert forall|x: A| #[trigger] repeats(a).to_multiset().count(x) == repeats(b).to_multiset().count(x) by {
        lemma_firsts_repeats_count(a, x);
        lemma_firsts_repeats_count(b, x);
    }
    assert(firsts(a).to_multiset() =~= firsts(b).to_multiset());
    assert(repeats(a).to_multiset() =~= repeats(b).to_multiset());
}


/// Each element of `s` comes no later in `order` than the next ones.
pub open spec fn sorted_by<A>(s: Seq<A>, order: spec_fn(A, A) -> int) -> bool {
    forall|i: int, j: int| 0 <= i < j < s.len() ==> order(#[trigger] s[i], #[trigger] s[j]) <= 0
}

/// `order` ties two elements of `kind` only when they are equal.
pub open spec fn ties_only_equal<A>(order: spec_fn(A, A) -> int, kind: spec_fn(A) -> bool) -> bool {
    forall|x: A, y: A| kind(x) && kind(y) && #[trigger] order(x, y) <= 0 && #[trigger] order(y, x) <= 0 ==> x == y
}

/// Two sequences of elements of `kind` sorted by an order that ties only
/// equal elements, and that hold the same elements, each as often, are the
/// same sequence: the order leaves no choice.
pub proof fn lemma_sorted_unique<A>(a: Seq<A>, b: Seq<A>, order: spec_fn(A, A) -> int, kind: spec_fn(A) -> bool)
    requires
        sorted_by(a, order),
        sorted_by(b, order),
        ties_only_equal(order, kind),
        forall|i: int| 0 <= i < a.len() ==> kind(#[trigger] a[i]),
        forall|i: int| 0 <= i < b.len() ==> kind(#[trigger] b[i]),
        a.to_multiset() == b.to_multiset(),
    ensures
        a == b,
    decreases a.len(),
{
    broadcast use vstd::seq_lib::group_to_multiset_ensures;
    vstd::seq_lib::to_multiset_len(a);
    vstd::seq_lib::to_multiset_len(b);
    if a.len() == 0 {
        assert(a =~= b);
    } else {
        vstd::seq_lib::to_multiset_contains(a, a[0]);
        vstd::seq_lib::to_multiset_contains(b, a[0]);
        vstd::seq_lib::to_multiset_contains(a, b[0]);
        vstd::seq_lib::to_multiset_contains(b, b[0]);
        assert(a.contains(a[0]));
        assert(b.contains(b[0]));
        let k = choose|k: int| 0 <= k < b.len() && b[k] == a[0];
        let m = choose|m: int| 0 <= m < a.len() && a[m] == b[0];
        if k > 0 && m > 0 {
            assert(order(b[0], b[k]) <= 0);
            assert(order(a[0], a[m]) <= 0);
            assert(kind(a[0]) && kind(b[0]));
        }
        assert(a[0] == b[0]);
        vstd::seq_lib::to_multiset_remove(a, 0);
        vstd::seq_lib::to_multiset_remove(b, 0);
        assert(a.remove(0) =~= a.drop_first());
        assert(b.remove(0) =~= b.drop_first());
        let ra = a.drop_first();
        let rb = b.drop_first();
        assert forall|i: int, j: int| 0 <= i < j < ra.len() implies order(#[trigger] ra[i], #[trigger] ra[j]) <= 0 by {
            assert(ra[i] == a[i + 1] && ra[j] == a[j + 1]);
        }
        assert forall|i: int, j: int| 0 <= i < j < rb.len() implies order(#[trigger] rb[i], #[trigger] rb[j]) <= 0 by {
            assert(rb[i] == b[i + 1] && rb[j] == b[j + 1]);
        }
        assert forall|i: int| 0 <= i < ra.len() implies kind(#[trigger] ra[i]) by {
            assert(ra[i] == a[i + 1]);
        }
        assert forall|i: int| 0 <= i < rb.len() implies kind(#[trigger] rb[i]) by {
            assert(rb[i] == b[i + 1]);
        }
        lemma_sorted_unique(ra, rb, order, kind);
        assert forall|i: int| 0 <= i < a.len() implies a[i] == b[i] by {
            if i > 0 {
                assert(a[i] == ra[i - 1] && b[i] == rb[i - 1]);
            }
        }
        assert(a =~= b);
    }
}


/// The views of the elements of `s`.
pub open spec fn views_of<T: View>(s: Seq<T>) -> Seq<T::V> {
    s.map_values(|t: T| t@)
}

/// `order` is antisymmetric and its "not after" is transitive.
pub open spec fn is_total_preorder<V>(order: spec_fn(V, V) -> int) -> bool {
    &&& forall|x: V, y: V| #[trigger] order(x, y) == -order(y, x)
    &&& forall|x: V, y: V, z: V|
        #![trigger order(x, y), order(y, z)]
        order(x, y) <= 0 && order(y, z) <= 0 ==> order(x, z) <= 0
}

/// Sorts `input` by `order`, which `compare` decides: the result is sorted
/// and holds the same elements as `input`, each as often. An element is put
/// before the first element that it does not come after.
pub fn insertion_sort<T: View, F: Fn(&T, &T) -> TextOrder>(
    input: Vec<T>,
    compare: F,
    Ghost(order): Ghost<spec_fn(T::V, T::V) -> int>,
) -> (out: Vec<T>)
    requires
        is_total_preorder(order),
        forall|x: &T, y: &T| compare.requires((x, y)),
        forall|x: &T, y: &T, r: TextOrder|
            compare.ensures((x, y), r) ==> (r == TextOrder::Less <==> order(x@, y@) < 0),
    ensures
        sorted_by(views_of(out@), order),
        views_of(out@).to_multiset() == views_of(input@).to_multiset(),
{
    broadcast use vstd::seq_lib::group_to_multiset_ensures;
    let ghost all = views_of(input@).to_multiset();
    let mut rest = input;
    let mut out: Vec<T> = Vec::new();
    proof {
        assert(views_of(out@) =~= Seq::<T::V>::empty());
        assert(views_of(out@).to_multiset() =~= Multiset::empty());
        assert(views_of(out@).to_multiset().add(views_of(rest@).to_multiset()) =~= all);
    }
    while rest.len() > 0
        invariant
            is_total_preorder(order),
            forall|x: &T, y: &T| compare.requires((x, y)),
            forall|x: &T, y: &T, r: TextOrder|
                compare.ensures((x, y), r) ==> (r == TextOrder::Less <==> order(x@, y@) < 0),
            sorted_by(views_of(out@), order),
            views_of(out@).to_multiset().add(views_of(rest@).to_multiset()) == all,
        decreases rest@.len(),
    {
        let ghost rest_before = rest@;
        let item = match rest.pop() {
            Some(item) => item,
            None => {
                return out;
            },
        };
        proof {
            assert(rest_before =~= rest@.push(item));
            assert(views_of(rest_before) =~= views_of(rest@).push(item@));
            vstd::seq_lib::to_multiset_build(views_of(rest@), item@);
        }
        let mut p: usize = 0;
        while p < out.len() && compare(&out[p], &item) == TextOrder::Less
            invariant
                p <= out@.len(),
                forall|x: &T, y: &T| compare.requires((x, y)),
                forall|x: &T, y: &T, r: TextOrder|
                    compare.ensures((x, y), r) ==> (r == TextOrder::Less <==> order(x@, y@) < 0),
                forall|k: int| 0 <= k < p ==> order((#[trigger] out@[k])@, item@) < 0,
            decreases out@.len() - p,
        {
            p = p + 1;
        }
        let ghost before = views_of(out@);
        out.insert(p, item);
        proof {
            let after = views_of(out@);
            assert(after =~= before.insert(p as int, item@));
            vstd::seq_lib::to_multiset_insert(before, p as int, item@);
            assert forall|i: int, j: int| 0 <= i < j < after.len() implies order(
                #[trigger] after[i],
                #[trigger] after[j],
            ) <= 0 by {
                if j < p {
                    assert(after[i] == before[i] && after[j] == before[j]);
                } else if j == p {
                    assert(after[i] == before[i]);
                    assert(order(out@[i]@, item@) < 0);
                } else if i > p {
                    assert(after[i] == before[i - 1] && after[j] == before[j - 1]);
                } else if i == p {
                    assert(order(before[p as int], item@) >= 0);
                    assert(order(item@, before[p as int]) <= 0);
                    if j - 1 > p {
                        assert(order(before[p as int], before[j - 1]) <= 0);
                    } else {
                        assert(order(before[p as int], before[p as int]) == 0);
                    }
                    assert(order(item@, before[j - 1]) <= 0);
                } else {
                    assert(after[i] == before[i] && after[j] == before[j - 1]);
                }
            }
            assert(after.to_multiset().add(views_of(rest@).to_multiset()) =~= all);
        }
    }
    proof {
        assert(views_of(rest@) =~= Seq::<T::V>::empty());
        assert(views_of(rest@).to_multiset() =~= Multiset::empty());
        assert(views_of(out@).to_multiset() =~= all);
    }
    out
}

} // verus!
