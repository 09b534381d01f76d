//! Sequence lemmas for the sorting proofs.
//!
//! A stable sort is characterized here without mentioning any particular
//! algorithm: the output is sorted by the key, and for every key value the
//! subsequence of elements carrying that key is exactly the input's
//! subsequence with that key (`filter`), in the same order. The second
//! condition is stability; the two together determine the output uniquely,
//! which is what lets the radix sort be compared against any reference
//! stable sort.

use vstd::prelude::*;

verus! {

/// The predicate "has key value `k`" under the key function `key`.
///
/// Naming the closure through this constructor lets every module speak of
/// the same predicate value.
pub open spec fn key_eq_pred<A>(key: spec_fn(A) -> u32, k: u32) -> spec_fn(A) -> bool {
    |x: A| key(x) == k
}

/// The subsequence of `s` whose elements carry key `k`, in order.
pub open spec fn key_class<A>(s: Seq<A>, key: spec_fn(A) -> u32, k: u32) -> Seq<A> {
    s.filter(key_eq_pred(key, k))
}

/// Ascending sortedness under a `u32` key.
pub open spec fn sorted_asc_by_key<A>(s: Seq<A>, key: spec_fn(A) -> u32) -> bool {
    forall|i: int, j: int| 0 <= i < j < s.len() ==> key(s[i]) <= key(s[j])
}

/// Descending sortedness under a `u32` key.
pub open spec fn sorted_desc_by_key<A>(s: Seq<A>, key: spec_fn(A) -> u32) -> bool {
    forall|i: int, j: int| 0 <= i < j < s.len() ==> key(s[i]) >= key(s[j])
}

/// Whether `a` and `b` agree on every key class: same elements with each
/// key, in the same order.
pub open spec fn same_key_classes<A>(a: Seq<A>, b: Seq<A>, key: spec_fn(A) -> u32) -> bool {
    forall|k: u32| #[trigger] key_class(a, key, k) == key_class(b, key, k)
}

/// `b` is the stable ascending sort of `a` under `key`.
pub open spec fn is_stable_sort_asc<A>(a: Seq<A>, b: Seq<A>, key: spec_fn(A) -> u32) -> bool {
    &&& sorted_asc_by_key(b, key)
    &&& same_key_classes(a, b, key)
}

/// `b` is the stable descending sort of `a` under `key`.
pub open spec fn is_stable_sort_desc<A>(a: Seq<A>, b: Seq<A>, key: spec_fn(A) -> u32) -> bool {
    &&& sorted_desc_by_key(b, key)
    &&& same_key_classes(a, b, key)
}

/// Filtering a singleton keeps or drops its one element.
pub proof fn lemma_filter_singleton<A>(a: A, p: spec_fn(A) -> bool)
    ensures
        seq![a].filter(p) == if p(a) {
            seq![a]
        } else {
            Seq::<A>::empty()
        },
{
    reveal(Seq::filter);
    assert(seq![a].drop_last() =~= Seq::<A>::empty());
    assert(Seq::<A>::empty().filter(p) =~= Seq::<A>::empty());
    if p(a) {
        assert(seq![a].filter(p) =~= seq![a]);
    }
}

/// Filtering distributes over `push`.
pub proof fn lemma_filter_push<A>(s: Seq<A>, p: spec_fn(A) -> bool, a: A)
    ensures
        s.push(a).filter(p) == if p(a) {
            s.filter(p).push(a)
        } else {
            s.filter(p)
        },
{
    reveal(Seq::filter);
    assert(s.push(a).drop_last() =~= s);
    assert(s.push(a).last() == a);
}

/// A filter that rejects every element yields the empty sequence.
pub proof fn lemma_filter_none<A>(s: Seq<A>, p: spec_fn(A) -> bool)
    requires
        forall|i: int| 0 <= i < s.len() ==> !p(s[i]),
    ensures
        s.filter(p) == Seq::<A>::empty(),
    decreases s.len(),
{
    reveal(Seq::filter);
    if s.len() > 0 {
        lemma_filter_none(s.drop_last(), p);
    }
}

/// A filter that accepts every element yields the sequence itself.
pub proof fn lemma_filter_all<A>(s: Seq<A>, p: spec_fn(A) -> bool)
    requires
        forall|i: int| 0 <= i < s.len() ==> p(s[i]),
    ensures
        s.filter(p) == s,
    decreases s.len(),
{
    reveal(Seq::filter);
    if s.len() > 0 {
        lemma_filter_all(s.drop_last(), p);
        assert(s.filter(p) =~= s);
    }
}

/// Filtering by a finer predicate can be split through a coarser one it
/// implies.
pub proof fn lemma_filter_refine<A>(s: Seq<A>, p: spec_fn(A) -> bool, q: spec_fn(A) -> bool)
    requires
        forall|x: A| #[trigger] q(x) ==> p(x),
    ensures
        s.filter(q) == s.filter(p).filter(q),
    decreases s.len(),
{
    reveal(Seq::filter);
    if s.len() > 0 {
        lemma_filter_refine(s.drop_last(), p, q);
        if p(s.last()) {
            assert(s.filter(p).drop_last() =~= s.drop_last().filter(p));
        }
    }
}

/// Every element of a filtered sequence occurs in the original.
pub proof fn lemma_filter_in_source<A>(s: Seq<A>, p: spec_fn(A) -> bool)
    ensures
        forall|j: int|
            0 <= j < s.filter(p).len() ==> exists|i: int|
                0 <= i < s.len() && s[i] == #[trigger] s.filter(p)[j],
    decreases s.len(),
{
    reveal(Seq::filter);
    if s.len() > 0 {
        lemma_filter_in_source(s.drop_last(), p);
        assert forall|j: int| 0 <= j < s.filter(p).len() implies exists|i: int|
            0 <= i < s.len() && s[i] == #[trigger] s.filter(p)[j] by {
            let f = s.filter(p);
            let fsub = s.drop_last().filter(p);
            if p(s.last()) && j == f.len() - 1 {
                assert(s[s.len() - 1] == f[j]);
            } else {
                assert(f[j] == fsub[j]);
                let i = choose|i: int| 0 <= i < s.drop_last().len() && s.drop_last()[i] == fsub[j];
                assert(s[i] == f[j]);
            }
        }
    }
}

/// A sequence equals its first element prepended to the rest.
pub proof fn lemma_first_rest<A>(s: Seq<A>)
    requires
        s.len() > 0,
    ensures
        s == seq![s[0]] + s.drop_first(),
{
    assert(s =~= seq![s[0]] + s.drop_first());
}

/// Splits a key class at the first element: the class of the first
/// element's own key starts with it, and every other class ignores it.
pub proof fn lemma_key_class_first<A>(s: Seq<A>, key: spec_fn(A) -> u32, k: u32)
    requires
        s.len() > 0,
    ensures
        key(s[0]) == k ==> key_class(s, key, k) == seq![s[0]] + key_class(
            s.drop_first(),
            key,
            k,
        ),
        key(s[0]) != k ==> key_class(s, key, k) == key_class(s.drop_first(), key, k),
{
    lemma_first_rest(s);
    let p = key_eq_pred(key, k);
    Seq::filter_distributes_over_add(seq![s[0]], s.drop_first(), p);
    lemma_filter_singleton(s[0], p);
    if key(s[0]) == k {
        assert((seq![s[0]] + s.drop_first()).filter(p) == seq![s[0]] + s.drop_first().filter(p));
    } else {
        assert((seq![s[0]] + s.drop_first()).filter(p) == Seq::<A>::empty() + s.drop_first().filter(
            p,
        ));
        assert(Seq::<A>::empty() + s.drop_first().filter(p) =~= s.drop_first().filter(p));
    }
}

/// Two sequences that are both sorted ascending by the same key and agree
/// on every key class are equal: the stable ascending sort is unique.
pub proof fn lemma_stable_sort_asc_unique<A>(a: Seq<A>, b: Seq<A>, key: spec_fn(A) -> u32)
    requires
        sorted_asc_by_key(a, key),
        sorted_asc_by_key(b, key),
        same_key_classes(a, b, key),
    ensures
        a == b,
    decreases a.len(),
{
    if a.len() == 0 {
        if b.len() > 0 {
            let k = key(b[0]);
            lemma_key_class_first(b, key, k);
            assert(key_class(b, key, k).len() > 0);
            assert(key_class(a, key, k) == key_class(b, key, k));
            a.lemma_filter_len(key_eq_pred(key, k));
            assert(false);
        }
        assert(a =~= b);
    } else if b.len() == 0 {
        let k = key(a[0]);
        lemma_key_class_first(a, key, k);
        assert(key_class(a, key, k).len() > 0);
        assert(key_class(b, key, k) == key_class(a, key, k));
        b.lemma_filter_len(key_eq_pred(key, k));
        assert(false);
    } else {
        let ka = key(a[0]);
        let kb = key(b[0]);
        // The head of each sequence carries the smallest key present; the
        // classes agree, so the smallest keys agree.
        assert(ka <= kb) by {
            lemma_key_class_first(b, key, kb);
            assert(key_class(a, key, kb).len() > 0);
            lemma_filter_in_source(a, key_eq_pred(key, kb));
            a.lemma_filter_pred(key_eq_pred(key, kb), 0);
            let i = choose|i: int| 0 <= i < a.len() && a[i] == key_class(a, key, kb)[0];
            assert(key(a[i]) == kb);
            if i > 0 {
                assert(key(a[0]) <= key(a[i]));
            }
        };
        assert(kb <= ka) by {
            lemma_key_class_first(a, key, ka);
            assert(key_class(b, key, ka).len() > 0);
            lemma_filter_in_source(b, key_eq_pred(key, ka));
            b.lemma_filter_pred(key_eq_pred(key, ka), 0);
            let i = choose|i: int| 0 <= i < b.len() && b[i] == key_class(b, key, ka)[0];
            assert(key(b[i]) == ka);
            if i > 0 {
                assert(key(b[0]) <= key(b[i]));
            }
        };
        let k0 = ka;
        lemma_key_class_first(a, key, k0);
        lemma_key_class_first(b, key, k0);
        assert(key_class(a, key, k0) == key_class(b, key, k0));
        assert(seq![a[0]] + key_class(a.drop_first(), key, k0) == seq![b[0]] + key_class(
            b.drop_first(),
            key,
            k0,
        ));
        assert(a[0] == b[0]) by {
            assert((seq![a[0]] + key_class(a.drop_first(), key, k0))[0] == a[0]);
            assert((seq![b[0]] + key_class(b.drop_first(), key, k0))[0] == b[0]);
        };
        // The tails satisfy the same three conditions.
        assert(sorted_asc_by_key(a.drop_first(), key)) by {
            assert forall|i: int, j: int| 0 <= i < j < a.drop_first().len() implies key(
                a.drop_first()[i],
            ) <= key(a.drop_first()[j]) by {
                assert(a.drop_first()[i] == a[i + 1]);
                assert(a.drop_first()[j] == a[j + 1]);
            }
        };
        assert(sorted_asc_by_key(b.drop_first(), key)) by {
            assert forall|i: int, j: int| 0 <= i < j < b.drop_first().len() implies key(
                b.drop_first()[i],
            ) <= key(b.drop_first()[j]) by {
                assert(b.drop_first()[i] == b[i + 1]);
                assert(b.drop_first()[j] == b[j + 1]);
            }
        };
        assert(same_key_classes(a.drop_first(), b.drop_first(), key)) by {
            assert forall|k: u32| #[trigger] key_class(a.drop_first(), key, k) == key_class(
                b.drop_first(),
                key,
                k,
            ) by {
                lemma_key_class_first(a, key, k);
                lemma_key_class_first(b, key, k);
                assert(key_class(a, key, k) == key_class(b, key, k));
                if key(a[0]) == k {
                    let ca = key_class(a.drop_first(), key, k);
                    let cb = key_class(b.drop_first(), key, k);
                    assert(seq![a[0]] + ca == seq![b[0]] + cb);
                    assert(ca.len() == (seq![a[0]] + ca).len() - 1);
                    assert(cb.len() == (seq![b[0]] + cb).len() - 1);
                    assert forall|i: int| 0 <= i < ca.len() implies ca[i] == cb[i] by {
                        assert(ca[i] == (seq![a[0]] + ca)[i + 1]);
                        assert(cb[i] == (seq![b[0]] + cb)[i + 1]);
                    }
                    assert(ca =~= cb);
                }
            }
        };
        lemma_stable_sort_asc_unique(a.drop_first(), b.drop_first(), key);
        assert(a =~= b) by {
            assert(a.drop_first() == b.drop_first());
            assert forall|i: int| 0 <= i < a.len() implies a[i] == b[i] by {
                if i > 0 {
                    assert(a.drop_first()[i - 1] == b.drop_first()[i - 1]);
                }
            }
        };
    }
}

/// Filtering preserves sortedness under any integer measure.
pub proof fn lemma_filter_sorted<A>(s: Seq<A>, p: spec_fn(A) -> bool, f: spec_fn(A) -> int)
    requires
        forall|i: int, j: int| 0 <= i < j < s.len() ==> f(s[i]) <= f(s[j]),
    ensures
        forall|i: int, j: int|
            0 <= i < j < s.filter(p).len() ==> f(#[trigger] s.filter(p)[i]) <= f(
                #[trigger] s.filter(p)[j],
            ),
    decreases s.len(),
{
    reveal(Seq::filter);
    if s.len() > 0 {
        let sub = s.drop_last();
        assert(forall|i: int, j: int| 0 <= i < j < sub.len() ==> f(sub[i]) <= f(sub[j]));
        lemma_filter_sorted(sub, p, f);
        lemma_filter_in_source(sub, p);
        let out = s.filter(p);
        assert forall|i: int, j: int| 0 <= i < j < out.len() implies f(#[trigger] out[i]) <= f(
            #[trigger] out[j],
        ) by {
            if p(s.last()) && j == out.len() - 1 {
                assert(out[j] == s.last());
                assert(out[i] == sub.filter(p)[i]);
                let w = choose|w: int| 0 <= w < sub.len() && sub[w] == sub.filter(p)[i];
                assert(f(s[w]) <= f(s[s.len() - 1]));
            } else {
                assert(out[i] == sub.filter(p)[i]);
                assert(out[j] == sub.filter(p)[j]);
            }
        }
    }
}

/// A prefix never holds more matches than the whole, and strictly fewer
/// when a later element matches.
pub proof fn lemma_filter_take_bound<A>(s: Seq<A>, p: spec_fn(A) -> bool, i: int)
    requires
        0 <= i <= s.len(),
    ensures
        s.take(i).filter(p).len() <= s.filter(p).len(),
        i < s.len() && p(s[i]) ==> s.take(i).filter(p).len() < s.filter(p).len(),
{
    assert(s =~= s.take(i) + s.skip(i));
    Seq::filter_distributes_over_add(s.take(i), s.skip(i), p);
    if i < s.len() && p(s[i]) {
        assert(s.skip(i)[0] == s[i]);
        s.skip(i).filter_lemma(p);
        assert(s.skip(i).filter(p).contains(s[i]));
    }
}

} // verus!
