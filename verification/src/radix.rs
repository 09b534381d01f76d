//! The host mirror of the device radix sort.
//!
//! The device strategies sort (depth-key, splat-index) pairs by a base-
//! `2^w` least-significant-digit radix sort: one histogram/scatter round
//! per digit place, each round stable, so the final order is the stable
//! ascending sort of the keys. This module implements those rounds on the
//! host with the same digit arithmetic and proves exactly that: the result
//! is sorted by key, and entries with equal keys keep their input order —
//! which pins the output to the order any reference stable sort produces.

use vstd::prelude::*;
use vstd::arithmetic::div_mod::{
    lemma_breakdown, lemma_mod_bound, lemma_mod_division_less_than_divisor, lemma_small_mod,
};
use vstd::arithmetic::power::{lemma_pow_adds, lemma_pow_positive, pow};
use crate::seqtools::{
    is_stable_sort_asc, key_class, key_eq_pred, lemma_filter_all, lemma_filter_none,
    lemma_filter_push, lemma_filter_refine, lemma_filter_sorted, lemma_filter_take_bound,
    same_key_classes, sorted_asc_by_key,
};

verus! {

/// One sorting-buffer entry: a depth-derived key and the splat index it
/// stands for.
#[derive(Clone, Copy, Debug, PartialEq, Eq, Structural)]
pub struct SortEntry {
    /// The sorting key.
    pub key: u32,
    /// The index of the splat this entry stands for.
    pub index: u32,
}

/// The key of an entry, as the sorting characterization reads it.
pub open spec fn entry_key() -> spec_fn(SortEntry) -> u32 {
    |e: SortEntry| e.key
}

/// The digit of `k` at the place whose modulus is `m`, in base `base`.
pub open spec fn digit_of(k: u32, m: int, base: int) -> int {
    (k as int / m) % base
}

/// The predicate "has digit `d` at place modulus `m`".
pub open spec fn digit_pred(m: int, base: int, d: int) -> spec_fn(SortEntry) -> bool {
    |e: SortEntry| digit_of(e.key, m, base) == d
}

/// The predicate "key is `v` modulo `m`".
pub open spec fn mod_pred(m: int, v: int) -> spec_fn(SortEntry) -> bool {
    |e: SortEntry| e.key as int % m == v
}

/// Sortedness by the key's residue modulo `m`.
pub open spec fn sorted_by_mod(s: Seq<SortEntry>, m: int) -> bool {
    forall|i: int, j: int|
        0 <= i < j < s.len() ==> s[i].key as int % m <= s[j].key as int % m
}

/// The digit classes of `s` at place modulus `m`, concatenated in digit
/// order `0, 1, .., d - 1`: what one stable counting-sort round produces.
pub open spec fn concat_classes(s: Seq<SortEntry>, m: int, base: int, d: int) -> Seq<SortEntry>
    decreases d,
{
    if d <= 0 {
        Seq::empty()
    } else {
        concat_classes(s, m, base, d - 1) + s.filter(digit_pred(m, base, d - 1))
    }
}

/// Appending one entry to the input grows exactly one digit class of the
/// concatenation, at its end, and no other.
proof fn lemma_concat_classes_push(s: Seq<SortEntry>, x: SortEntry, m: int, base: int, d: int)
    requires
        m >= 1,
        base >= 1,
    ensures
        concat_classes(s.push(x), m, base, d).len() == concat_classes(s, m, base, d).len() + if 0
            <= digit_of(x.key, m, base) < d {
            1int
        } else {
            0int
        },
    decreases d,
{
    if d > 0 {
        lemma_concat_classes_push(s, x, m, base, d - 1);
        lemma_filter_push(s, digit_pred(m, base, d - 1), x);
    }
}

/// With every digit below `d`, the concatenation of the digit classes has
/// exactly the input's length.
proof fn lemma_concat_classes_len(s: Seq<SortEntry>, m: int, base: int, d: int)
    requires
        m >= 1,
        base >= 1,
        forall|i: int| 0 <= i < s.len() ==> 0 <= digit_of(#[trigger] s[i].key, m, base) < d,
    ensures
        concat_classes(s, m, base, d).len() == s.len(),
    decreases s.len(),
{
    if s.len() == 0 {
        assert(s =~= Seq::<SortEntry>::empty());
        lemma_concat_classes_empty(m, base, d);
    } else {
        let sub = s.drop_last();
        assert(s =~= sub.push(s.last()));
        assert forall|i: int| 0 <= i < sub.len() implies 0 <= digit_of(
            #[trigger] sub[i].key,
            m,
            base,
        ) < d by {
            assert(sub[i] == s[i]);
        }
        lemma_concat_classes_len(sub, m, base, d);
        lemma_concat_classes_push(sub, s.last(), m, base, d);
        assert(s.last() == s[s.len() - 1]);
        assert(0 <= digit_of(s.last().key, m, base) < d);
        assert(concat_classes(s, m, base, d).len() == concat_classes(sub, m, base, d).len() + 1);
        assert(concat_classes(sub, m, base, d).len() == sub.len());
        assert(s.len() == sub.len() + 1);
        assert(concat_classes(s, m, base, d).len() == s.len());
    }
}

/// The concatenation over the empty input is empty.
proof fn lemma_concat_classes_empty(m: int, base: int, d: int)
    ensures
        concat_classes(Seq::empty(), m, base, d).len() == 0,
    decreases d,
{
    if d > 0 {
        lemma_concat_classes_empty(m, base, d - 1);
        lemma_filter_none(Seq::<SortEntry>::empty(), digit_pred(m, base, d - 1));
    }
}

/// Filtering the concatenation by one digit gives back that digit's class
/// of the input (or nothing, for a digit outside the range).
proof fn lemma_concat_classes_filter(s: Seq<SortEntry>, m: int, base: int, cap: int, d: int)
    ensures
        concat_classes(s, m, base, cap).filter(digit_pred(m, base, d)) == if 0 <= d < cap {
            s.filter(digit_pred(m, base, d))
        } else {
            Seq::<SortEntry>::empty()
        },
    decreases cap,
{
    let pd = digit_pred(m, base, d);
    if cap <= 0 {
        lemma_filter_none(concat_classes(s, m, base, cap), pd);
    } else {
        lemma_concat_classes_filter(s, m, base, cap - 1, d);
        let block = s.filter(digit_pred(m, base, cap - 1));
        Seq::filter_distributes_over_add(concat_classes(s, m, base, cap - 1), block, pd);
        s.filter_lemma(digit_pred(m, base, cap - 1));
        if d == cap - 1 {
            lemma_filter_all(block, pd);
            assert(Seq::<SortEntry>::empty() + block =~= block);
            if !(0 <= d < cap - 1) {
                assert(concat_classes(s, m, base, cap - 1).filter(pd) + block =~= block);
            }
        } else {
            lemma_filter_none(block, pd);
            assert(concat_classes(s, m, base, cap).filter(pd) =~= concat_classes(
                s,
                m,
                base,
                cap - 1,
            ).filter(pd));
        }
    }
}

/// The sum of a sequence of counts.
pub open spec fn seq_sum(s: Seq<usize>) -> int
    decreases s.len(),
{
    if s.len() == 0 {
        0
    } else {
        seq_sum(s.drop_last()) + s.last()
    }
}

/// Sums grow along prefixes.
proof fn lemma_seq_sum_take_monotone(s: Seq<usize>, d1: int, d2: int)
    requires
        0 <= d1 <= d2 <= s.len(),
    ensures
        seq_sum(s.take(d1)) <= seq_sum(s.take(d2)),
    decreases d2 - d1,
{
    if d1 < d2 {
        lemma_seq_sum_take_monotone(s, d1, d2 - 1);
        assert(s.take(d2).drop_last() =~= s.take(d2 - 1));
        assert(seq_sum(s.take(d2)) == seq_sum(s.take(d2 - 1)) + s.take(d2).last());
    }
}

/// One more prefix element adds its count.
proof fn lemma_seq_sum_take_step(s: Seq<usize>, d: int)
    requires
        0 <= d < s.len(),
    ensures
        seq_sum(s.take(d + 1)) == seq_sum(s.take(d)) + s[d],
{
    assert(s.take(d + 1).drop_last() =~= s.take(d));
    assert(s.take(d + 1).last() == s[d]);
}

/// The histogram pass: the number of entries carrying each digit at the
/// place whose modulus is `m`.
pub fn radix_histogram(entries: &Vec<SortEntry>, m: u64, base: u64) -> (counts: Vec<usize>)
    requires
        m >= 1,
        1 <= base <= 0x1_0000,
    ensures
        counts@.len() == base,
        forall|d: int|
            0 <= d < base ==> #[trigger] counts@[d] == entries@.filter(
                digit_pred(m as int, base as int, d),
            ).len(),
{
    let mut counts: Vec<usize> = Vec::new();
    let base_us = base as usize;
    let mut d: usize = 0;
    while d < base_us
        invariant
            base_us == base,
            d <= base_us,
            counts@.len() == d,
            forall|w: int| 0 <= w < d ==> #[trigger] counts@[w] == 0,
        decreases base_us - d,
    {
        counts.push(0);
        d += 1;
    }
    proof {
        assert forall|w: int| 0 <= w < base implies #[trigger] counts@[w] == entries@.take(
            0,
        ).filter(digit_pred(m as int, base as int, w)).len() by {
            lemma_filter_none(entries@.take(0), digit_pred(m as int, base as int, w));
        }
    }
    let mut i: usize = 0;
    while i < entries.len()
        invariant
            base_us == base,
            m >= 1,
            base >= 1,
            i <= entries@.len(),
            counts@.len() == base,
            forall|w: int|
                0 <= w < base ==> #[trigger] counts@[w] == entries@.take(i as int).filter(
                    digit_pred(m as int, base as int, w),
                ).len(),
        decreases entries@.len() - i,
    {
        let e = entries[i];
        let dig = (((e.key as u64) / m) % base) as usize;
        proof {
            lemma_mod_bound(e.key as int / m as int, base as int);
            assert(dig as int == digit_of(e.key, m as int, base as int));
            assert forall|w: int| 0 <= w < base implies entries@.take(i + 1).filter(
                digit_pred(m as int, base as int, w),
            ).len() == entries@.take(i as int).filter(digit_pred(m as int, base as int, w)).len()
                + if w == dig as int {
                1int
            } else {
                0int
            } by {
                assert(entries@.take(i + 1) =~= entries@.take(i as int).push(e));
                lemma_filter_push(entries@.take(i as int), digit_pred(m as int, base as int, w), e);
            }
        }
        let c = counts[dig];
        assert(c <= i);
        counts.set(dig, c + 1);
        i += 1;
    }
    proof {
        assert(entries@.take(entries@.len() as int) =~= entries@);
    }
    counts
}

/// The prefix-sum pass: the exclusive prefix sums of the digit counts —
/// where each digit's block begins in the scattered buffer.
pub fn exclusive_prefix_sum(counts: &Vec<usize>) -> (offsets: Vec<usize>)
    requires
        seq_sum(counts@) <= usize::MAX,
    ensures
        offsets@.len() == counts@.len(),
        forall|d: int| 0 <= d < counts@.len() ==> #[trigger] offsets@[d] == seq_sum(counts@.take(d)),
{
    let mut offsets: Vec<usize> = Vec::new();
    let mut acc: usize = 0;
    let mut d: usize = 0;
    while d < counts.len()
        invariant
            d <= counts@.len(),
            offsets@.len() == d,
            acc == seq_sum(counts@.take(d as int)),
            seq_sum(counts@) <= usize::MAX,
            forall|w: int| 0 <= w < d ==> #[trigger] offsets@[w] == seq_sum(counts@.take(w)),
        decreases counts@.len() - d,
    {
        offsets.push(acc);
        proof {
            lemma_seq_sum_take_step(counts@, d as int);
            lemma_seq_sum_take_monotone(counts@, d + 1, counts@.len() as int);
            assert(counts@.take(counts@.len() as int) =~= counts@);
        }
        acc = acc + counts[d];
        d += 1;
    }
    offsets
}

/// The exclusive prefix sums of the digit counts are exactly where the
/// concatenation of the digit classes places each block.
proof fn lemma_block_starts(
    s: Seq<SortEntry>,
    counts: Seq<usize>,
    m: int,
    base: int,
    d: int,
)
    requires
        counts.len() == base,
        forall|w: int|
            0 <= w < base ==> #[trigger] counts[w] == s.filter(digit_pred(m, base, w)).len(),
        0 <= d <= base,
    ensures
        seq_sum(counts.take(d)) == concat_classes(s, m, base, d).len(),
    decreases d,
{
    if d > 0 {
        lemma_block_starts(s, counts, m, base, d - 1);
        lemma_seq_sum_take_step(counts, d - 1);
    } else {
        assert(counts.take(0) =~= Seq::<usize>::empty());
    }
}

/// One round of the sort, host-mirroring the three device passes: the
/// histogram of the digits at place modulus `m`, the exclusive prefix sum
/// of those counts, then a scatter of the entries to their blocks in
/// input order — stable within each digit. The result is exactly the
/// concatenation of the digit classes in digit order.
pub fn radix_pass(entries: &Vec<SortEntry>, m: u64, base: u64) -> (out: Vec<SortEntry>)
    requires
        m >= 1,
        1 <= base <= 0x1_0000,
        m * base <= u64::MAX,
    ensures
        out@ == concat_classes(entries@, m as int, base as int, base as int),
        out@.len() == entries@.len(),
{
    let ghost mi = m as int;
    let ghost bi = base as int;
    let n = entries.len();
    let counts = radix_histogram(entries, m, base);
    proof {
        assert forall|q: int| 0 <= q < entries@.len() implies 0 <= digit_of(
            #[trigger] entries@[q].key,
            mi,
            bi,
        ) < bi by {
            lemma_mod_bound(entries@[q].key as int / mi, bi);
        }
        lemma_block_starts(entries@, counts@, mi, bi, bi);
        lemma_concat_classes_len(entries@, mi, bi, bi);
        assert(counts@.take(bi) =~= counts@);
        assert(seq_sum(counts@) == n);
    }
    let mut offsets = exclusive_prefix_sum(&counts);
    let mut out = clone_entries(entries);
    let mut i: usize = 0;
    proof {
        assert forall|w: int| 0 <= w < bi implies out@.subrange(
            seq_sum(counts@.take(w)),
            #[trigger] offsets@[w] as int,
        ) == entries@.take(0).filter(digit_pred(mi, bi, w)) by {
            lemma_filter_none(entries@.take(0), digit_pred(mi, bi, w));
            assert(counts@.take(0) =~= Seq::<usize>::empty());
            lemma_seq_sum_take_monotone(counts@, 0, w);
            lemma_seq_sum_take_monotone(counts@, w, bi);
            assert(counts@.take(bi) =~= counts@);
            assert(offsets@[w] as int == seq_sum(counts@.take(w)));
            assert(out@.subrange(seq_sum(counts@.take(w)), offsets@[w] as int) =~= Seq::<
                SortEntry,
            >::empty());
        }
    }
    while i < n
        invariant
            n == entries@.len(),
            mi == m as int,
            bi == base as int,
            m >= 1,
            1 <= base <= 0x1_0000,
            i <= n,
            out@.len() == n,
            counts@.len() == bi,
            offsets@.len() == bi,
            seq_sum(counts@) == n,
            forall|w: int|
                0 <= w < bi ==> #[trigger] counts@[w] == entries@.filter(
                    digit_pred(mi, bi, w),
                ).len(),
            forall|w: int|
                0 <= w < bi ==> #[trigger] offsets@[w] as int == seq_sum(counts@.take(w))
                    + entries@.take(i as int).filter(digit_pred(mi, bi, w)).len(),
            forall|w: int|
                0 <= w < bi ==> out@.subrange(
                    seq_sum(counts@.take(w)),
                    #[trigger] offsets@[w] as int,
                ) == entries@.take(i as int).filter(digit_pred(mi, bi, w)),
        decreases n - i,
    {
        let e = entries[i];
        let dig = (((e.key as u64) / m) % base) as usize;
        proof {
            lemma_mod_bound(e.key as int / mi, bi);
            assert(dig as int == digit_of(e.key, mi, bi));
        }
        let ghost di = dig as int;
        let ghost start = seq_sum(counts@.take(di));
        let pos = offsets[dig];
        proof {
            lemma_filter_take_bound(entries@, digit_pred(mi, bi, di), i as int);
            assert(counts@.take(0) =~= Seq::<usize>::empty());
            lemma_seq_sum_take_monotone(counts@, 0, di);
            lemma_seq_sum_take_step(counts@, di);
            lemma_seq_sum_take_monotone(counts@, di + 1, bi);
            assert(counts@.take(bi) =~= counts@);
            assert(0 <= start);
            assert(start <= pos as int);
            assert((pos as int) < start + counts@[di]);
            assert(pos < n);
        }
        let ghost before = out@;
        let ghost old_offsets = offsets@;
        out.set(pos, e);
        offsets.set(dig, pos + 1);
        proof {
            assert(out@ == before.update(pos as int, e));
            assert(entries@.take(i + 1) =~= entries@.take(i as int).push(e));
            // Each block's bounds stay inside the buffer and clear of the
            // written position unless it is this digit's block.
            assert forall|w: int| 0 <= w < bi implies {
                &&& 0 <= seq_sum(counts@.take(w))
                &&& seq_sum(counts@.take(w)) <= old_offsets[w] as int
                &&& (old_offsets[w] as int) <= seq_sum(counts@.take(w)) + counts@[w]
                &&& seq_sum(counts@.take(w)) + counts@[w] <= n
            } by {
                lemma_filter_take_bound(entries@, digit_pred(mi, bi, w), i as int);
                assert(counts@.take(0) =~= Seq::<usize>::empty());
                lemma_seq_sum_take_monotone(counts@, 0, w);
                lemma_seq_sum_take_step(counts@, w);
                lemma_seq_sum_take_monotone(counts@, w + 1, bi);
                assert(counts@.take(bi) =~= counts@);
            }
            assert forall|w: int| 0 <= w < bi && w != di implies {
                &&& offsets@[w] == old_offsets[w]
                &&& (w < di ==> (old_offsets[w] as int) <= start)
                &&& (w > di ==> (pos as int) < seq_sum(counts@.take(w)))
            } by {
                if w < di {
                    lemma_seq_sum_take_step(counts@, w);
                    lemma_seq_sum_take_monotone(counts@, w + 1, di);
                } else if w > di {
                    lemma_seq_sum_take_step(counts@, di);
                    lemma_seq_sum_take_monotone(counts@, di + 1, w);
                }
            }
            assert forall|w: int| 0 <= w < bi implies #[trigger] offsets@[w] as int == seq_sum(
                counts@.take(w),
            ) + entries@.take(i + 1).filter(digit_pred(mi, bi, w)).len() by {
                lemma_filter_push(entries@.take(i as int), digit_pred(mi, bi, w), e);
            }
            assert forall|w: int| 0 <= w < bi implies out@.subrange(
                seq_sum(counts@.take(w)),
                #[trigger] offsets@[w] as int,
            ) == entries@.take(i + 1).filter(digit_pred(mi, bi, w)) by {
                lemma_filter_push(entries@.take(i as int), digit_pred(mi, bi, w), e);
                let sw = seq_sum(counts@.take(w));
                if w == di {
                    assert(sw == start);
                    let lhs = out@.subrange(sw, pos + 1);
                    let rhs = before.subrange(sw, pos as int).push(e);
                    assert(lhs.len() == rhs.len());
                    assert forall|k: int| 0 <= k < lhs.len() implies lhs[k] == rhs[k] by {
                        assert(lhs[k] == out@[sw + k]);
                        if sw + k < pos as int {
                            assert(out@[sw + k] == before[sw + k]);
                            assert(rhs[k] == before.subrange(sw, pos as int)[k]);
                        } else {
                            assert(sw + k == pos as int);
                            assert(lhs[k] == e);
                        }
                    }
                    assert(lhs =~= rhs);
                    assert(before.subrange(sw, pos as int) == entries@.take(i as int).filter(
                        digit_pred(mi, bi, w),
                    ));
                } else {
                    let hi = offsets@[w] as int;
                    let lhs = out@.subrange(sw, hi);
                    let rhs = before.subrange(sw, hi);
                    assert(lhs.len() == rhs.len());
                    assert forall|k: int| 0 <= k < lhs.len() implies lhs[k] == rhs[k] by {
                        assert(sw + k != pos as int);
                        assert(lhs[k] == out@[sw + k]);
                        assert(rhs[k] == before[sw + k]);
                    }
                    assert(lhs =~= rhs);
                }
            }
        }
        i += 1;
    }
    proof {
        assert(entries@.take(n as int) =~= entries@);
        assert forall|w: int| 0 <= w < bi implies out@.subrange(
            seq_sum(counts@.take(w)),
            seq_sum(counts@.take(w)) + counts@[w],
        ) == entries@.filter(#[trigger] digit_pred(mi, bi, w)) by {
            assert(counts@.take(0) =~= Seq::<usize>::empty());
            lemma_seq_sum_take_monotone(counts@, 0, w);
            assert(offsets@[w] as int == seq_sum(counts@.take(w)) + entries@.take(
                n as int,
            ).filter(digit_pred(mi, bi, w)).len());
            assert(offsets@[w] as int == seq_sum(counts@.take(w)) + counts@[w]);
        }
        lemma_scatter_blocks_are_concat(out@, entries@, counts@, mi, bi, bi);
        assert(counts@.take(bi) =~= counts@);
        assert(out@.take(seq_sum(counts@.take(bi))) =~= out@);
    }
    out
}

/// A buffer whose digit blocks each hold that digit's class is, up to the
/// blocks' total length, the concatenation of the classes.
proof fn lemma_scatter_blocks_are_concat(
    out: Seq<SortEntry>,
    s: Seq<SortEntry>,
    counts: Seq<usize>,
    m: int,
    base: int,
    d: int,
)
    requires
        counts.len() == base,
        forall|w: int|
            0 <= w < base ==> #[trigger] counts[w] == s.filter(digit_pred(m, base, w)).len(),
        seq_sum(counts) <= out.len(),
        forall|w: int|
            0 <= w < base ==> out.subrange(
                seq_sum(counts.take(w)),
                seq_sum(counts.take(w)) + counts[w],
            ) == #[trigger] s.filter(digit_pred(m, base, w)),
        0 <= d <= base,
    ensures
        out.take(seq_sum(counts.take(d))) == concat_classes(s, m, base, d),
    decreases d,
{
    lemma_block_starts(s, counts, m, base, d);
    if d == 0 {
        assert(counts.take(0) =~= Seq::<usize>::empty());
        assert(out.take(0) =~= concat_classes(s, m, base, 0));
    } else {
        lemma_scatter_blocks_are_concat(out, s, counts, m, base, d - 1);
        lemma_seq_sum_take_step(counts, d - 1);
        lemma_seq_sum_take_monotone(counts, d, counts.len() as int);
        assert(counts.take(counts.len() as int) =~= counts);
        let lo = seq_sum(counts.take(d - 1));
        let hi = seq_sum(counts.take(d));
        assert(out.subrange(lo, lo + counts[d - 1]) == s.filter(digit_pred(m, base, d - 1)));
        assert(out.take(hi) =~= out.take(lo) + out.subrange(lo, hi));
        assert(concat_classes(s, m, base, d) == concat_classes(s, m, base, d - 1) + s.filter(
            digit_pred(m, base, d - 1),
        ));
    }
}

/// Whether `a` and `b` agree on every residue class of the keys modulo
/// `m`: same elements with each residue, in the same order.
pub open spec fn same_mod_classes(a: Seq<SortEntry>, b: Seq<SortEntry>, m: int) -> bool {
    forall|v: int| #[trigger] a.filter(mod_pred(m, v)) == b.filter(mod_pred(m, v))
}

/// Splitting a key modulo `m * base`: the high part is the digit at place
/// `m`, the low part the residue modulo `m`.
proof fn lemma_key_split(k: u32, m: int, base: int)
    requires
        m >= 1,
        base >= 1,
    ensures
        k as int % (m * base) == m * digit_of(k, m, base) + k as int % m,
        0 <= digit_of(k, m, base) < base,
        0 <= k as int % m < m,
{
    lemma_breakdown(k as int, m, base);
    lemma_mod_bound(k as int / m, base);
    lemma_mod_bound(k as int, m);
}

/// The concatenation of the digit classes of a sequence sorted modulo `m`
/// is sorted modulo `m * base`, and every element of it has a digit below
/// the bound.
proof fn lemma_concat_sorted(s: Seq<SortEntry>, m: int, base: int, d: int)
    requires
        m >= 1,
        base >= 1,
        d <= base,
        sorted_by_mod(s, m),
    ensures
        forall|i: int|
            0 <= i < concat_classes(s, m, base, d).len() ==> 0 <= digit_of(
                #[trigger] concat_classes(s, m, base, d)[i].key,
                m,
                base,
            ) < d,
        sorted_by_mod(concat_classes(s, m, base, d), m * base),
    decreases d,
{
    if d > 0 {
        lemma_concat_sorted(s, m, base, d - 1);
        let prev = concat_classes(s, m, base, d - 1);
        let block = s.filter(digit_pred(m, base, d - 1));
        let cc = concat_classes(s, m, base, d);
        assert(cc == prev + block);
        s.filter_lemma(digit_pred(m, base, d - 1));
        lemma_filter_sorted(s, digit_pred(m, base, d - 1), |e: SortEntry| e.key as int % m);
        assert forall|i: int| 0 <= i < cc.len() implies 0 <= digit_of(
            #[trigger] cc[i].key,
            m,
            base,
        ) < d by {
            if i < prev.len() {
                assert(cc[i] == prev[i]);
            } else {
                assert(cc[i] == block[i - prev.len()]);
                assert(digit_of(block[i - prev.len()].key, m, base) == d - 1);
            }
        }
        assert forall|i: int, j: int| 0 <= i < j < cc.len() implies cc[i].key as int % (m * base)
            <= cc[j].key as int % (m * base) by {
            lemma_key_split(cc[i].key, m, base);
            lemma_key_split(cc[j].key, m, base);
            if j < prev.len() {
                assert(cc[i] == prev[i] && cc[j] == prev[j]);
            } else if i >= prev.len() {
                assert(cc[i] == block[i - prev.len()] && cc[j] == block[j - prev.len()]);
                assert(digit_of(cc[i].key, m, base) == d - 1);
                assert(digit_of(cc[j].key, m, base) == d - 1);
                assert(cc[i].key as int % m <= cc[j].key as int % m);
            } else {
                assert(cc[i] == prev[i] && cc[j] == block[j - prev.len()]);
                assert(digit_of(cc[i].key, m, base) < d - 1);
                assert(digit_of(cc[j].key, m, base) == d - 1);
                assert(m * digit_of(cc[i].key, m, base) + m <= m * digit_of(cc[j].key, m, base))
                    by (nonlinear_arith)
                    requires
                        m >= 1,
                        digit_of(cc[i].key, m, base) + 1 <= digit_of(cc[j].key, m, base),
                ;
            }
        }
    }
}

/// One round at place `m` turns residue-stability modulo `m` into
/// residue-stability modulo `m * base`.
proof fn lemma_round_preserves_classes(
    orig: Seq<SortEntry>,
    cur: Seq<SortEntry>,
    m: int,
    base: int,
)
    requires
        m >= 1,
        base >= 1,
        same_mod_classes(cur, orig, m),
    ensures
        same_mod_classes(concat_classes(cur, m, base, base), orig, m * base),
{
    let nxt = concat_classes(cur, m, base, base);
    assert forall|v: int| #[trigger] nxt.filter(mod_pred(m * base, v)) == orig.filter(
        mod_pred(m * base, v),
    ) by {
        let pv = mod_pred(m * base, v);
        if 0 <= v < m * base {
            let dv = v / m;
            let rv = v % m;
            lemma_mod_bound(v, m);
            assert(0 <= dv < base) by (nonlinear_arith)
                requires
                    m >= 1,
                    base >= 1,
                    0 <= v < m * base,
                    dv == v / m,
            ;
            // A key with residue `v` modulo `m * base` has digit `dv` and
            // residue `rv` modulo `m`.
            assert forall|e: SortEntry| #[trigger] pv(e) implies digit_pred(m, base, dv)(e)
                && mod_pred(m, rv)(e) by {
                lemma_key_split(e.key, m, base);
                vstd::arithmetic::div_mod::lemma_fundamental_div_mod(v, m);
                vstd::arithmetic::div_mod::lemma_fundamental_div_mod_converse(
                    v,
                    m,
                    digit_of(e.key, m, base),
                    e.key as int % m,
                );
            }
            lemma_filter_refine(nxt, digit_pred(m, base, dv), pv);
            lemma_concat_classes_filter(cur, m, base, base, dv);
            lemma_filter_refine(cur, digit_pred(m, base, dv), pv);
            lemma_filter_refine(cur, mod_pred(m, rv), pv);
            lemma_filter_refine(orig, mod_pred(m, rv), pv);
            assert(cur.filter(mod_pred(m, rv)) == orig.filter(mod_pred(m, rv)));
        } else {
            assert(m * base >= 1) by (nonlinear_arith)
                requires
                    m >= 1,
                    base >= 1,
            ;
            assert forall|e: SortEntry| !(#[trigger] pv(e)) by {
                lemma_mod_bound(e.key as int, m * base);
            }
            lemma_filter_none(nxt, pv);
            lemma_filter_none(orig, pv);
        }
    }
}

/// Sorts the entries ascending by key with a least-significant-digit radix
/// sort: digit width `bits_per_digit`, so `ceil(32 / bits_per_digit)`
/// stable counting rounds cover the whole key. The result is the stable
/// ascending sort of the input: sorted by key, entries of equal key in
/// their input order.
pub fn radix_sort(entries: &Vec<SortEntry>, bits_per_digit: u32) -> (out: Vec<SortEntry>)
    requires
        1 <= bits_per_digit <= 8,
    ensures
        out@.len() == entries@.len(),
        is_stable_sort_asc(entries@, out@, entry_key()),
{
    let bits = bits_per_digit as u64;
    let mut base: u64 = 1;
    let mut k: u64 = 0;
    proof {
        assert(pow(2, 0) == 1) by {
            reveal_with_fuel(vstd::arithmetic::power::pow, 1);
        };
    }
    while k < bits
        invariant
            k <= bits,
            bits <= 8,
            base == pow(2, k as nat),
            1 <= base <= 0x100,
        decreases bits - k,
    {
        proof {
            lemma_pow_adds(2, k as nat, 1);
            assert(pow(2, 1) == 2) by {
                reveal_with_fuel(vstd::arithmetic::power::pow, 2);
            };
            assert(pow(2, (k + 1) as nat) == pow(2, k as nat) * 2);
            lemma_pow_increases(2, (k + 1) as nat, 8);
            assert(pow(2, 8) == 0x100) by {
                vstd::arithmetic::power2::lemma2_to64();
                vstd::arithmetic::power2::lemma_pow2(8);
            };
        }
        base = base * 2;
        k = k + 1;
    }
    let places = (32 + bits_per_digit - 1) / bits_per_digit;
    let mut cur: Vec<SortEntry> = clone_entries(entries);
    let mut m: u64 = 1;
    let mut p: u32 = 0;
    proof {
        assert(m == pow(2, (bits * p) as nat)) by {
            reveal_with_fuel(vstd::arithmetic::power::pow, 2);
        };
        lemma_mod_one_classes(cur@, entries@);
    }
    while p < places
        invariant
            p <= places,
            places as int == (32 + bits_per_digit as int - 1) / (bits_per_digit as int),
            1 <= bits_per_digit <= 8,
            bits == bits_per_digit,
            base == pow(2, bits as nat),
            1 <= base <= 0x100,
            m == pow(2, (bits * p) as nat),
            1 <= m,
            m * base <= u64::MAX,
            cur@.len() == entries@.len(),
            sorted_by_mod(cur@, m as int),
            same_mod_classes(cur@, entries@, m as int),
        decreases places - p,
    {
        proof {
            let bi = bits_per_digit as int;
            let pl = places as int;
            let pi = p as int;
            vstd::arithmetic::div_mod::lemma_fundamental_div_mod(32 + bi - 1, bi);
            lemma_mod_bound(32 + bi - 1, bi);
            assert(bi * pl <= 32 + bi - 1);
            assert(bi * (pi + 1) <= bi * pl) by (nonlinear_arith)
                requires
                    bi >= 1,
                    pi + 1 <= pl,
            ;
            assert(bi * (pi + 1) <= 39);
            assert((bits * p + bits) as int == bi * (pi + 1)) by (nonlinear_arith)
                requires
                    bits == bi,
                    p == pi,
            ;
            lemma_pow_adds(2, (bits * p) as nat, bits as nat);
            assert((bits * p + bits) as nat == (bits * (p + 1)) as nat) by (nonlinear_arith)
                requires
                    bits >= 1,
                    p >= 0,
            ;
            lemma_pow_bounded((bits * (p + 1)) as nat);
            assert(m * base == pow(2, (bits * (p + 1)) as nat));
        }
        let nxt = radix_pass(&cur, m, base);
        proof {
            lemma_concat_sorted(cur@, m as int, base as int, base as int);
            lemma_round_preserves_classes(entries@, cur@, m as int, base as int);
            assert(m as int * base as int == (m * base) as int);
        }
        proof {
            let e2 = (bits * (p + 1) + bits) as nat;
            lemma_pow_adds(2, (bits * (p + 1)) as nat, bits as nat);
            lemma_pow_bounded(e2);
        }
        cur = nxt;
        m = m * base;
        p = p + 1;
    }
    proof {
        // The final modulus covers every 32-bit key, so residues are the
        // keys themselves.
        assert(bits * places >= 32) by {
            vstd::arithmetic::div_mod::lemma_fundamental_div_mod(
                32 + bits_per_digit as int - 1,
                bits_per_digit as int,
            );
            lemma_mod_bound(32 + bits_per_digit as int - 1, bits_per_digit as int);
        };
        lemma_pow_increases(2, 32, (bits * places) as nat);
        assert(pow(2, 32) == 0x1_0000_0000) by {
            vstd::arithmetic::power2::lemma2_to64();
            vstd::arithmetic::power2::lemma_pow2(32);
        };
        assert(m >= 0x1_0000_0000);
        assert(sorted_asc_by_key(cur@, entry_key())) by {
            assert forall|i: int, j: int| 0 <= i < j < cur@.len() implies entry_key()(cur@[i])
                <= entry_key()(cur@[j]) by {
                lemma_small_mod(cur@[i].key as nat, m as nat);
                lemma_small_mod(cur@[j].key as nat, m as nat);
            }
        };
        assert(same_key_classes(entries@, cur@, entry_key())) by {
            assert forall|kk: u32| #[trigger] key_class(entries@, entry_key(), kk) == key_class(
                cur@,
                entry_key(),
                kk,
            ) by {
                assert forall|e: SortEntry| #[trigger] key_eq_pred(entry_key(), kk)(e)
                    == mod_pred(m as int, kk as int)(e) by {
                    lemma_small_mod(e.key as nat, m as nat);
                }
                assert(key_eq_pred(entry_key(), kk) =~= mod_pred(m as int, kk as int));
                assert(cur@.filter(mod_pred(m as int, kk as int)) == entries@.filter(
                    mod_pred(m as int, kk as int),
                ));
            }
        };
    }
    cur
}

/// Copies a vector of entries.
fn clone_entries(entries: &Vec<SortEntry>) -> (out: Vec<SortEntry>)
    ensures
        out@ == entries@,
{
    let mut out: Vec<SortEntry> = Vec::new();
    let mut i: usize = 0;
    while i < entries.len()
        invariant
            i <= entries@.len(),
            out@ == entries@.take(i as int),
        decreases entries@.len() - i,
    {
        out.push(entries[i]);
        proof {
            assert(entries@.take(i + 1) =~= entries@.take(i as int).push(entries@[i as int]));
        }
        i += 1;
    }
    proof {
        assert(entries@.take(entries@.len() as int) =~= entries@);
    }
    out
}

/// Powers of two up to the exponents this sort uses stay within `u64`.
proof fn lemma_pow_bounded(e: nat)
    requires
        e <= 48,
    ensures
        pow(2, e) >= 1,
        pow(2, e) <= 0x1_0000_0000_0000,
{
    lemma_pow_positive(2, e);
    lemma_pow_increases(2, e, 48);
    assert(pow(2, 48) == 0x1_0000_0000_0000) by {
        vstd::arithmetic::power2::lemma2_to64_rest();
        vstd::arithmetic::power2::lemma_pow2(48);
    };
}

/// At modulus one every residue class is trivial, so any two sequences of
/// equal length and content agree on them; used to start the round
/// induction.
proof fn lemma_mod_one_classes(a: Seq<SortEntry>, b: Seq<SortEntry>)
    requires
        a == b,
    ensures
        sorted_by_mod(a, 1),
        same_mod_classes(a, b, 1),
{
    assert forall|i: int, j: int| 0 <= i < j < a.len() implies a[i].key as int % 1 <= a[j].key
        as int % 1 by {
        lemma_mod_bound(a[i].key as int, 1);
        lemma_mod_bound(a[j].key as int, 1);
    }
}

/// A monotone bound on powers.
proof fn lemma_pow_increases(b: int, e1: nat, e2: nat)
    requires
        b >= 1,
        e1 <= e2,
    ensures
        pow(b, e1) <= pow(b, e2),
{
    lemma_pow_adds(b, e1, (e2 - e1) as nat);
    lemma_pow_positive(b, e1);
    lemma_pow_positive(b, (e2 - e1) as nat);
    assert(pow(b, e1) * 1 <= pow(b, e1) * pow(b, (e2 - e1) as nat)) by (nonlinear_arith)
        requires
            pow(b, e1) >= 1,
            pow(b, (e2 - e1) as nat) >= 1,
    ;
}

/// The radix sort's order is the stable-sort order: any two sequences that
/// are each a stable ascending sort of the same input — the radix result
/// and a reference stable sort, say — are the same sequence.
pub proof fn lemma_stable_sort_agreement(inp: Seq<SortEntry>, a: Seq<SortEntry>, b: Seq<SortEntry>)
    requires
        is_stable_sort_asc(inp, a, entry_key()),
        is_stable_sort_asc(inp, b, entry_key()),
    ensures
        a == b,
{
    let key = entry_key();
    assert forall|k: u32| #[trigger] key_class(a, key, k) == key_class(b, key, k) by {
        assert(key_class(inp, key, k) == key_class(a, key, k));
        assert(key_class(inp, key, k) == key_class(b, key, k));
    }
    crate::seqtools::lemma_stable_sort_asc_unique(a, b, key);
}

} // verus!
