//! The host depth-sorting strategy.
//!
//! Splats are ordered back to front — descending view-space depth — under
//! the total order on float bit patterns, by a stable insertion sort: the
//! result is sorted, and splats of equal depth keep their original relative
//! order.

use vstd::prelude::*;
use crate::floatbits::{exec_f32_total_key, f32_is_nan, f32_le, f32_total_key, lemma_total_key_refines_ieee};
use crate::seqtools::{
    is_stable_sort_desc, key_class, key_eq_pred, lemma_filter_none, lemma_filter_push,
    lemma_filter_singleton, same_key_classes, sorted_desc_by_key,
};
use crate::splat::Splat;

verus! {

/// The sorting key of a splat: the total-order key of its cached depth.
pub open spec fn splat_depth_key() -> spec_fn(Splat) -> u32 {
    |s: Splat| f32_total_key(s.depth)
}

/// Stable-sorts the splat array in place, back to front: descending depth
/// under the total order on float bit patterns, splats of equal depth
/// keeping their original relative order.
pub fn sort_splats_back_to_front(splats: &mut Vec<Splat>)
    ensures
        final(splats)@.len() == old(splats)@.len(),
        is_stable_sort_desc(old(splats)@, final(splats)@, splat_depth_key()),
{
    let ghost key = splat_depth_key();
    let ghost input = splats@;
    let mut out: Vec<Splat> = Vec::new();
    proof {
        assert forall|k: u32| #[trigger] key_class(input.take(0), key, k) == key_class(
            out@,
            key,
            k,
        ) by {
            lemma_filter_none(input.take(0), key_eq_pred(key, k));
            lemma_filter_none(out@, key_eq_pred(key, k));
        }
    }
    let mut idx: usize = 0;
    while idx < splats.len()
        invariant
            key == splat_depth_key(),
            idx <= splats@.len(),
            splats@ == input,
            out@.len() == idx,
            sorted_desc_by_key(out@, key),
            same_key_classes(input.take(idx as int), out@, key),
        decreases splats@.len() - idx,
    {
        let x = splats[idx];
        let kx = exec_f32_total_key(x.depth);
        assert(key(x) == kx);
        let mut p: usize = 0;
        while p < out.len() && exec_f32_total_key(out[p].depth) >= kx
            invariant
                key == splat_depth_key(),
                kx == f32_total_key(x.depth),
                p <= out@.len(),
                forall|j: int| 0 <= j < p ==> key(out@[j]) >= kx,
            decreases out@.len() - p,
        {
            p += 1;
        }
        assert(p == out@.len() || key(out@[p as int]) < kx);
        let ghost before = out@;
        let ghost pre = before.subrange(0, p as int);
        let ghost post = before.subrange(p as int, before.len() as int);
        out.insert(p, x);
        proof {
            assert(out@ == pre.push(x) + post);
            assert(pre.push(x) + post =~= pre + seq![x] + post);
            assert(before =~= pre + post);
            // Every key in `pre` is at least `kx`; every key in `post` is
            // strictly below it.
            assert(forall|j: int| 0 <= j < pre.len() ==> key(pre[j]) >= kx);
            assert forall|j: int| 0 <= j < post.len() implies key(post[j]) < kx by {
                assert(post[j] == before[p + j]);
                if p < before.len() && p + j > p {
                    assert(key(before[p as int]) >= key(before[p + j]));
                }
            }
            assert(sorted_desc_by_key(out@, key)) by {
                assert forall|i: int, j: int| 0 <= i < j < out@.len() implies key(out@[i]) >= key(
                    out@[j],
                ) by {
                    let s = pre + seq![x] + post;
                    assert(out@[i] == s[i] && out@[j] == s[j]);
                    if i < pre.len() {
                        assert(s[i] == pre[i] && pre[i] == before[i]);
                    } else if i == pre.len() {
                        assert(s[i] == x);
                    } else {
                        assert(s[i] == post[i - pre.len() - 1]);
                    }
                    if j < pre.len() {
                        assert(s[j] == pre[j] && pre[j] == before[j]);
                    } else if j == pre.len() {
                        assert(s[j] == x);
                    } else {
                        assert(s[j] == post[j - pre.len() - 1]);
                    }
                }
            };
            let ghost taken = input.take(idx as int);
            assert(input.take(idx + 1) =~= taken.push(x));
            assert(same_key_classes(input.take(idx + 1), out@, key)) by {
                assert forall|k: u32| #[trigger] key_class(input.take(idx + 1), key, k)
                    == key_class(out@, key, k) by {
                    let pred = key_eq_pred(key, k);
                    lemma_filter_push(taken, pred, x);
                    Seq::filter_distributes_over_add(pre + seq![x], post, pred);
                    Seq::filter_distributes_over_add(pre, seq![x], pred);
                    Seq::filter_distributes_over_add(pre, post, pred);
                    lemma_filter_singleton(x, pred);
                    assert(key_class(taken, key, k) == key_class(before, key, k));
                    if k == kx {
                        lemma_filter_none(post, pred);
                        assert(pre.filter(pred) + (Seq::<Splat>::empty() + seq![x]) =~= pre.filter(
                            pred,
                        ).push(x));
                        assert((pre + seq![x] + post).filter(pred) =~= pre.filter(pred).push(x)
                            + post.filter(pred));
                        assert(post.filter(pred) =~= Seq::<Splat>::empty());
                        assert(before.filter(pred) =~= pre.filter(pred));
                        assert(key_class(out@, key, k) =~= key_class(before, key, k).push(x));
                    } else {
                        assert((pre + seq![x] + post).filter(pred) =~= pre.filter(pred)
                            + post.filter(pred));
                        assert(key_class(out@, key, k) =~= key_class(before, key, k));
                    }
                }
            };
        }
        idx += 1;
    }
    assert(input.take(input.len() as int) =~= input);
    *splats = out;
}

/// Back to front means depths never increase: in a sequence sorted
/// descending by the depths' total-order key, any two neighbouring
/// non-NaN depths satisfy `depth[i + 1] <= depth[i]` in the IEEE-754
/// order (and the sort forbids nothing here: NaN depths simply sort with
/// the total order's extremes).
pub proof fn lemma_back_to_front_depths_descend(s: Seq<Splat>)
    requires
        sorted_desc_by_key(s, splat_depth_key()),
    ensures
        forall|i: int|
            0 <= i < s.len() - 1 && !f32_is_nan((#[trigger] s[i]).depth) && !f32_is_nan(
                s[i + 1].depth,
            ) ==> f32_le(s[i + 1].depth, s[i].depth),
{
    let key = splat_depth_key();
    assert forall|i: int|
        0 <= i < s.len() - 1 && !f32_is_nan((#[trigger] s[i]).depth) && !f32_is_nan(
            s[i + 1].depth,
        ) implies f32_le(s[i + 1].depth, s[i].depth) by {
        assert(key(s[i]) >= key(s[i + 1]));
        lemma_total_key_refines_ieee(s[i + 1].depth, s[i].depth);
        if f32_total_key(s[i + 1].depth) == f32_total_key(s[i].depth) {
            assert(s[i + 1].depth == s[i].depth);
        }
    }
}

} // verus!
