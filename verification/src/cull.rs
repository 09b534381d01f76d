//! Per-frame depth refresh and frustum culling.
//!
//! Every frame the cached depths are recomputed from the current camera —
//! the camera may have moved — and the visible set is collected: a splat is
//! visible exactly when its clip-space z lies strictly inside (0, 1) and
//! the magnitudes of clip-space x and y are strictly below the configured
//! tolerance. Comparisons are IEEE-754 comparisons, so a splat whose
//! projection holds a NaN is never visible.

use vstd::prelude::*;
use crate::floatbits::{
    exec_f32_abs_bits, exec_f32_lt, f32_abs_bits, f32_lt, F32_ONE_BITS, F32_ZERO_BITS,
};
use crate::scene::{spec_clip_space_position, Camera};
use crate::seqtools::{lemma_filter_none, lemma_filter_push};
use crate::splat::Splat;

verus! {

/// A splat with its cached depth replaced.
pub open spec fn spec_with_depth(sp: Splat, d: u32) -> Splat {
    Splat { depth: d, ..sp }
}

/// The freshly computed depth of a splat: the z component of its center's
/// clip-space position under the given camera matrices.
pub open spec fn spec_depth_of(proj: Seq<u32>, view: Seq<u32>, sp: Splat) -> u32 {
    spec_clip_space_position(proj, view, sp.center@)[2]
}

/// Whether a clip-space position lies inside the view frustum: z strictly
/// inside (0, 1), |x| and |y| strictly below the tolerance.
pub open spec fn spec_visible_clip(clip: Seq<u32>, tol: u32) -> bool {
    &&& f32_lt(F32_ZERO_BITS, clip[2])
    &&& f32_lt(clip[2], F32_ONE_BITS)
    &&& f32_lt(f32_abs_bits(clip[0]), tol)
    &&& f32_lt(f32_abs_bits(clip[1]), tol)
}

/// Whether a splat's center projects inside the frustum.
pub open spec fn spec_splat_visible(proj: Seq<u32>, view: Seq<u32>, sp: Splat, tol: u32) -> bool {
    spec_visible_clip(spec_clip_space_position(proj, view, sp.center@), tol)
}

/// The predicate "the splat at this index is visible".
pub open spec fn visible_pred(proj: Seq<u32>, view: Seq<u32>, splats: Seq<Splat>, tol: u32) -> spec_fn(
    usize,
) -> bool {
    |i: usize| spec_splat_visible(proj, view, splats[i as int], tol)
}

/// The visible indices in original order: the index sequence `0, 1, ..`
/// filtered by visibility.
pub open spec fn spec_visible_indices(
    proj: Seq<u32>,
    view: Seq<u32>,
    splats: Seq<Splat>,
    tol: u32,
) -> Seq<usize> {
    Seq::new(splats.len(), |i: int| i as usize).filter(visible_pred(proj, view, splats, tol))
}

/// Decides visibility of one clip-space position.
pub fn clip_visible(clip: &[u32; 3], tol: u32) -> (r: bool)
    ensures
        r == spec_visible_clip(clip@, tol),
{
    exec_f32_lt(F32_ZERO_BITS, clip[2]) && exec_f32_lt(clip[2], F32_ONE_BITS) && exec_f32_lt(
        exec_f32_abs_bits(clip[0]),
        tol,
    ) && exec_f32_lt(exec_f32_abs_bits(clip[1]), tol)
}

/// Decides visibility of one splat under the given camera.
pub fn splat_visible(camera: &Camera, sp: &Splat, tol: u32) -> (r: bool)
    ensures
        r == spec_splat_visible(camera.projection@, camera.view@, *sp, tol),
{
    let clip = camera.get_clip_space_position(&sp.center);
    clip_visible(&clip, tol)
}

/// Recomputes every splat's cached depth from the current camera; nothing
/// else about any splat changes, and the order is untouched.
pub fn refresh_depths(splats: &mut Vec<Splat>, camera: &Camera)
    ensures
        final(splats)@.len() == old(splats)@.len(),
        forall|i: int|
            0 <= i < old(splats)@.len() ==> final(splats)@[i] == spec_with_depth(
                #[trigger] old(splats)@[i],
                spec_depth_of(camera.projection@, camera.view@, old(splats)@[i]),
            ),
{
    let ghost input = splats@;
    let mut i: usize = 0;
    while i < splats.len()
        invariant
            i <= input.len(),
            splats@.len() == input.len(),
            forall|j: int|
                i <= j < input.len() ==> #[trigger] splats@[j] == input[j],
            forall|j: int|
                0 <= j < i ==> #[trigger] splats@[j] == spec_with_depth(
                    input[j],
                    spec_depth_of(camera.projection@, camera.view@, input[j]),
                ),
        decreases input.len() - i,
    {
        let sp = splats[i];
        let clip = camera.get_clip_space_position(&sp.center);
        let refreshed = Splat { depth: clip[2], ..sp };
        splats.set(i, refreshed);
        i += 1;
    }
}

/// Collects the indices of the visible splats, in original order.
///
/// The result is exactly the index sequence filtered by visibility: a
/// splat's index appears if and only if its clip-space position is inside
/// the frustum, indices stay strictly increasing, and every entry is in
/// range.
pub fn visible_indices(splats: &Vec<Splat>, camera: &Camera, tol: u32) -> (r: Vec<usize>)
    ensures
        r@ == spec_visible_indices(camera.projection@, camera.view@, splats@, tol),
        forall|j: int|
            0 <= j < r@.len() ==> #[trigger] r@[j] < splats@.len() && spec_splat_visible(
                camera.projection@,
                camera.view@,
                splats@[r@[j] as int],
                tol,
            ),
        forall|j1: int, j2: int| 0 <= j1 < j2 < r@.len() ==> r@[j1] < r@[j2],
        forall|i: int|
            0 <= i < splats@.len() && spec_splat_visible(
                camera.projection@,
                camera.view@,
                #[trigger] splats@[i],
                tol,
            ) ==> r@.contains(i as usize),
{
    let ghost proj = camera.projection@;
    let ghost view = camera.view@;
    let ghost pred = visible_pred(proj, view, splats@, tol);
    let ghost idxseq = Seq::new(splats@.len(), |i: int| i as usize);
    let mut r: Vec<usize> = Vec::new();
    proof {
        lemma_filter_none(idxseq.take(0), pred);
        assert(idxseq.take(0).filter(pred) =~= r@);
    }
    let mut i: usize = 0;
    while i < splats.len()
        invariant
            proj == camera.projection@,
            view == camera.view@,
            pred == visible_pred(proj, view, splats@, tol),
            idxseq == Seq::new(splats@.len(), |i: int| i as usize),
            i <= splats@.len(),
            r@ == idxseq.take(i as int).filter(pred),
            forall|j: int|
                0 <= j < r@.len() ==> #[trigger] r@[j] < i && spec_splat_visible(
                    proj,
                    view,
                    splats@[r@[j] as int],
                    tol,
                ),
            forall|j1: int, j2: int| 0 <= j1 < j2 < r@.len() ==> r@[j1] < r@[j2],
            forall|k: int|
                0 <= k < i && spec_splat_visible(proj, view, #[trigger] splats@[k], tol)
                    ==> r@.contains(k as usize),
        decreases splats@.len() - i,
    {
        let visible = splat_visible(camera, &splats[i], tol);
        proof {
            assert(idxseq.take(i + 1) =~= idxseq.take(i as int).push(i as usize));
            lemma_filter_push(idxseq.take(i as int), pred, i as usize);
            assert(pred(i as usize) == spec_splat_visible(proj, view, splats@[i as int], tol));
        }
        let ghost before = r@;
        if visible {
            r.push(i);
            proof {
                assert forall|k: int|
                    0 <= k < i + 1 && spec_splat_visible(proj, view, #[trigger] splats@[k], tol)
                        implies r@.contains(k as usize) by {
                    if k < i {
                        assert(before.contains(k as usize));
                        let w = choose|w: int| 0 <= w < before.len() && before[w] == k as usize;
                        assert(r@[w] == k as usize);
                    } else {
                        assert(r@[r@.len() - 1] == i as usize);
                    }
                }
            }
        }
        i += 1;
    }
    proof {
        assert(idxseq.take(idxseq.len() as int) =~= idxseq);
    }
    r
}

} // verus!
