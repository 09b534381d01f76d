//! The depth-sort and cull engine.
//!
//! Per frame: refresh every splat's depth from the current camera, collect
//! the visible indices, then order them back to front by the configured
//! strategy. The host strategy sorts the splat array itself; the device
//! strategies build (key, index) entries whose ascending radix order is
//! back-to-front depth order, and the indirect-draw variant appends the
//! argument block the draw call reads from the device buffer.

use vstd::prelude::*;
use crate::config::{Config, DepthSorting, INDIRECT_ARG_WORDS};
use crate::cpusort::{sort_splats_back_to_front, splat_depth_key};
use crate::cull::{refresh_depths, spec_depth_of, spec_visible_indices, spec_with_depth, visible_indices};
use crate::floatbits::{exec_f32_total_key, f32_total_key};
use crate::radix::{entry_key, radix_sort, SortEntry};
use crate::scene::Camera;
use crate::seqtools::is_stable_sort_desc;
use crate::splat::Splat;

verus! {

/// Vertices of the quad the vertex stage expands each splat into.
pub const QUAD_VERTEX_COUNT: u32 = 6;

/// The device sorting key of a depth: ascending key order is descending
/// (back-to-front) depth order under the total order on float bits.
pub open spec fn back_to_front_key(depth: u32) -> u32 {
    (0xFFFF_FFFFu32 - f32_total_key(depth)) as u32
}

/// Computes the device sorting key of a depth.
pub fn exec_back_to_front_key(depth: u32) -> (r: u32)
    ensures
        r == back_to_front_key(depth),
{
    0xFFFF_FFFFu32 - exec_f32_total_key(depth)
}

/// Ascending device keys are descending total-order depth keys: the radix
/// order of the entries is back-to-front depth order.
pub proof fn lemma_back_to_front_key_flips(a: u32, b: u32)
    ensures
        back_to_front_key(a) <= back_to_front_key(b) <==> f32_total_key(a) >= f32_total_key(b),
{
}

/// The splat sequence with every depth refreshed under the given camera.
pub open spec fn spec_refreshed(proj: Seq<u32>, view: Seq<u32>, splats: Seq<Splat>) -> Seq<Splat> {
    Seq::new(
        splats.len(),
        |i: int| spec_with_depth(splats[i], spec_depth_of(proj, view, splats[i])),
    )
}

/// Builds one sorting-buffer entry per visible index: the depth's device
/// key paired with the splat index.
pub fn build_sort_entries(splats: &Vec<Splat>, visible: &Vec<usize>) -> (r: Vec<SortEntry>)
    requires
        forall|j: int| 0 <= j < visible@.len() ==> #[trigger] visible@[j] < splats@.len(),
        splats@.len() <= u32::MAX,
    ensures
        r@.len() == visible@.len(),
        forall|j: int|
            0 <= j < visible@.len() ==> #[trigger] r@[j] == (SortEntry {
                key: back_to_front_key(splats@[visible@[j] as int].depth),
                index: visible@[j] as u32,
            }),
{
    let mut r: Vec<SortEntry> = Vec::new();
    let mut j: usize = 0;
    while j < visible.len()
        invariant
            forall|q: int| 0 <= q < visible@.len() ==> #[trigger] visible@[q] < splats@.len(),
            splats@.len() <= u32::MAX,
            j <= visible@.len(),
            r@.len() == j,
            forall|q: int|
                0 <= q < j ==> #[trigger] r@[q] == (SortEntry {
                    key: back_to_front_key(splats@[visible@[q] as int].depth),
                    index: visible@[q] as u32,
                }),
        decreases visible@.len() - j,
    {
        let idx = visible[j];
        let e = SortEntry {
            key: exec_back_to_front_key(splats[idx].depth),
            index: idx as u32,
        };
        r.push(e);
        j += 1;
    }
    r
}

/// The five-word indirect-draw argument block for a visible count: six
/// vertices per instance, one instance per visible splat, and zeroed
/// first-vertex, first-instance and reserved words.
pub fn build_indirect_args(visible_count: u32) -> (r: [u32; 5])
    ensures
        r@ =~= seq![QUAD_VERTEX_COUNT, visible_count, 0u32, 0u32, 0u32],
{
    [QUAD_VERTEX_COUNT, visible_count, 0, 0, 0]
}

/// The sorting buffer's word image: each entry as its key word then its
/// index word, and, when the indirect-draw path is on, the trailing
/// argument block for the visible count.
pub fn sorting_buffer_words(sorted: &Vec<SortEntry>, with_indirect: bool) -> (r: Vec<u32>)
    requires
        sorted@.len() <= u32::MAX,
    ensures
        r@.len() == 2 * sorted@.len() + if with_indirect {
            INDIRECT_ARG_WORDS as int
        } else {
            0int
        },
        forall|j: int|
            0 <= j < sorted@.len() ==> r@[2 * j] == (#[trigger] sorted@[j]).key && r@[2 * j + 1]
                == sorted@[j].index,
        with_indirect ==> r@.skip(2 * sorted@.len() as int) =~= seq![
            QUAD_VERTEX_COUNT,
            sorted@.len() as u32,
            0u32,
            0u32,
            0u32,
        ],
{
    let mut r: Vec<u32> = Vec::new();
    let mut j: usize = 0;
    while j < sorted.len()
        invariant
            j <= sorted@.len(),
            r@.len() == 2 * j,
            forall|q: int|
                0 <= q < j ==> r@[2 * q] == (#[trigger] sorted@[q]).key && r@[2 * q + 1]
                    == sorted@[q].index,
        decreases sorted@.len() - j,
    {
        r.push(sorted[j].key);
        r.push(sorted[j].index);
        j += 1;
    }
    if with_indirect {
        let args = build_indirect_args(sorted.len() as u32);
        r.push(args[0]);
        r.push(args[1]);
        r.push(args[2]);
        r.push(args[3]);
        r.push(args[4]);
        assert(r@.skip(2 * sorted@.len() as int) =~= seq![
            QUAD_VERTEX_COUNT,
            sorted@.len() as u32,
            0u32,
            0u32,
            0u32,
        ]);
    }
    r
}

/// What one frame of the engine produced: the visible indices in original
/// order and, for the device strategies, the sorted entry buffer.
pub struct FrameOrder {
    /// Indices of the visible splats, in original (file) order.
    pub visible: Vec<usize>,
    /// For the device strategies: the (key, index) entries in sorted,
    /// back-to-front order. Empty for the host strategy, whose order lives
    /// in the splat array itself.
    pub sorted_entries: Vec<SortEntry>,
}

/// Runs one frame of the engine: refreshes every depth from the camera,
/// collects the visible set, and orders it by the configured strategy.
///
/// For the host strategy the splat array itself ends up back-to-front
/// (stable, equal depths keeping file order) and `visible` indexes that
/// sorted array. For the device strategies the array keeps its refreshed
/// order, `visible` indexes it, and `sorted_entries` is the stable
/// ascending radix order of the visible entries' device keys — that is,
/// back-to-front depth order. An empty scene yields empty outputs and no
/// error.
pub fn depth_sort_and_cull(splats: &mut Vec<Splat>, camera: &Camera, config: &Config) -> (r:
    FrameOrder)
    requires
        config.wf(),
        old(splats)@.len() <= u32::MAX,
    ensures
        final(splats)@.len() == old(splats)@.len(),
        config.depth_sorting == DepthSorting::Cpu ==> is_stable_sort_desc(
            spec_refreshed(camera.projection@, camera.view@, old(splats)@),
            final(splats)@,
            splat_depth_key(),
        ),
        config.depth_sorting != DepthSorting::Cpu ==> final(splats)@ == spec_refreshed(
            camera.projection@,
            camera.view@,
            old(splats)@,
        ),
        r.visible@ == spec_visible_indices(
            camera.projection@,
            camera.view@,
            final(splats)@,
            config.frustum_culling_tolerance,
        ),
        forall|j: int|
            0 <= j < r.visible@.len() ==> #[trigger] r.visible@[j] < final(splats)@.len(),
        config.depth_sorting == DepthSorting::Cpu ==> r.sorted_entries@.len() == 0,
        config.depth_sorting != DepthSorting::Cpu ==> {
            &&& r.sorted_entries@.len() == r.visible@.len()
            &&& crate::seqtools::is_stable_sort_asc(
                Seq::new(
                    r.visible@.len(),
                    |j: int| SortEntry {
                        key: back_to_front_key(final(splats)@[r.visible@[j] as int].depth),
                        index: r.visible@[j] as u32,
                    },
                ),
                r.sorted_entries@,
                entry_key(),
            )
        },
{
    refresh_depths(splats, camera);
    proof {
        assert(splats@ =~= spec_refreshed(camera.projection@, camera.view@, old(splats)@));
    }
    if matches!(config.depth_sorting, DepthSorting::Cpu) {
        sort_splats_back_to_front(splats);
        let visible = visible_indices(splats, camera, config.frustum_culling_tolerance);
        FrameOrder { visible, sorted_entries: Vec::new() }
    } else {
        let visible = visible_indices(splats, camera, config.frustum_culling_tolerance);
        let entries = build_sort_entries(splats, &visible);
        proof {
            assert(entries@ =~= Seq::new(
                visible@.len(),
                |j: int| SortEntry {
                    key: back_to_front_key(splats@[visible@[j] as int].depth),
                    index: visible@[j] as u32,
                },
            ));
        }
        let sorted_entries = radix_sort(&entries, config.radix_bits_per_digit);
        FrameOrder { visible, sorted_entries }
    }
}

} // verus!
