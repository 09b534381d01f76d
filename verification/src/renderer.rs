//! The renderer's device-side state machine and per-frame plan.
//!
//! The renderer owns no device handles itself; it is the verified core of
//! the pipeline bookkeeping. Its lifecycle is an explicit state machine —
//! `Uninitialized -> PipelineReady -> BuffersReady` — and every operation
//! names the state it needs and fails fast out of order, instead of
//! spreading "maybe built yet" across nullable fields. What it hands the
//! host is plain data: the pipeline settings to build, the buffer sizes to
//! allocate, and for each frame the uniform words to upload, the compute
//! dispatches to record, and the draw call to issue.

use vstd::prelude::*;
use crate::config::{Config, DepthSorting, SurfaceFormat};
use crate::engine::QUAD_VERTEX_COUNT;
use crate::fmath::{u32_to_f32_bits, u32_to_f32_of};
use crate::scene::Camera;

verus! {

/// Entries each sorting workgroup scans in the histogram and scatter
/// passes.
pub const WORKGROUP_ENTRIES: u32 = 256;

/// Words in the uniform block: two 4x4 matrices, four scalar parameters
/// and four counts.
pub const UNIFORM_WORDS: usize = 40;

/// The renderer's lifecycle state.
#[derive(Clone, Copy, Debug, PartialEq, Eq, Structural)]
pub enum RendererState {
    /// Nothing built yet; only initialization may run.
    Uninitialized,
    /// Pipeline objects described; buffers not yet sized.
    PipelineReady,
    /// Buffers sized; frames may run.
    BuffersReady,
}

/// An operation ran in a state it does not accept.
#[derive(Clone, Copy, Debug, PartialEq, Eq, Structural)]
pub struct InvalidState;

/// Depth-test comparison the render pipeline uses.
#[derive(Clone, Copy, Debug, PartialEq, Eq, Structural)]
pub enum DepthCompare {
    /// Pass when the fragment is nearer.
    Less,
}

/// What the host must build the render pipeline from: the fixed choices of
/// this renderer — point-list topology expanded to quads in the vertex
/// stage, alpha blending, back-face culling, a 32-bit float depth buffer
/// compared with `Less` — plus the surface's own format.
#[derive(Clone, Copy, Debug, PartialEq, Eq, Structural)]
pub struct PipelineSettings {
    /// Color target format, from the surface configuration.
    pub color_format: SurfaceFormat,
    /// Alpha blending on.
    pub alpha_blending: bool,
    /// Back-face culling on.
    pub cull_back_faces: bool,
    /// 32-bit float depth buffer in use.
    pub depth_32_float: bool,
    /// Depth-test comparison.
    pub depth_compare: DepthCompare,
    /// Whether the three sorting compute pipelines are built too.
    pub with_sorting_pipelines: bool,
}

/// The buffer sizes the host must allocate, in bytes.
#[derive(Clone, Copy, Debug, PartialEq, Eq, Structural)]
pub struct BufferPlan {
    /// The uniform block.
    pub uniform_bytes: u64,
    /// The per-splat entry buffer, sized to the configured maximum.
    pub splat_bytes: u64,
    /// The sorting buffer: entries up to the maximum plus the trailing
    /// indirect-argument words.
    pub sorting_bytes: u64,
}

/// The compute dispatches of one frame's sort: histogram and scatter
/// passes scale with the splat count; the prefix-sum pass is one workgroup
/// per digit place.
#[derive(Clone, Copy, Debug, PartialEq, Eq, Structural)]
pub struct SortDispatch {
    /// Workgroups of the histogram pass.
    pub histogram_groups: u32,
    /// Workgroups of the prefix-sum pass.
    pub prefix_groups: u32,
    /// Workgroups of each scatter round.
    pub scatter_groups: u32,
    /// Scatter rounds: one per digit place.
    pub scatter_rounds: u32,
}

/// The draw call of one frame.
#[derive(Clone, Copy, Debug, PartialEq, Eq, Structural)]
pub enum DrawCall {
    /// Host-supplied arguments: a quad per instance.
    Direct {
        /// Vertices per instance.
        vertex_count: u32,
        /// Instances: the visible splat count.
        instance_count: u32,
    },
    /// Arguments read from the sorting buffer at the given byte offset.
    Indirect {
        /// Byte offset of the argument block in the sorting buffer.
        buffer_offset: u64,
    },
}

/// Everything the host records for one frame.
pub struct FramePlan {
    /// The words to upload to the uniform buffer.
    pub uniforms: Vec<u32>,
    /// The sort dispatches, for the device strategies.
    pub dispatch: Option<SortDispatch>,
    /// The draw call.
    pub draw: DrawCall,
}

/// The uniform block, word for word: the projection matrix, the view
/// matrix, `[z_near, z_far, frustum_tolerance, ellipse_margin]`, then
/// `[splat_scale, splat_count, visible_count, 0]` with the counts
/// converted to floats.
pub open spec fn spec_uniform_words(
    camera: Camera,
    config: Config,
    splat_count: u32,
    visible_count: u32,
) -> Seq<u32> {
    camera.projection@ + camera.view@ + seq![
        camera.z_near,
        camera.z_far,
        config.frustum_culling_tolerance,
        config.ellipse_margin,
    ] + seq![
        config.splat_scale,
        u32_to_f32_of(splat_count),
        u32_to_f32_of(visible_count),
        0u32,
    ]
}

/// Packs the uniform block.
pub fn pack_uniforms(camera: &Camera, config: &Config, splat_count: u32, visible_count: u32) -> (r:
    Vec<u32>)
    ensures
        r@ =~= spec_uniform_words(*camera, *config, splat_count, visible_count),
        r@.len() == UNIFORM_WORDS,
{
    let mut r: Vec<u32> = Vec::new();
    let mut i: usize = 0;
    while i < 16
        invariant
            i <= 16,
            r@ =~= camera.projection@.take(i as int),
        decreases 16 - i,
    {
        r.push(camera.projection[i]);
        i += 1;
    }
    let mut i: usize = 0;
    while i < 16
        invariant
            i <= 16,
            r@ =~= camera.projection@ + camera.view@.take(i as int),
        decreases 16 - i,
    {
        r.push(camera.view[i]);
        i += 1;
    }
    r.push(camera.z_near);
    r.push(camera.z_far);
    r.push(config.frustum_culling_tolerance);
    r.push(config.ellipse_margin);
    r.push(config.splat_scale);
    r.push(u32_to_f32_bits(splat_count));
    r.push(u32_to_f32_bits(visible_count));
    r.push(0);
    assert(r@ =~= spec_uniform_words(*camera, *config, splat_count, visible_count));
    r
}

/// Workgroups needed to cover `count` entries: `ceil(count / entries per
/// workgroup)`.
pub fn workgroup_count(count: u32) -> (r: u32)
    ensures
        r as int == (count as int + WORKGROUP_ENTRIES as int - 1) / (WORKGROUP_ENTRIES as int),
{
    let wide = ((count as u64) + (WORKGROUP_ENTRIES as u64) - 1) / (WORKGROUP_ENTRIES as u64);
    assert(wide <= 0x100_0000);
    wide as u32
}

/// The renderer: the configuration it was built with and where in its
/// lifecycle it stands.
pub struct Renderer {
    /// The configuration; read-only for this renderer's lifetime.
    pub config: Config,
    /// The lifecycle state.
    pub state: RendererState,
}

impl Renderer {
    /// A fresh renderer: nothing built, configuration stored.
    pub fn new(config: Config) -> (r: Renderer)
        ensures
            r.config == config,
            r.state == RendererState::Uninitialized,
    {
        Renderer { config, state: RendererState::Uninitialized }
    }

    /// Describes the pipeline objects to build and moves to
    /// `PipelineReady`. Fails fast, changing nothing, out of
    /// `Uninitialized`. A host whose device refuses the described
    /// objects calls [`Self::cleanup`], which returns the renderer to
    /// `Uninitialized`, so no frame can run against a partially built
    /// pipeline.
    pub fn initialize(&mut self) -> (r: Result<PipelineSettings, InvalidState>)
        ensures
            final(self).config == old(self).config,
            match r {
                Ok(settings) => {
                    &&& old(self).state == RendererState::Uninitialized
                    &&& final(self).state == RendererState::PipelineReady
                    &&& settings == (PipelineSettings {
                        color_format: old(self).config.surface_configuration.format,
                        alpha_blending: true,
                        cull_back_faces: true,
                        depth_32_float: true,
                        depth_compare: DepthCompare::Less,
                        with_sorting_pipelines: old(self).config.depth_sorting
                            != DepthSorting::Cpu,
                    })
                },
                Err(_) => {
                    &&& old(self).state != RendererState::Uninitialized
                    &&& *final(self) == *old(self)
                },
            },
    {
        if !matches!(self.state, RendererState::Uninitialized) {
            return Err(InvalidState);
        }
        self.state = RendererState::PipelineReady;
        Ok(
            PipelineSettings {
                color_format: self.config.surface_configuration.format,
                alpha_blending: true,
                cull_back_faces: true,
                depth_32_float: true,
                depth_compare: DepthCompare::Less,
                with_sorting_pipelines: !matches!(self.config.depth_sorting, DepthSorting::Cpu),
            },
        )
    }

    /// Sizes the persistent buffers and moves to `BuffersReady`. Fails
    /// fast, changing nothing, out of `PipelineReady`.
    pub fn create_buffers(&mut self) -> (r: Result<BufferPlan, InvalidState>)
        ensures
            final(self).config == old(self).config,
            match r {
                Ok(plan) => {
                    &&& old(self).state == RendererState::PipelineReady
                    &&& final(self).state == RendererState::BuffersReady
                    &&& plan.uniform_bytes == 4 * UNIFORM_WORDS
                    &&& plan.splat_bytes == old(self).config.max_splat_count as int * 72
                    &&& plan.sorting_bytes == old(self).config.max_splat_count as int * 8 + 20
                },
                Err(_) => {
                    &&& old(self).state != RendererState::PipelineReady
                    &&& *final(self) == *old(self)
                },
            },
    {
        if !matches!(self.state, RendererState::PipelineReady) {
            return Err(InvalidState);
        }
        self.state = RendererState::BuffersReady;
        Ok(
            BufferPlan {
                uniform_bytes: (4 * UNIFORM_WORDS) as u64,
                splat_bytes: (self.config.max_splat_count as u64) * 72,
                sorting_bytes: self.config.sorting_buffer_bytes(),
            },
        )
    }

    /// Plans one frame: the uniform words to upload, the sort dispatches
    /// for the device strategies, and the draw call — direct with a
    /// host-supplied visible count, or, on the indirect path, reading its
    /// arguments from the tail of the sorting buffer. Fails fast, changing
    /// nothing, out of `BuffersReady`.
    pub fn render(&self, camera: &Camera, splat_count: u32, visible_count: u32) -> (r: Result<
        FramePlan,
        InvalidState,
    >)
        requires
            self.config.wf(),
        ensures
            match r {
                Ok(plan) => {
                    &&& self.state == RendererState::BuffersReady
                    &&& plan.uniforms@ == spec_uniform_words(
                        *camera,
                        self.config,
                        splat_count,
                        visible_count,
                    )
                    &&& (self.config.depth_sorting == DepthSorting::Cpu <==> plan.dispatch
                        is None)
                    &&& plan.dispatch matches Some(d) ==> {
                        &&& d.histogram_groups as int == (splat_count as int
                            + WORKGROUP_ENTRIES as int - 1) / (WORKGROUP_ENTRIES as int)
                        &&& d.scatter_groups == d.histogram_groups
                        &&& d.prefix_groups as int == (32 + self.config.radix_bits_per_digit as int
                            - 1) / (self.config.radix_bits_per_digit as int)
                        &&& d.scatter_rounds == d.prefix_groups
                    }
                    &&& plan.draw == (match self.config.depth_sorting {
                        DepthSorting::GpuIndirectDraw => DrawCall::Indirect {
                            buffer_offset: (self.config.max_splat_count * 8) as u64,
                        },
                        _ => DrawCall::Direct {
                            vertex_count: QUAD_VERTEX_COUNT,
                            instance_count: visible_count,
                        },
                    })
                },
                Err(_) => self.state != RendererState::BuffersReady,
            },
    {
        if !matches!(self.state, RendererState::BuffersReady) {
            return Err(InvalidState);
        }
        let uniforms = pack_uniforms(camera, &self.config, splat_count, visible_count);
        let dispatch: Option<SortDispatch> = if matches!(
            self.config.depth_sorting,
            DepthSorting::Cpu,
        ) {
            None
        } else {
            let groups = workgroup_count(splat_count);
            let places = self.config.radix_digit_places();
            Some(
                SortDispatch {
                    histogram_groups: groups,
                    prefix_groups: places,
                    scatter_groups: groups,
                    scatter_rounds: places,
                },
            )
        };
        let draw = if matches!(self.config.depth_sorting, DepthSorting::GpuIndirectDraw) {
            DrawCall::Indirect { buffer_offset: (self.config.max_splat_count as u64) * 8 }
        } else {
            DrawCall::Direct {
                vertex_count: QUAD_VERTEX_COUNT,
                instance_count: visible_count,
            }
        };
        Ok(FramePlan { uniforms, dispatch, draw })
    }

    /// Releases everything the renderer stands for and returns to
    /// `Uninitialized`. Safe in any state and idempotent: a second call
    /// changes nothing more.
    pub fn cleanup(&mut self)
        ensures
            final(self).config == old(self).config,
            final(self).state == RendererState::Uninitialized,
    {
        self.state = RendererState::Uninitialized;
    }
}

} // verus!
