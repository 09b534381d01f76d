//! Tests of the renderer state machine, the uniform block, the sorting
//! buffer layout and the engine's frame orchestration.

use splatter::config::{Config, DepthSorting, PresentMode, SurfaceFormat};
use splatter::engine::{
    build_indirect_args, build_sort_entries, depth_sort_and_cull, sorting_buffer_words,
};
use splatter::radix::SortEntry;
use splatter::renderer::{DrawCall, PipelineSettings, Renderer, RendererState, DepthCompare};
use splatter::scene::{Camera, Scene};
use splatter::splat::{ShaderSplat, Splat, SplatEntry};

fn identity_camera() -> Camera {
    let mut m = [0u32; 16];
    m[0] = 1.0f32.to_bits();
    m[5] = 1.0f32.to_bits();
    m[10] = 1.0f32.to_bits();
    m[15] = 1.0f32.to_bits();
    Camera { projection: m, view: m, z_near: 0.1f32.to_bits(), z_far: 100.0f32.to_bits() }
}

fn splat_at(x: f32, y: f32, z: f32) -> Splat {
    Splat {
        model_matrix: [0; 16],
        center: [x.to_bits(), y.to_bits(), z.to_bits()],
        color: [0; 4],
        depth: 0,
        scale: [0; 2],
        normal: [0; 3],
        ellipse_basis: [0; 3],
    }
}

#[test]
fn default_config_matches_documented_values() {
    let c = Config::default();
    assert_eq!(c.depth_sorting, DepthSorting::Cpu);
    assert_eq!(c.surface_configuration.format, SurfaceFormat::Bgra8UnormSrgb);
    assert_eq!(c.surface_configuration.width, 800);
    assert_eq!(c.surface_configuration.height, 600);
    assert_eq!(c.surface_configuration.present_mode, PresentMode::Immediate);
    assert_eq!(c.max_splat_count, 10000);
    assert_eq!(c.radix_bits_per_digit, 1);
    assert_eq!(c.frustum_culling_tolerance, 0.1f32.to_bits());
    assert_eq!(c.ellipse_margin, 0.01f32.to_bits());
    assert_eq!(c.splat_scale, 1.0f32.to_bits());
    assert_eq!(c.spherical_harmonics_order, 0);
}

#[test]
fn derived_radix_sizes() {
    let mut c = Config::default();
    c.radix_bits_per_digit = 1;
    assert_eq!(c.radix_base(), 2);
    assert_eq!(c.radix_digit_places(), 32);
    c.radix_bits_per_digit = 4;
    assert_eq!(c.radix_base(), 16);
    assert_eq!(c.radix_digit_places(), 8);
    c.radix_bits_per_digit = 8;
    assert_eq!(c.radix_base(), 256);
    assert_eq!(c.radix_digit_places(), 4);
    c.radix_bits_per_digit = 5;
    assert_eq!(c.radix_base(), 32);
    assert_eq!(c.radix_digit_places(), 7);
    c.max_splat_count = 1000;
    assert_eq!(c.sorting_buffer_bytes(), 1000 * 8 + 20);
}

#[test]
fn indirect_argument_block_words() {
    assert_eq!(build_indirect_args(0), [6, 0, 0, 0, 0]);
    assert_eq!(build_indirect_args(12345), [6, 12345, 0, 0, 0]);
}

#[test]
fn sorting_buffer_layout_with_and_without_indirect_args() {
    let entries = vec![
        SortEntry { key: 10, index: 2 },
        SortEntry { key: 20, index: 0 },
    ];
    let plain = sorting_buffer_words(&entries, false);
    assert_eq!(plain, vec![10, 2, 20, 0]);
    let indirect = sorting_buffer_words(&entries, true);
    assert_eq!(indirect, vec![10, 2, 20, 0, 6, 2, 0, 0, 0]);
}

#[test]
fn renderer_state_machine_orders_operations() {
    let mut r = Renderer::new(Config::default());
    assert_eq!(r.state, RendererState::Uninitialized);
    // Out of order: buffers and frames before the pipeline fail fast.
    assert!(r.create_buffers().is_err());
    assert!(r.render(&identity_camera(), 0, 0).is_err());

    let settings: PipelineSettings = r.initialize().unwrap();
    assert_eq!(r.state, RendererState::PipelineReady);
    assert_eq!(settings.color_format, SurfaceFormat::Bgra8UnormSrgb);
    assert!(settings.alpha_blending);
    assert!(settings.cull_back_faces);
    assert!(settings.depth_32_float);
    assert_eq!(settings.depth_compare, DepthCompare::Less);
    assert!(!settings.with_sorting_pipelines);
    // A second initialization is out of order.
    assert!(r.initialize().is_err());

    let buffers = r.create_buffers().unwrap();
    assert_eq!(r.state, RendererState::BuffersReady);
    assert_eq!(buffers.uniform_bytes, 160);
    assert_eq!(buffers.splat_bytes, 10000 * 72);
    assert_eq!(buffers.sorting_bytes, 10000 * 8 + 20);

    r.cleanup();
    assert_eq!(r.state, RendererState::Uninitialized);
    r.cleanup();
    assert_eq!(r.state, RendererState::Uninitialized);
}

#[test]
fn frame_plan_uniform_block_is_bit_exact() {
    let mut r = Renderer::new(Config::default());
    r.initialize().unwrap();
    r.create_buffers().unwrap();
    let cam = identity_camera();
    let plan = r.render(&cam, 7, 3).unwrap();
    let words = &plan.uniforms;
    assert_eq!(words.len(), 40);
    for k in 0..16 {
        assert_eq!(words[k], cam.projection[k]);
        assert_eq!(words[16 + k], cam.view[k]);
    }
    assert_eq!(words[32], 0.1f32.to_bits());
    assert_eq!(words[33], 100.0f32.to_bits());
    assert_eq!(words[34], 0.1f32.to_bits());
    assert_eq!(words[35], 0.01f32.to_bits());
    assert_eq!(words[36], 1.0f32.to_bits());
    assert_eq!(words[37], 7.0f32.to_bits());
    assert_eq!(words[38], 3.0f32.to_bits());
    assert_eq!(words[39], 0);
    assert!(plan.dispatch.is_none());
    assert_eq!(plan.draw, DrawCall::Direct { vertex_count: 6, instance_count: 3 });
}

#[test]
fn frame_plan_for_device_strategies() {
    let mut config = Config::default();
    config.depth_sorting = DepthSorting::Gpu;
    config.radix_bits_per_digit = 4;
    let mut r = Renderer::new(config);
    r.initialize().unwrap();
    r.create_buffers().unwrap();
    let plan = r.render(&identity_camera(), 1000, 900).unwrap();
    let d = plan.dispatch.unwrap();
    assert_eq!(d.histogram_groups, 4); // ceil(1000 / 256)
    assert_eq!(d.scatter_groups, 4);
    assert_eq!(d.prefix_groups, 8); // one per digit place
    assert_eq!(d.scatter_rounds, 8);
    assert_eq!(plan.draw, DrawCall::Direct { vertex_count: 6, instance_count: 900 });

    let mut config = Config::default();
    config.depth_sorting = DepthSorting::GpuIndirectDraw;
    let mut r = Renderer::new(config);
    let settings = r.initialize().unwrap();
    assert!(settings.with_sorting_pipelines);
    r.create_buffers().unwrap();
    let plan = r.render(&identity_camera(), 10, 10).unwrap();
    assert_eq!(plan.draw, DrawCall::Indirect { buffer_offset: 10000 * 8 });
}

#[test]
fn engine_cpu_frame_sorts_array_back_to_front() {
    let cam = identity_camera();
    let config = Config::default();
    let mut splats = vec![
        splat_at(0.0, 0.0, 0.25),
        splat_at(0.0, 0.0, 0.75),
        splat_at(0.0, 0.0, 0.5),
    ];
    let order = depth_sort_and_cull(&mut splats, &cam, &config);
    let depths: Vec<f32> = splats.iter().map(|s| f32::from_bits(s.depth)).collect();
    assert_eq!(depths, vec![0.75, 0.5, 0.25]);
    // Default tolerance is 0.1, all centers are at x = y = 0: all visible.
    assert_eq!(order.visible, vec![0, 1, 2]);
    assert!(order.sorted_entries.is_empty());
}

#[test]
fn engine_gpu_frame_produces_back_to_front_entries() {
    let cam = identity_camera();
    let mut config = Config::default();
    config.depth_sorting = DepthSorting::Gpu;
    config.radix_bits_per_digit = 8;
    let mut splats = vec![
        splat_at(0.0, 0.0, 0.25),
        splat_at(9.0, 0.0, 0.5),  // culled
        splat_at(0.0, 0.0, 0.75),
        splat_at(0.0, 0.0, 0.5),
    ];
    let order = depth_sort_and_cull(&mut splats, &cam, &config);
    // The array keeps file order; only depths were refreshed.
    assert_eq!(order.visible, vec![0, 2, 3]);
    let sorted: Vec<u32> = order.sorted_entries.iter().map(|e| e.index).collect();
    assert_eq!(sorted, vec![2, 3, 0]); // back to front: 0.75, 0.5, 0.25
}

#[test]
fn engine_empty_scene_runs_without_error() {
    let cam = identity_camera();
    let mut config = Config::default();
    config.depth_sorting = DepthSorting::GpuIndirectDraw;
    let mut splats: Vec<Splat> = Vec::new();
    let order = depth_sort_and_cull(&mut splats, &cam, &config);
    assert!(order.visible.is_empty());
    assert!(order.sorted_entries.is_empty());
    let words = sorting_buffer_words(&order.sorted_entries, true);
    assert_eq!(words, vec![6, 0, 0, 0, 0]); // a zero-instance indirect draw
}

#[test]
fn sort_entries_pair_keys_with_indices() {
    let mut splats = vec![splat_at(0.0, 0.0, 0.5), splat_at(0.0, 0.0, 0.25)];
    splats[0].depth = 0.5f32.to_bits();
    splats[1].depth = 0.25f32.to_bits();
    let visible = vec![0usize, 1];
    let entries = build_sort_entries(&splats, &visible);
    assert_eq!(entries.len(), 2);
    assert_eq!(entries[0].index, 0);
    assert_eq!(entries[1].index, 1);
    assert!(entries[0].key < entries[1].key); // nearer splat sorts later
}

#[test]
fn shader_splat_layout_is_bit_exact() {
    let mut sp = splat_at(1.0, 2.0, 3.0);
    sp.scale = [4.0f32.to_bits(), 5.0f32.to_bits()];
    sp.color = [0, 0, 0, 0.5f32.to_bits()];
    let shader = ShaderSplat::from_splat(&sp);
    assert_eq!(shader.rotation, [0, 0, 0, 1.0f32.to_bits()]);
    assert_eq!(shader.center, sp.center);
    assert_eq!(shader.alpha, 0.5f32.to_bits());
    assert_eq!(shader.color_sh, [0u32; 48]);
    let words = shader.to_words();
    assert_eq!(words.len(), 62);
    assert_eq!(words[3], 1.0f32.to_bits());
    assert_eq!(words[4], 1.0f32.to_bits());
    assert_eq!(words[8], 4.0f32.to_bits());
    assert_eq!(words[10], 0.5f32.to_bits());
}

#[test]
fn splat_entry_layout_is_bit_exact() {
    let mut sp = splat_at(1.0, 2.0, 3.0);
    sp.depth = 9.0f32.to_bits();
    let entry = SplatEntry::from_splat(&sp);
    assert_eq!(entry.center, sp.center);
    assert_eq!(entry.depth, 9.0f32.to_bits());
    assert_eq!(entry.padding, 0);
    assert_eq!(entry.padding2, 0);
    let words = entry.to_words();
    assert_eq!(words.len(), 18);
    assert_eq!(words[7], 9.0f32.to_bits());
    assert_eq!(words[13], 0);
    assert_eq!(words[17], 0);
}

#[test]
fn scene_new_carries_the_default_perspective_camera() {
    let scene = Scene::new();
    assert_eq!(scene.splat_count, 0);
    assert_eq!(scene.camera.z_near, 0.1f32.to_bits());
    assert_eq!(scene.camera.z_far, 100.0f32.to_bits());
    let expected_proj = glam::camera::rh::proj::opengl::perspective(
        45.0f32.to_radians(),
        16.0f32 / 9.0f32,
        0.1,
        100.0,
    )
    .to_cols_array();
    let expected_view = glam::camera::rh::view::look_at_mat4(
        glam::Vec3::new(0.0, 0.0, 5.0),
        glam::Vec3::ZERO,
        glam::Vec3::Y,
    )
    .to_cols_array();
    for k in 0..16 {
        assert_eq!(scene.camera.projection[k], expected_proj[k].to_bits(), "proj {}", k);
        assert_eq!(scene.camera.view[k], expected_view[k].to_bits(), "view {}", k);
    }
}
