//! Tests of the camera projection, the depth refresh and the frustum cull.

use splatter::cull::{refresh_depths, splat_visible, visible_indices};
use splatter::scene::Camera;
use splatter::splat::Splat;

fn identity_camera() -> Camera {
    let mut m = [0u32; 16];
    m[0] = 1.0f32.to_bits();
    m[5] = 1.0f32.to_bits();
    m[10] = 1.0f32.to_bits();
    m[15] = 1.0f32.to_bits();
    Camera { projection: m, view: m, z_near: 0.1f32.to_bits(), z_far: 100.0f32.to_bits() }
}

fn splat_at(x: f32, y: f32, z: f32) -> Splat {
    Splat {
        model_matrix: [0; 16],
        center: [x.to_bits(), y.to_bits(), z.to_bits()],
        color: [0; 4],
        depth: 0,
        scale: [0; 2],
        normal: [0; 3],
        ellipse_basis: [0; 3],
    }
}

#[test]
fn identity_camera_projects_center_unchanged() {
    let cam = identity_camera();
    let clip = cam.get_clip_space_position(&[1.5f32.to_bits(), (-2.25f32).to_bits(), 0.5f32.to_bits()]);
    assert_eq!(clip[0], 1.5f32.to_bits());
    assert_eq!(clip[1], (-2.25f32).to_bits());
    assert_eq!(clip[2], 0.5f32.to_bits());
}

#[test]
fn corner_and_center_splats_cull_as_documented() {
    let cam = identity_camera();
    let tol = 1.0f32.to_bits();
    // Center of the frustum: visible.
    assert!(splat_visible(&cam, &splat_at(0.0, 0.0, 0.5), tol));
    // z outside (0, 1): excluded, boundaries included.
    assert!(!splat_visible(&cam, &splat_at(0.0, 0.0, 0.0), tol));
    assert!(!splat_visible(&cam, &splat_at(0.0, 0.0, 1.0), tol));
    assert!(!splat_visible(&cam, &splat_at(0.0, 0.0, -0.5), tol));
    assert!(!splat_visible(&cam, &splat_at(0.0, 0.0, 1.5), tol));
    // |x| or |y| at or above the tolerance: excluded.
    assert!(!splat_visible(&cam, &splat_at(1.0, 0.0, 0.5), tol));
    assert!(!splat_visible(&cam, &splat_at(-1.0, 0.0, 0.5), tol));
    assert!(!splat_visible(&cam, &splat_at(0.0, 1.0, 0.5), tol));
    assert!(!splat_visible(&cam, &splat_at(0.0, -1.0, 0.5), tol));
    assert!(!splat_visible(&cam, &splat_at(2.0, 2.0, 0.5), tol));
    // Just inside every bound: visible.
    assert!(splat_visible(&cam, &splat_at(0.999, -0.999, 0.001), tol));
    // A NaN coordinate is never visible.
    assert!(!splat_visible(&cam, &splat_at(f32::NAN, 0.0, 0.5), tol));
    assert!(!splat_visible(&cam, &splat_at(0.0, 0.0, f32::NAN), tol));
}

#[test]
fn visible_indices_keep_original_order() {
    let cam = identity_camera();
    let tol = 1.0f32.to_bits();
    let splats = vec![
        splat_at(0.0, 0.0, 0.5),   // visible
        splat_at(5.0, 0.0, 0.5),   // culled: |x| too large
        splat_at(0.2, 0.2, 0.25),  // visible
        splat_at(0.0, 0.0, 2.0),   // culled: z outside
        splat_at(-0.5, 0.5, 0.75), // visible
    ];
    let idx = visible_indices(&splats, &cam, tol);
    assert_eq!(idx, vec![0, 2, 4]);
}

#[test]
fn visible_indices_of_empty_scene_is_empty() {
    let cam = identity_camera();
    let idx = visible_indices(&Vec::new(), &cam, 1.0f32.to_bits());
    assert!(idx.is_empty());
}

#[test]
fn refresh_depths_writes_clip_z_and_nothing_else() {
    let cam = identity_camera();
    let mut splats = vec![splat_at(1.0, 2.0, 42.5), splat_at(-1.0, 0.5, -3.25)];
    splats[0].color = [7; 4];
    refresh_depths(&mut splats, &cam);
    assert_eq!(splats[0].depth, 42.5f32.to_bits());
    assert_eq!(splats[1].depth, (-3.25f32).to_bits());
    assert_eq!(splats[0].color, [7; 4]);
    assert_eq!(splats[0].center[0], 1.0f32.to_bits());
}

#[test]
fn scaling_camera_projects_through_both_matrices() {
    // view doubles each coordinate, projection adds the z translation row:
    // clip = projection * (view * [p, 1]).
    let mut view = [0u32; 16];
    view[0] = 2.0f32.to_bits();
    view[5] = 2.0f32.to_bits();
    view[10] = 2.0f32.to_bits();
    view[15] = 1.0f32.to_bits();
    let mut proj = [0u32; 16];
    proj[0] = 1.0f32.to_bits();
    proj[5] = 1.0f32.to_bits();
    proj[10] = 1.0f32.to_bits();
    proj[15] = 1.0f32.to_bits();
    proj[14] = 0.5f32.to_bits(); // column 3, row z: translation by 0.5
    let cam = Camera {
        projection: proj,
        view,
        z_near: 0.1f32.to_bits(),
        z_far: 100.0f32.to_bits(),
    };
    let clip = cam.get_clip_space_position(&[1.0f32.to_bits(), (-2.0f32).to_bits(), 3.0f32.to_bits()]);
    assert_eq!(f32::from_bits(clip[0]), 2.0);
    assert_eq!(f32::from_bits(clip[1]), -4.0);
    assert_eq!(f32::from_bits(clip[2]), 6.5);
}
