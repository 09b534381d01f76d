//! Tests of the two file-format loaders.

use splatter::rawload::{decode_splats, parse_file_header, SPLAT_STRIDE};
use splatter::scene::Scene;
use splatter::FileReading;

fn push_f32(bytes: &mut Vec<u8>, v: f32) {
    for b in v.to_bits().to_le_bytes() {
        bytes.push(b);
    }
}

/// One 128-byte record from 32 floats in field order.
fn raw_record(fields: &[f32; 32]) -> Vec<u8> {
    let mut bytes = Vec::new();
    for f in fields.iter() {
        push_f32(&mut bytes, *f);
    }
    bytes
}

fn sample_fields(seed: f32) -> [f32; 32] {
    let mut fields = [0.0f32; 32];
    let mut i = 0;
    while i < 32 {
        fields[i] = seed + i as f32 * 0.25;
        i += 1;
    }
    fields
}

#[test]
fn raw_round_trip_two_records() {
    let a = sample_fields(1.5);
    let b = sample_fields(-40.75);
    let mut bytes = raw_record(&a);
    bytes.extend(raw_record(&b));
    assert_eq!(bytes.len(), 2 * SPLAT_STRIDE);

    let mut scene = Scene::new();
    scene.load_splat_file(&bytes).unwrap();
    assert_eq!(scene.splat_count, 2);
    for (sp, src) in scene.splat_data.iter().zip([a, b].iter()) {
        for k in 0..3 {
            assert_eq!(sp.center[k], src[k].to_bits());
        }
        for k in 0..4 {
            assert_eq!(sp.color[k], src[3 + k].to_bits());
        }
        assert_eq!(sp.depth, src[7].to_bits());
        for k in 0..2 {
            assert_eq!(sp.scale[k], src[8 + k].to_bits());
        }
        for k in 0..3 {
            assert_eq!(sp.normal[k], src[10 + k].to_bits());
        }
        for k in 0..3 {
            assert_eq!(sp.ellipse_basis[k], src[13 + k].to_bits());
        }
        for k in 0..16 {
            assert_eq!(sp.model_matrix[k], src[16 + k].to_bits());
        }
    }
}

#[test]
fn raw_bad_size_fails_and_leaves_scene() {
    let good = raw_record(&sample_fields(2.0));
    let mut scene = Scene::new();
    scene.load_splat_file(&good).unwrap();
    assert_eq!(scene.splat_count, 1);
    let kept = scene.splat_data.clone();

    let mut bad = good.clone();
    bad.push(0);
    let err = scene.load_splat_file(&bad).unwrap_err();
    assert_eq!(err, FileReading::InvalidSplatSize);
    assert_eq!(scene.splat_count, 1);
    assert_eq!(scene.splat_data, kept);
}

#[test]
fn raw_empty_file_loads_empty_scene() {
    let mut scene = Scene::new();
    scene.load_splat_file(&Vec::new()).unwrap();
    assert_eq!(scene.splat_count, 0);
    assert!(scene.splat_data.is_empty());
}

#[test]
fn raw_decode_reports_only_size_errors() {
    for len in [1usize, 64, 127, 129, 255] {
        let bytes = vec![0u8; len];
        assert_eq!(decode_splats(&bytes).unwrap_err(), FileReading::InvalidSplatSize);
    }
    let bytes = vec![0u8; 256];
    assert_eq!(decode_splats(&bytes).unwrap().len(), 2);
}

#[test]
fn file_header_words_decode_little_endian() {
    let mut bytes = vec![0x34, 0x12];
    bytes.extend(7u64.to_le_bytes());
    let (header_size, count) = parse_file_header(&bytes).unwrap();
    assert_eq!(header_size, 0x1234);
    assert_eq!(count, 7);
    assert!(parse_file_header(&vec![0u8; 9]).is_none());
}

fn ascii_ply(header_props: &[&str], rows: &[&str]) -> Vec<u8> {
    let mut text = String::from("ply\nformat ascii 1.0\n");
    text.push_str(&format!("element vertex {}\n", rows.len()));
    for p in header_props {
        text.push_str(&format!("property {}\n", p));
    }
    text.push_str("end_header\n");
    for r in rows {
        text.push_str(r);
        text.push('\n');
    }
    text.into_bytes()
}

#[test]
fn ply_vertex_without_red_defaults_to_opaque_white() {
    let data = ascii_ply(
        &["float x", "float y", "float z"],
        &["1.0 2.0 3.0"],
    );
    let mut scene = Scene::new();
    scene.load_splats_from_ply(&data).unwrap();
    assert_eq!(scene.splat_count, 1);
    let sp = &scene.splat_data[0];
    assert_eq!(sp.center[0], 1.0f32.to_bits());
    assert_eq!(sp.center[1], 2.0f32.to_bits());
    assert_eq!(sp.center[2], 3.0f32.to_bits());
    assert_eq!(sp.color[0], 1.0f32.to_bits());
    assert_eq!(sp.color[1], 1.0f32.to_bits());
    assert_eq!(sp.color[2], 1.0f32.to_bits());
    assert_eq!(sp.color[3], 1.0f32.to_bits());
}

#[test]
fn ply_fixed_defaults_fill_missing_fields() {
    let data = ascii_ply(&["float x", "float y", "float z"], &["0.0 0.0 0.0"]);
    let mut scene = Scene::new();
    scene.load_splats_from_ply(&data).unwrap();
    let sp = &scene.splat_data[0];
    assert_eq!(sp.depth, 0);
    assert_eq!(sp.scale, [0.05f32.to_bits(), 0.05f32.to_bits()]);
    assert_eq!(sp.normal, [0.0f32.to_bits(), 1.0f32.to_bits(), 0.0f32.to_bits()]);
    assert_eq!(sp.ellipse_basis, [1.0f32.to_bits(), 0.0f32.to_bits(), 0.0f32.to_bits()]);
    let identity = [
        1.0f32, 0.0, 0.0, 0.0, 0.0, 1.0, 0.0, 0.0, 0.0, 0.0, 1.0, 0.0, 0.0, 0.0, 0.0, 1.0,
    ];
    for k in 0..16 {
        assert_eq!(sp.model_matrix[k], identity[k].to_bits());
    }
}

#[test]
fn ply_uchar_colors_normalize_by_255() {
    let data = ascii_ply(
        &["float x", "float y", "float z", "uchar red", "uchar green", "uchar blue", "uchar alpha"],
        &["0.5 0.5 0.5 255 0 128 64"],
    );
    let mut scene = Scene::new();
    scene.load_splats_from_ply(&data).unwrap();
    let sp = &scene.splat_data[0];
    assert_eq!(sp.color[0], 1.0f32.to_bits());
    assert_eq!(sp.color[1], 0.0f32.to_bits());
    assert_eq!(sp.color[2], (128.0f32 / 255.0f32).to_bits());
    assert_eq!(sp.color[3], (64.0f32 / 255.0f32).to_bits());
}

#[test]
fn ply_integer_positions_convert_to_float() {
    let data = ascii_ply(
        &["int x", "int y", "int z"],
        &["-3 7 0"],
    );
    let mut scene = Scene::new();
    scene.load_splats_from_ply(&data).unwrap();
    let sp = &scene.splat_data[0];
    assert_eq!(sp.center[0], (-3.0f32).to_bits());
    assert_eq!(sp.center[1], 7.0f32.to_bits());
    assert_eq!(sp.center[2], 0.0f32.to_bits());
}

#[test]
fn ply_without_vertex_element_fails_and_leaves_scene() {
    let text = "ply\nformat ascii 1.0\nelement face 0\nproperty float x\nend_header\n";
    let mut scene = Scene::new();
    let good = ascii_ply(&["float x", "float y", "float z"], &["1.0 1.0 1.0"]);
    scene.load_splats_from_ply(&good).unwrap();
    let err = scene.load_splats_from_ply(&text.as_bytes().to_vec()).unwrap_err();
    assert_eq!(err, FileReading::MissingVertexElement);
    assert_eq!(scene.splat_count, 1);
}

#[test]
fn ply_overlong_header_count_is_rejected_not_parsed() {
    // A header integer literal of twenty or more digits would overflow the
    // parser; the loader must reject such a file as malformed.
    let text = "ply\nformat ascii 1.0\nelement vertex 99999999999999999999999\nproperty float x\nend_header\n";
    let mut scene = Scene::new();
    let err = scene.load_splats_from_ply(&text.as_bytes().to_vec()).unwrap_err();
    assert_eq!(err, FileReading::MalformedFile);
}

#[test]
fn ply_end_header_inside_comment_does_not_disarm_the_guard() {
    // The marker bytes inside a comment do not end the header, so an
    // overlong count after such a comment must still be rejected as
    // malformed, never handed to the parser.
    let text = "ply
format ascii 1.0
comment end_header pad
element vertex 99999999999999999999
property float x
end_header
";
    let mut scene = Scene::new();
    let err = scene.load_splats_from_ply(&text.as_bytes().to_vec()).unwrap_err();
    assert_eq!(err, FileReading::MalformedFile);
    assert_eq!(scene.splat_count, 0);
}

#[test]
fn ply_comment_mentioning_end_header_still_loads() {
    let text = "ply
format ascii 1.0
comment end_header pad
element vertex 1
property float x
property float y
property float z
end_header
1.0 2.0 3.0
";
    let mut scene = Scene::new();
    scene.load_splats_from_ply(&text.as_bytes().to_vec()).unwrap();
    assert_eq!(scene.splat_count, 1);
    assert_eq!(scene.splat_data[0].center[1], 2.0f32.to_bits());
}

#[test]
fn file_header_on_scene_matches_free_decoder() {
    let mut bytes = vec![0x10, 0x00];
    bytes.extend(3u64.to_le_bytes());
    let (hs, count) = Scene::parse_file_header(&bytes).unwrap();
    assert_eq!(hs, 16);
    assert_eq!(count, 3);
}

#[test]
fn ply_garbage_is_malformed() {
    let mut scene = Scene::new();
    let err = scene.load_splats_from_ply(&b"not a ply file".to_vec()).unwrap_err();
    assert_eq!(err, FileReading::MalformedFile);
    assert_eq!(scene.splat_count, 0);
}

#[test]
fn ply_empty_vertex_list_loads_empty_scene() {
    let data = ascii_ply(&["float x", "float y", "float z"], &[]);
    let mut scene = Scene::new();
    scene.load_splats_from_ply(&data).unwrap();
    assert_eq!(scene.splat_count, 0);
    assert!(scene.splat_data.is_empty());
}

#[test]
fn ply_double_positions_round_to_f32() {
    let data = ascii_ply(&["double x", "double y", "double z"], &["1.1 -2.5 0.0"]);
    let mut scene = Scene::new();
    scene.load_splats_from_ply(&data).unwrap();
    let sp = &scene.splat_data[0];
    assert_eq!(sp.center[0], (1.1f64 as f32).to_bits());
    assert_eq!(sp.center[1], (-2.5f32).to_bits());
    assert_eq!(sp.center[2], 0.0f32.to_bits());
}
