//! Tests of the two depth-sorting strategies and the float-bit ordering.

use splatter::cpusort::sort_splats_back_to_front;
use splatter::engine::exec_back_to_front_key;
use splatter::floatbits::{exec_f32_lt, exec_f32_total_key};
use splatter::radix::{exclusive_prefix_sum, radix_histogram, radix_pass, radix_sort, SortEntry};
use splatter::splat::Splat;

fn splat_with(depth: f32, tag: u32) -> Splat {
    Splat {
        model_matrix: [0; 16],
        center: [tag, 0, 0],
        color: [0; 4],
        depth: depth.to_bits(),
        scale: [0; 2],
        normal: [0; 3],
        ellipse_basis: [0; 3],
    }
}

#[test]
fn total_key_orders_like_floats() {
    let samples = [
        -f32::INFINITY,
        -100.5,
        -1.0,
        -0.0,
        0.0,
        f32::MIN_POSITIVE,
        0.25,
        1.0,
        3.5e20,
        f32::INFINITY,
    ];
    for (i, a) in samples.iter().enumerate() {
        for (j, b) in samples.iter().enumerate() {
            let ka = exec_f32_total_key(a.to_bits());
            let kb = exec_f32_total_key(b.to_bits());
            if a < b {
                assert!(ka < kb, "sample {} vs {}", i, j);
            }
            if ka < kb {
                assert!(a <= b);
            }
        }
    }
}

#[test]
fn ieee_compare_on_bits_matches_floats() {
    let samples = [
        f32::NAN,
        -f32::NAN,
        -f32::INFINITY,
        -2.5,
        -0.0,
        0.0,
        1.0e-10,
        1.0,
        f32::INFINITY,
    ];
    for a in samples.iter() {
        for b in samples.iter() {
            assert_eq!(exec_f32_lt(a.to_bits(), b.to_bits()), a < b);
        }
    }
}

#[test]
fn cpu_sort_is_descending_by_depth() {
    let depths = [1.0f32, 5.5, -2.0, 3.25, 5.5, 0.0, -7.75, 100.0];
    let mut splats: Vec<Splat> = depths
        .iter()
        .enumerate()
        .map(|(i, d)| splat_with(*d, i as u32))
        .collect();
    sort_splats_back_to_front(&mut splats);
    assert_eq!(splats.len(), depths.len());
    for w in splats.windows(2) {
        let a = f32::from_bits(w[0].depth);
        let b = f32::from_bits(w[1].depth);
        assert!(a >= b);
    }
}

#[test]
fn cpu_sort_keeps_equal_depths_in_file_order() {
    let mut splats = vec![
        splat_with(2.0, 0),
        splat_with(7.0, 1),
        splat_with(2.0, 2),
        splat_with(7.0, 3),
        splat_with(2.0, 4),
    ];
    sort_splats_back_to_front(&mut splats);
    let tags: Vec<u32> = splats.iter().map(|s| s.center[0]).collect();
    assert_eq!(tags, vec![1, 3, 0, 2, 4]);
}

#[test]
fn cpu_sort_of_empty_and_single() {
    let mut empty: Vec<Splat> = Vec::new();
    sort_splats_back_to_front(&mut empty);
    assert!(empty.is_empty());
    let mut one = vec![splat_with(4.0, 9)];
    sort_splats_back_to_front(&mut one);
    assert_eq!(one[0].center[0], 9);
}

/// A small deterministic generator for reproducible pseudo-random keys.
fn next_key(state: &mut u64) -> u32 {
    *state = state.wrapping_mul(6364136223846793005).wrapping_add(1442695040888963407);
    (*state >> 32) as u32
}

fn random_entries(n: usize, seed: u64) -> Vec<SortEntry> {
    let mut state = seed;
    (0..n)
        .map(|i| SortEntry { key: next_key(&mut state), index: i as u32 })
        .collect()
}

#[test]
fn radix_sort_matches_reference_stable_sort() {
    for &bits in &[1u32, 4, 8] {
        for &n in &[0usize, 1, 17, 10000] {
            let entries = random_entries(n, 42 + bits as u64 + n as u64);
            let mut reference = entries.clone();
            reference.sort_by_key(|e| e.key);
            let sorted = radix_sort(&entries, bits);
            assert_eq!(sorted, reference, "bits {} n {}", bits, n);
        }
    }
}

#[test]
fn radix_sort_is_stable_on_duplicate_keys() {
    let entries = vec![
        SortEntry { key: 5, index: 0 },
        SortEntry { key: 1, index: 1 },
        SortEntry { key: 5, index: 2 },
        SortEntry { key: 1, index: 3 },
        SortEntry { key: 5, index: 4 },
    ];
    for &bits in &[1u32, 4, 8] {
        let sorted = radix_sort(&entries, bits);
        let order: Vec<u32> = sorted.iter().map(|e| e.index).collect();
        assert_eq!(order, vec![1, 3, 0, 2, 4]);
    }
}

#[test]
fn back_to_front_key_reverses_depth_order() {
    let near = 0.5f32.to_bits();
    let far = 80.0f32.to_bits();
    assert!(exec_back_to_front_key(far) < exec_back_to_front_key(near));
    let entries = vec![
        SortEntry { key: exec_back_to_front_key(near), index: 0 },
        SortEntry { key: exec_back_to_front_key(far), index: 1 },
    ];
    let sorted = radix_sort(&entries, 4);
    assert_eq!(sorted[0].index, 1);
    assert_eq!(sorted[1].index, 0);
}

#[test]
fn histogram_prefix_and_scatter_mirror_the_device_passes() {
    // keys 0..7 with digit width 2 at the lowest place: digits 3,1,2,3,0.
    let entries = vec![
        SortEntry { key: 7, index: 0 },
        SortEntry { key: 5, index: 1 },
        SortEntry { key: 2, index: 2 },
        SortEntry { key: 3, index: 3 },
        SortEntry { key: 4, index: 4 },
    ];
    let counts = radix_histogram(&entries, 1, 4);
    assert_eq!(counts, vec![1, 1, 1, 2]);
    let offsets = exclusive_prefix_sum(&counts);
    assert_eq!(offsets, vec![0, 1, 2, 3]);
    let scattered = radix_pass(&entries, 1, 4);
    let order: Vec<u32> = scattered.iter().map(|e| e.index).collect();
    assert_eq!(order, vec![4, 1, 2, 0, 3]); // digit blocks 0,1,2,3; ties in input order
}
