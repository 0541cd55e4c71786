use tilemesh::mesh::Point2;
use tilemesh::util::{byte_size_of_array, edge_length, isqrt, rand_num_hack2, size_of};

#[test]
fn isqrt_exact_squares_and_between() {
    assert_eq!(isqrt(0), 0);
    assert_eq!(isqrt(1), 1);
    assert_eq!(isqrt(2), 1);
    assert_eq!(isqrt(3), 1);
    assert_eq!(isqrt(4), 2);
    assert_eq!(isqrt(24), 4);
    assert_eq!(isqrt(25), 5);
    assert_eq!(isqrt(26), 5);
    assert_eq!(isqrt(u64::MAX), 0xFFFF_FFFF);
}

#[test]
fn edge_length_rounds_down() {
    let a = Point2 { x: 0, y: 0 };
    assert_eq!(edge_length(a, Point2 { x: 3, y: 4 }), 5);
    assert_eq!(edge_length(a, Point2 { x: 1, y: 1 }), 1);
    assert_eq!(edge_length(a, Point2 { x: -4, y: 0 }), 4);
    assert_eq!(edge_length(a, a), 0);
}

#[test]
fn rand_num_stays_below_bound() {
    for _ in 0..32 {
        assert!(rand_num_hack2(5) < 5);
        assert!(rand_num_hack2(1) == 0);
    }
}

#[test]
fn byte_sizes_for_upload_buffers() {
    let words: [u32; 4] = [1, 2, 3, 4];
    assert_eq!(byte_size_of_array(&words), 16);
    let empty: [u64; 0] = [];
    assert_eq!(byte_size_of_array(&empty), 0);
    assert_eq!(size_of::<u32>(), 4);
    assert_eq!(size_of::<[f32; 3]>(), 12);
}
