use tilemesh::codec::DecodeError;
use tilemesh::mesh::{OutputMesh, Point2};
use tilemesh::polygons::{
    add_cap_to_mesh, has_three_distinct_points, signed_area_doubled, PolygonBuilder,
    PolygonDecoder, PolygonOptions,
};

fn pts(v: &[(i64, i64)]) -> Vec<Point2> {
    v.iter().map(|&(x, y)| Point2 { x, y }).collect()
}

/// One square exterior ring followed by one square hole ring, encoded as
/// a command stream: MoveTo(1), LineTo(3), ClosePath per ring.
fn square_with_hole_stream() -> Vec<u32> {
    vec![
        9, 0, 0, 26, 0, 8, 8, 0, 0, 7, 15, // exterior [(0,0),(0,4),(4,4),(4,0)] closed
        9, 5, 2, 26, 2, 0, 0, 2, 1, 0, 15, // hole [(1,1),(2,1),(2,2),(1,2)] closed
    ]
}

fn no_wall_options() -> PolygonOptions {
    PolygonOptions { max_height: 0, min_height: 0, build_walls: false }
}

#[test]
fn ring_assembler_closes_rings() {
    let mut decoder = PolygonDecoder::new(4096, square_with_hole_stream());
    let rings = decoder.read_rings().unwrap();
    assert_eq!(rings.len(), 2);
    for ring in &rings {
        assert!(ring.len() >= 2);
        assert_eq!(ring.first(), ring.last());
    }
    assert_eq!(rings[0], pts(&[(0, 0), (0, 4), (4, 4), (4, 0), (0, 0)]));
    assert_eq!(rings[1], pts(&[(1, 1), (2, 1), (2, 2), (1, 2), (1, 1)]));
}

#[test]
fn signed_area_sign_classifies_rings() {
    // This winding yields a positive doubled area (an exterior)...
    let exterior = pts(&[(0, 0), (0, 4), (4, 4), (4, 0)]);
    assert_eq!(signed_area_doubled(&exterior), 32);
    // ...and the reverse order yields the opposite sign (a hole).
    let reversed = pts(&[(4, 0), (4, 4), (0, 4), (0, 0)]);
    assert_eq!(signed_area_doubled(&reversed), -32);
}

#[test]
fn three_distinct_points_detection() {
    assert!(has_three_distinct_points(&pts(&[(0, 0), (1, 0), (1, 1), (0, 0)])));
    assert!(!has_three_distinct_points(&pts(&[(0, 0), (1, 0), (0, 0), (1, 0)])));
    assert!(!has_three_distinct_points(&pts(&[(2, 2), (2, 2), (2, 2)])));
    assert!(!has_three_distinct_points(&pts(&[])));
}

#[test]
fn decode_parks_cap_with_hole_offsets() {
    let mut builder = PolygonBuilder::new(no_wall_options());
    let mut decoder = PolygonDecoder::new(4096, square_with_hole_stream());
    decoder.decode(&mut builder).unwrap();

    // No walls were requested, so the mesh holds nothing yet.
    assert_eq!(builder.output_mesh.vertices.len(), 0);
    assert_eq!(builder.pending_caps.len(), 1);

    let cap = &builder.pending_caps[0];
    // The duplicated closing vertex of each ring reaches the cap
    // coordinates untouched: 5 exterior + 5 hole points.
    assert_eq!(cap.coordinates().len(), 20);
    assert_eq!(cap.holes(), &vec![5usize]);
    assert_eq!(
        cap.coordinates(),
        &vec![0i64, 0, 0, 4, 4, 4, 4, 0, 0, 0, 1, 1, 2, 1, 2, 2, 1, 2, 1, 1],
    );
}

#[test]
fn decode_builds_walls() {
    let options = PolygonOptions { max_height: 2, min_height: 0, build_walls: true };
    let mut builder = PolygonBuilder::new(options);
    let mut decoder = PolygonDecoder::new(
        4096,
        vec![9, 0, 0, 26, 0, 8, 8, 0, 0, 7, 15],
    );
    decoder.decode(&mut builder).unwrap();

    // Four wall quads (one per edge after the ring's first point).
    let mesh = &builder.output_mesh;
    assert_eq!(mesh.vertices.len(), 16);
    assert_eq!(mesh.indices.len(), 24);
    assert_eq!(mesh.uvs.len(), 16);
    assert_eq!(mesh.normals.len(), 16);
    // First quad spans the edge (0,0) -> (0,4) between heights 0 and 2.
    assert_eq!(mesh.vertices[0].x, 0);
    assert_eq!(mesh.vertices[0].y, 2);
    assert_eq!(mesh.vertices[0].z, 0);
    assert_eq!(mesh.vertices[1].x, 0);
    assert_eq!(mesh.vertices[1].y, 2);
    assert_eq!(mesh.vertices[1].z, 4);
    assert_eq!(mesh.vertices[2].y, 0);
    assert_eq!(mesh.vertices[3].y, 0);
    // Wall texture u accumulates the ring's edge length: the second
    // quad starts at u = 4 (the first edge's length).
    assert_eq!(mesh.uvs[0], Point2 { x: 0, y: 1 });
    assert_eq!(mesh.uvs[1], Point2 { x: 4, y: 1 });
    assert_eq!(mesh.uvs[4], Point2 { x: 4, y: 1 });
    assert_eq!(mesh.uvs[5], Point2 { x: 8, y: 1 });
    // Every pending cap still awaits the triangulation pass.
    assert_eq!(builder.pending_caps.len(), 1);
}

#[test]
fn degenerate_ring_is_dropped() {
    // A ring whose points collapse to a single location: MoveTo, then
    // two zero deltas, closed.  Fewer than three distinct points, so it
    // must contribute nothing at all.
    let mut builder = PolygonBuilder::new(no_wall_options());
    let mut decoder = PolygonDecoder::new(4096, vec![9, 2, 2, 18, 0, 0, 0, 0, 15]);
    decoder.decode(&mut builder).unwrap();
    assert_eq!(builder.output_mesh.vertices.len(), 0);
    assert_eq!(builder.pending_caps.len(), 0);
}

#[test]
fn truncated_polygon_stream_is_recoverable() {
    // The closing command word is missing.
    let mut builder = PolygonBuilder::new(no_wall_options());
    let mut decoder = PolygonDecoder::new(4096, vec![9, 0, 0, 26, 0, 8, 8, 0, 0, 7]);
    assert_eq!(decoder.decode(&mut builder), Err(DecodeError::TruncatedStream));
    // The builder was left untouched.
    assert_eq!(builder.output_mesh.vertices.len(), 0);
    assert_eq!(builder.pending_caps.len(), 0);
}

#[test]
fn truncated_coordinate_pair_is_reported() {
    let mut builder = PolygonBuilder::new(no_wall_options());
    let mut decoder = PolygonDecoder::new(4096, vec![9, 0]);
    assert_eq!(decoder.decode(&mut builder), Err(DecodeError::TruncatedStream));
}

#[test]
fn ear_clipping_triangle_count() {
    // Triangulating one polygon with one hole through the external
    // ear-clipper: an exterior of n vertices and holes of m vertices in
    // total yield n + m - 2 triangles.  The counts are those handed to
    // the triangulator, so each ring's duplicated closing vertex is
    // included: 5 exterior and 5 hole points here give 8 triangles.
    // This pins the observed behavior of passing the closed rings
    // through unchanged.
    let mut builder = PolygonBuilder::new(no_wall_options());
    let mut decoder = PolygonDecoder::new(4096, square_with_hole_stream());
    decoder.decode(&mut builder).unwrap();

    let mut mesh = OutputMesh::new();
    let cap = &builder.pending_caps[0];
    let coords: Vec<f64> = cap.coordinates().iter().map(|&c| c as f64).collect();
    let triangles = earcutr::earcut(&coords, cap.holes(), 2).unwrap();
    assert_eq!(triangles.len(), 3 * (5 + 5 - 2));

    assert!(add_cap_to_mesh(&mut mesh, cap, &triangles));
    assert_eq!(mesh.vertices.len(), 10);
    assert_eq!(mesh.indices.len(), triangles.len());
    // The merged triangles carry the reversed winding.
    assert_eq!(mesh.indices[0], triangles[2]);
    assert_eq!(mesh.indices[1], triangles[1]);
    assert_eq!(mesh.indices[2], triangles[0]);
    // Cap vertices sit on the configured height plane.
    for v in &mesh.vertices {
        assert_eq!(v.y, 0);
    }
}

#[test]
fn cap_rejects_invalid_triangulation() {
    let mut builder = PolygonBuilder::new(no_wall_options());
    let mut decoder = PolygonDecoder::new(4096, square_with_hole_stream());
    decoder.decode(&mut builder).unwrap();

    let mut mesh = OutputMesh::new();
    let cap = &builder.pending_caps[0];
    // An index past the cap's own points is rejected, mesh untouched.
    assert!(!add_cap_to_mesh(&mut mesh, cap, &vec![0, 1, 10]));
    assert_eq!(mesh.vertices.len(), 0);
    // A list that is not whole triangles is rejected too.
    assert!(!add_cap_to_mesh(&mut mesh, cap, &vec![0, 1]));
    assert_eq!(mesh.indices.len(), 0);
}

#[test]
fn cap_uvs_fall_back_to_coordinates() {
    // Without caller-supplied texture coordinates, the cap's uvs are the
    // 2D points themselves.
    let mut builder = PolygonBuilder::new(no_wall_options());
    let mut decoder = PolygonDecoder::new(4096, vec![9, 0, 0, 26, 0, 8, 8, 0, 0, 7, 15]);
    decoder.decode(&mut builder).unwrap();

    let mut mesh = OutputMesh::new();
    let cap = &builder.pending_caps[0];
    let coords: Vec<f64> = cap.coordinates().iter().map(|&c| c as f64).collect();
    let triangles = earcutr::earcut(&coords, cap.holes(), 2).unwrap();
    assert!(add_cap_to_mesh(&mut mesh, cap, &triangles));
    assert_eq!(mesh.uvs.len(), 5);
    assert_eq!(mesh.uvs[1], Point2 { x: 0, y: 4 });
    assert_eq!(mesh.uvs[2], Point2 { x: 4, y: 4 });
}

#[test]
fn caller_supplied_cap_uvs_are_used() {
    // Drive the builder's callbacks directly, as a caller with its own
    // texture coordinates would: one uv per point, added after the ring.
    let mut builder = PolygonBuilder::new(no_wall_options());
    builder.on_begin_polygon();
    builder.on_begin_linear_ring();
    for p in pts(&[(0, 0), (0, 4), (4, 4), (4, 0), (0, 0)]) {
        builder.on_point(p);
    }
    for k in 0..5 {
        builder.add_uv(Point2 { x: 100 + k, y: 7 });
    }
    builder.on_end_polygon();

    let mut mesh = OutputMesh::new();
    let cap = &builder.pending_caps[0];
    let coords: Vec<f64> = cap.coordinates().iter().map(|&c| c as f64).collect();
    let triangles = earcutr::earcut(&coords, cap.holes(), 2).unwrap();
    assert!(add_cap_to_mesh(&mut mesh, cap, &triangles));
    assert_eq!(mesh.uvs[0], Point2 { x: 100, y: 7 });
    assert_eq!(mesh.uvs[4], Point2 { x: 104, y: 7 });
}

#[test]
fn hole_before_any_exterior_joins_current_polygon() {
    // A stream whose first ring already winds like a hole: no polygon
    // was started, so no flush happens before it, and the final
    // unconditional flush parks it as a cap without hole offsets.
    let mut builder = PolygonBuilder::new(no_wall_options());
    let mut decoder = PolygonDecoder::new(4096, vec![9, 2, 2, 26, 2, 0, 0, 2, 1, 0, 15]);
    decoder.decode(&mut builder).unwrap();
    assert_eq!(builder.pending_caps.len(), 1);
    let cap = &builder.pending_caps[0];
    assert_eq!(cap.coordinates().len(), 10);
    assert!(cap.holes().is_empty());
}

#[test]
fn second_exterior_flushes_first_polygon() {
    // Two exterior rings: the second flushes the first, so two caps are
    // parked.
    let stream = vec![
        9, 0, 0, 26, 0, 8, 8, 0, 0, 7, 15, // first square
        9, 24, 2, 26, 0, 8, 8, 0, 0, 7, 15, // second square, shifted east
    ];
    let mut builder = PolygonBuilder::new(no_wall_options());
    let mut decoder = PolygonDecoder::new(4096, stream);
    decoder.decode(&mut builder).unwrap();
    assert_eq!(builder.pending_caps.len(), 2);
    assert_eq!(builder.pending_caps[0].coordinates().len(), 10);
    assert_eq!(builder.pending_caps[1].coordinates().len(), 10);
    assert!(builder.pending_caps[1].holes().is_empty());
}
