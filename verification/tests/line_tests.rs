use tilemesh::codec::DecodeError;
use tilemesh::line_strings::{generate_path, LineOptions, LineStringDecoder};
use tilemesh::mesh::Point2;

fn pts(v: &[(i64, i64)]) -> Vec<Point2> {
    v.iter().map(|&(x, y)| Point2 { x, y }).collect()
}

#[test]
fn decoder_determinism_fixed_stream() {
    // MoveTo(1), (+3,+1), LineTo(2), (+1,+1), (-2,0): from the origin
    // this must always yield exactly these cursor points.  With extent 2
    // the normalization scale is 1, so the tile-unit points are the
    // normalized ones.
    let stream = vec![9, 6, 2, 18, 2, 2, 3, 0];
    let mut decoder = LineStringDecoder::new(2, stream.clone(), 0, 0);
    let lines = decoder.read_lines().unwrap();
    assert_eq!(lines.len(), 1);
    assert_eq!(lines[0], pts(&[(3, 1), (4, 2), (2, 2)]));

    // Decoding the same stream again gives the same points.
    let mut again = LineStringDecoder::new(2, stream, 0, 0);
    assert_eq!(again.read_lines().unwrap(), lines);
}

#[test]
fn two_point_polyline_makes_one_quad() {
    // A 2-point polyline yields exactly 4 vertices and 2 triangles.
    let path = pts(&[(0, 0), (3, 0)]);
    let (vertices, indices, uvs, normals) = generate_path(&path, 1, 5);
    assert_eq!(vertices.len(), 4);
    assert_eq!(indices.len(), 6);
    assert_eq!(uvs.len(), 4);
    assert_eq!(normals.len(), 4);
    assert_eq!(indices, vec![3, 1, 0, 2, 3, 0]);
    // One vertex pair at each endpoint, one thickness to each side, at
    // the height: the quad spans the segment's whole length.
    assert_eq!(vertices[0].x, 0);
    assert_eq!(vertices[0].y, 5);
    assert_eq!(vertices[0].z, 1);
    assert_eq!(vertices[1].x, 0);
    assert_eq!(vertices[1].z, -1);
    assert_eq!(vertices[2].x, 3);
    assert_eq!(vertices[2].y, 5);
    assert_eq!(vertices[2].z, 1);
    assert_eq!(vertices[3].x, 3);
    assert_eq!(vertices[3].z, -1);
}

#[test]
fn ribbon_pairs_follow_the_path() {
    // An L-shaped 3-point polyline: the middle pair sits at the middle
    // point, shifted by its incoming segment's perpendicular; the last
    // pair sits at the last point.
    let path = pts(&[(0, 0), (4, 0), (4, 4)]);
    let (vertices, _indices, _uvs, _normals) = generate_path(&path, 1, 0);
    assert_eq!(vertices.len(), 6);
    // Incoming segment of point 1 runs +x: left-perpendicular is +z.
    assert_eq!((vertices[2].x, vertices[2].z), (4, 1));
    assert_eq!((vertices[3].x, vertices[3].z), (4, -1));
    // Incoming segment of point 2 runs +z (tile y): left is -x.
    assert_eq!((vertices[4].x, vertices[4].z), (3, 4));
    assert_eq!((vertices[5].x, vertices[5].z), (5, 4));
}

#[test]
fn single_point_polyline_is_discarded() {
    let path = pts(&[(7, 7)]);
    let (vertices, indices, uvs, normals) = generate_path(&path, 1, 0);
    assert_eq!(vertices.len(), 0);
    assert_eq!(indices.len(), 0);
    assert_eq!(uvs.len(), 0);
    assert_eq!(normals.len(), 0);
}

#[test]
fn line_decode_accumulates_ribbon() {
    let mut decoder = LineStringDecoder::new(4096, vec![9, 6, 2, 18, 2, 2, 3, 0], 1, 0);
    decoder.decode().unwrap();
    // Three points: three vertex pairs, two quads.
    assert_eq!(decoder.output_mesh.vertices.len(), 6);
    assert_eq!(decoder.output_mesh.indices.len(), 12);
    assert_eq!(decoder.output_mesh.uvs.len(), 6);
    assert_eq!(decoder.output_mesh.normals.len(), 6);
}

#[test]
fn line_decode_truncated_stream() {
    let mut decoder = LineStringDecoder::new(4096, vec![9, 6], 1, 0);
    assert_eq!(decoder.decode(), Err(DecodeError::TruncatedStream));
    assert_eq!(decoder.output_mesh.vertices.len(), 0);
}

#[test]
fn line_options_keep_fields() {
    let o = LineOptions::new(3, 11);
    assert_eq!(o.height, 3);
    assert_eq!(o.width, 11);
}
