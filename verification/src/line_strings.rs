//! Line-string decoding and thick-ribbon mesh generation.
//!
//! A polyline is decoded like a ring but without forced closure.  Each
//! path point gets a pair of ribbon-edge vertices, shifted sideways by
//! the left-perpendicular of its incoming segment's direction scaled to
//! the configured thickness (by integer square root, the rounded-down
//! counterpart of the floating-point normalization this replaces), and
//! lifted to a constant height.  Texture coordinates carry the pair's segment index; the
//! render layer divides by the point count when it wants them in `[0,1]`.

use vstd::prelude::*;
use crate::codec::{
    cursor_wf, lemma_parse_points_props, spec_parse_points, CursorModel, DecodeError,
    GeometryCursor, ParsedPoints,
};
use crate::mesh::{
    batch_wf, mesh_wf, point_in_range, spec_add_elements, MeshModel, Normal3, OutputMesh, Point2,
    Point3, COORD_LIMIT,
};
use crate::normals::{calculate_normals, normals_of, vertex_in_range};
use crate::util::{edge_length, spec_edge_length};

verus! {

/// Per-feature line configuration: ribbon width and height, in tile
/// units.
#[derive(Clone, Copy, Debug)]
pub struct LineOptions {
    pub width: i64,
    pub height: i64,
}

impl LineOptions {
    /// Bundles a line feature's height and width.
    pub fn new(height: i64, width: i64) -> (o: LineOptions)
        ensures
            o.height == height,
            o.width == width,
    {
        LineOptions { height, width }
    }
}

/// `(d * t) / len` with the sign of `d`, rounding the magnitude down;
/// zero for a zero-length segment.
pub open spec fn spec_scale_toward_zero(d: int, t: int, len: int) -> int {
    if len == 0 {
        0
    } else if d >= 0 {
        (d * t) / len
    } else {
        -((-d * t) / len)
    }
}

/// The sideways shift of a ribbon edge for the segment `p0 -> p1`: the
/// left-perpendicular of the segment direction, scaled to thickness `t`
/// by the segment's rounded-down length.
pub open spec fn spec_ribbon_offset(p0: Point2, p1: Point2, t: int) -> (int, int) {
    let dx = p1.x - p0.x;
    let dy = p1.y - p0.y;
    let len = spec_edge_length(p0, p1);
    (spec_scale_toward_zero(-dy, t, len), spec_scale_toward_zero(dx, t, len))
}

proof fn lemma_div_scale_bounded(a: int, t: int, len: int)
    by (nonlinear_arith)
    requires
        0 <= a <= len,
        0 <= t,
        0 < len,
    ensures
        0 <= (a * t) / len <= t,
{
}

proof fn lemma_len_covers_components(p0: Point2, p1: Point2)
    requires
        point_in_range(p0),
        point_in_range(p1),
    ensures
        spec_edge_length(p0, p1) >= (if p1.x - p0.x >= 0 {
            p1.x - p0.x
        } else {
            p0.x - p1.x
        }),
        spec_edge_length(p0, p1) >= (if p1.y - p0.y >= 0 {
            p1.y - p0.y
        } else {
            p0.y - p1.y
        }),
{
    let dx = p1.x - p0.x;
    let dy = p1.y - p0.y;
    let sq = dx * dx + dy * dy;
    crate::util::lemma_isqrt_bounds(sq as nat);
    let len = crate::util::spec_isqrt(sq as nat) as int;
    assert(len >= dx && len >= -dx && len >= dy && len >= -dy) by (nonlinear_arith)
        requires
            len >= 0,
            (len + 1) * (len + 1) > dx * dx + dy * dy,
    ;
}

/// The ribbon shift's components never exceed the thickness.
proof fn lemma_ribbon_offset_bounded(p0: Point2, p1: Point2, t: int)
    requires
        point_in_range(p0),
        point_in_range(p1),
        0 <= t,
    ensures
        -t <= spec_ribbon_offset(p0, p1, t).0 <= t,
        -t <= spec_ribbon_offset(p0, p1, t).1 <= t,
{
    lemma_len_covers_components(p0, p1);
    let len = spec_edge_length(p0, p1);
    let dx = p1.x - p0.x;
    let dy = p1.y - p0.y;
    if len > 0 {
        if dx >= 0 {
            lemma_div_scale_bounded(dx, t, len);
        } else {
            lemma_div_scale_bounded(-dx, t, len);
        }
        if dy >= 0 {
            lemma_div_scale_bounded(dy, t, len);
        } else {
            lemma_div_scale_bounded(-dy, t, len);
        }
    }
}

/// Computes the sideways ribbon shift for one segment.  Each component's
/// magnitude never exceeds the thickness.
pub fn ribbon_offset(p0: Point2, p1: Point2, thickness: i64) -> (o: (i64, i64))
    requires
        point_in_range(p0),
        point_in_range(p1),
        0 <= thickness <= COORD_LIMIT,
    ensures
        o.0 == spec_ribbon_offset(p0, p1, thickness as int).0,
        o.1 == spec_ribbon_offset(p0, p1, thickness as int).1,
        -thickness <= o.0 <= thickness,
        -thickness <= o.1 <= thickness,
{
    let len = edge_length(p0, p1);
    if len == 0 {
        return (0, 0);
    }
    let dx = p1.x - p0.x;
    let dy = p1.y - p0.y;
    proof {
        lemma_len_covers_components(p0, p1);
    }

    let ady = if dy >= 0 {
        dy
    } else {
        -dy
    };
    let adx = if dx >= 0 {
        dx
    } else {
        -dx
    };
    proof {
        lemma_div_scale_bounded(adx as int, thickness as int, len as int);
        lemma_div_scale_bounded(ady as int, thickness as int, len as int);
    }
    proof {
        crate::normals::lemma_mul_bound(ady as int, thickness as int, 0x2000_0000);
        crate::normals::lemma_mul_bound(adx as int, thickness as int, 0x2000_0000);
    }
    let mag_x = (ady as u64 * thickness as u64) / len;
    let mag_y = (adx as u64 * thickness as u64) / len;
    let ox: i64 = if dy > 0 {
        -(mag_x as i64)
    } else {
        mag_x as i64
    };
    let oy: i64 = if dx >= 0 {
        mag_y as i64
    } else {
        -(mag_y as i64)
    };
    (ox, oy)
}

/// The ribbon's vertices: one pair per path point.  The first pair sits
/// at the path's first point shifted by the first segment's offset; the
/// pair for each later index `k` sits at point `k`, shifted by the
/// offset of the segment from point `k - 1` to point `k`, so the pairs
/// span the whole polyline.  Even entries take the positive shift, odd
/// entries the negative one, all lifted to the given height.
pub open spec fn spec_ribbon_vertices(path: Seq<Point2>, t: int, height: i64) -> Seq<Point3> {
    Seq::new(
        2 * path.len(),
        |n: int|
            {
                let k = n / 2;
                let a = if k == 0 {
                    path[0]
                } else {
                    path[k - 1]
                };
                let b = if k == 0 {
                    path[1]
                } else {
                    path[k]
                };
                let p = if k == 0 {
                    path[0]
                } else {
                    path[k]
                };
                let o = spec_ribbon_offset(a, b, t);
                if n % 2 == 0 {
                    Point3 { x: (p.x + o.0) as i64, y: height, z: (p.y + o.1) as i64 }
                } else {
                    Point3 { x: (p.x - o.0) as i64, y: height, z: (p.y - o.1) as i64 }
                }
            },
    )
}

/// The ribbon's texture coordinates: each vertex pair carries its
/// segment index as `u`; `v` is 0 on the left edge and 1 on the right.
pub open spec fn spec_ribbon_uvs(n_points: int) -> Seq<Point2> {
    Seq::new(
        (2 * n_points) as nat,
        |n: int| Point2 { x: (n / 2) as i64, y: if n % 2 == 0 {
            0
        } else {
            1
        } },
    )
}

/// The ribbon's triangles: each segment after the first pair connects
/// its vertex pair to the previous one as a quad of two triangles, in
/// the fixed winding `(v+3, v+1, v), (v+2, v+3, v)`.
pub open spec fn spec_ribbon_indices(n_points: int) -> Seq<usize> {
    Seq::new(
        (6 * (n_points - 1)) as nat,
        |n: int|
            {
                let q = n / 6;
                let r = n % 6;
                let v = 2 * q;
                if r == 0 {
                    (v + 3) as usize
                } else if r == 1 {
                    (v + 1) as usize
                } else if r == 2 {
                    v as usize
                } else if r == 3 {
                    (v + 2) as usize
                } else if r == 4 {
                    (v + 3) as usize
                } else {
                    v as usize
                }
            },
    )
}

/// Generates the flat ribbon mesh of a polyline: one vertex pair per
/// point, two triangles joining each later pair to the previous one,
/// texture coordinates carrying segment indices, and accumulated
/// normals.  A path of fewer than two points yields empty buffers, which
/// the caller discards.
#[verifier::rlimit(60)]
pub fn generate_path(path: &Vec<Point2>, thickness: i64, height: i64) -> (r: (
    Vec<Point3>,
    Vec<usize>,
    Vec<Point2>,
    Vec<Normal3>,
))
    requires
        forall|i: int| 0 <= i < path@.len() ==> point_in_range(#[trigger] path@[i]),
        0 <= thickness <= COORD_LIMIT,
        -COORD_LIMIT <= height <= COORD_LIMIT,
        path@.len() <= 0x2000_0001,
    ensures
        path@.len() < 2 ==> r.0@.len() == 0 && r.1@.len() == 0 && r.2@.len() == 0 && r.3@.len()
            == 0,
        path@.len() >= 2 ==> {
            &&& r.0@ == spec_ribbon_vertices(path@, thickness as int, height)
            &&& r.1@ == spec_ribbon_indices(path@.len() as int)
            &&& r.2@ == spec_ribbon_uvs(path@.len() as int)
            &&& r.0@.len() == 2 * path@.len()
            &&& r.1@.len() == 6 * (path@.len() - 1)
        },
        r.3@ == normals_of(r.0@, r.1@),
        batch_wf(r.0@, r.1@, r.2@, r.3@),
{
    let len = path.len();
    let mut vertices: Vec<Point3> = Vec::new();
    let mut indices: Vec<usize> = Vec::new();
    let mut uvs: Vec<Point2> = Vec::new();
    if len < 2 {
        let normals = calculate_normals(&vertices, &indices);
        proof {
            assert(normals@ =~= normals_of(vertices@, indices@));
        }
        return (vertices, indices, uvs, normals);
    }

    let ghost vs = spec_ribbon_vertices(path@, thickness as int, height);
    let ghost us = spec_ribbon_uvs(len as int);
    let ghost is = spec_ribbon_indices(len as int);

    let p0 = path[0];
    let p1 = path[1];
    let o0 = ribbon_offset(p0, p1, thickness);
    vertices.push(Point3 { x: p0.x + o0.0, y: height, z: p0.y + o0.1 });
    vertices.push(Point3 { x: p0.x - o0.0, y: height, z: p0.y - o0.1 });
    uvs.push(Point2 { x: 0, y: 0 });
    uvs.push(Point2 { x: 0, y: 1 });
    proof {
        assert(vertices@ =~= vs.take(2));
        assert(uvs@ =~= us.take(2));
    }

    let mut i: usize = 1;
    while i < len
        invariant
            1 <= i <= len,
            2 <= len <= 0x2000_0001,
            len == path@.len(),
            forall|k: int| 0 <= k < path@.len() ==> point_in_range(#[trigger] path@[k]),
            0 <= thickness <= COORD_LIMIT,
            -COORD_LIMIT <= height <= COORD_LIMIT,
            vs == spec_ribbon_vertices(path@, thickness as int, height),
            us == spec_ribbon_uvs(len as int),
            is == spec_ribbon_indices(len as int),
            vertices@ =~= vs.take(2 * i as int),
            uvs@ =~= us.take(2 * i as int),
            indices@ =~= is.take(6 * (i as int - 1)),
        decreases len - i,
    {
        let a = path[i - 1];
        let b = path[i];
        let o = ribbon_offset(a, b, thickness);
        vertices.push(Point3 { x: b.x + o.0, y: height, z: b.y + o.1 });
        vertices.push(Point3 { x: b.x - o.0, y: height, z: b.y - o.1 });
        let u = i as i64;
        uvs.push(Point2 { x: u, y: 0 });
        uvs.push(Point2 { x: u, y: 1 });

        let vi = 2 * (i - 1);
        indices.push(vi + 3);
        indices.push(vi + 1);
        indices.push(vi);
        indices.push(vi + 2);
        indices.push(vi + 3);
        indices.push(vi);

        proof {
            assert(vertices@ =~= vs.take(2 * (i as int + 1)));
            assert(uvs@ =~= us.take(2 * i as int + 2));
            assert forall|n: int| 0 <= n < 6 * (i as int) implies indices@[n] == is[n] by {
                if n < 6 * (i as int - 1) {
                } else {
                    assert(n / 6 == i as int - 1 && 6 * (i as int - 1) <= n <= 6 * (i as int - 1)
                        + 5);
                }
            }
            assert(indices@ =~= is.take(6 * (i as int)));
        }
        i += 1;
    }
    proof {
        assert(vertices@ =~= vs);
        assert(uvs@ =~= us);
        assert(indices@ =~= is);
        assert forall|n: int| 0 <= n < is.len() implies (#[trigger] is[n] as int) < 2
            * path@.len() by {
            let q = n / 6;
            assert(q <= path@.len() - 2);
            assert(is[n] as int <= 2 * q + 3);
        }
        assert forall|n: int| 0 <= n < vs.len() implies vertex_in_range(#[trigger] vs[n]) by {
            let k = n / 2;
            let a = if k == 0 {
                path@[0]
            } else {
                path@[k - 1]
            };
            let b = if k == 0 {
                path@[1]
            } else {
                path@[k]
            };
            lemma_ribbon_offset_bounded(a, b, thickness as int);
        }
    }
    let normals = calculate_normals(&vertices, &indices);
    (vertices, indices, uvs, normals)
}

/// Result of parsing one polyline: the decoded points, open (no forced
/// closure), with the position and cursor the run ends with.
pub open spec fn spec_parse_line(geom: Seq<u32>, pos: int, x: int, y: int) -> Result<
    ParsedPoints,
    DecodeError,
> {
    if pos >= geom.len() {
        Err(DecodeError::TruncatedStream)
    } else {
        match spec_parse_points(geom, pos + 1, x, y, 1) {
            Err(e) => Err(e),
            Ok(start) => {
                if start.pos >= geom.len() {
                    Err(DecodeError::TruncatedStream)
                } else {
                    let repeat = geom[start.pos] as int / 8;
                    match spec_parse_points(geom, start.pos + 1, start.x, start.y, repeat) {
                        Err(e) => Err(e),
                        Ok(rest) => Ok(
                            ParsedPoints {
                                points: start.points + rest.points,
                                pos: rest.pos,
                                x: rest.x,
                                y: rest.y,
                            },
                        ),
                    }
                }
            },
        }
    }
}

/// Meaning of parsing a whole line-string stream: polylines until the
/// stream is exhausted.  The guard on the line's end position keeps the
/// recursion well founded; a parsed line always moves forward, so it
/// never fails.
pub open spec fn spec_parse_lines(geom: Seq<u32>, pos: int, x: int, y: int) -> Result<
    Seq<Seq<Point2>>,
    DecodeError,
>
    decreases geom.len() - pos,
{
    if pos >= geom.len() {
        Ok(Seq::empty())
    } else {
        match spec_parse_line(geom, pos, x, y) {
            Err(e) => Err(e),
            Ok(st) => {
                if pos < st.pos <= geom.len() {
                    match spec_parse_lines(geom, st.pos, st.x, st.y) {
                        Err(e) => Err(e),
                        Ok(rest) => Ok(seq![st.points] + rest),
                    }
                } else {
                    Err(DecodeError::TruncatedStream)
                }
            },
        }
    }
}

/// Shape facts about one successfully parsed polyline.
pub proof fn lemma_parse_line_props(geom: Seq<u32>, pos: int, x: int, y: int)
    requires
        0 <= pos <= geom.len(),
        -COORD_LIMIT <= x <= COORD_LIMIT,
        -COORD_LIMIT <= y <= COORD_LIMIT,
    ensures
        spec_parse_line(geom, pos, x, y) matches Ok(st) ==> {
            &&& pos + 3 <= st.pos <= geom.len()
            &&& 1 <= st.points.len() <= 0x2000_0000
            &&& forall|i: int| 0 <= i < st.points.len() ==> point_in_range(#[trigger] st.points[i])
            &&& -COORD_LIMIT <= st.x <= COORD_LIMIT
            &&& -COORD_LIMIT <= st.y <= COORD_LIMIT
        },
{
    if pos < geom.len() {
        lemma_parse_points_props(geom, pos + 1, x, y, 1);
        match spec_parse_points(geom, pos + 1, x, y, 1) {
            Ok(start) => {
                if start.pos < geom.len() {
                    let repeat = geom[start.pos] as int / 8;
                    assert(0 <= repeat <= 0x1FFF_FFFF);
                    lemma_parse_points_props(geom, start.pos + 1, start.x, start.y, repeat);
                }
            },
            Err(_) => {},
        }
    }
}

/// Shape facts about a successfully parsed line-string stream: every
/// polyline holds between one and `1 + (u32::MAX / 8)` in-range points.
pub proof fn lemma_parse_lines_props(
    geom: Seq<u32>,
    pos: int,
    x: int,
    y: int,
    lines: Seq<Seq<Point2>>,
)
    requires
        0 <= pos,
        -COORD_LIMIT <= x <= COORD_LIMIT,
        -COORD_LIMIT <= y <= COORD_LIMIT,
        spec_parse_lines(geom, pos, x, y) == Ok::<Seq<Seq<Point2>>, DecodeError>(lines),
    ensures
        forall|i: int|
            0 <= i < lines.len() ==> {
                &&& 1 <= (#[trigger] lines[i]).len() <= 0x2000_0000
                &&& forall|j: int| 0 <= j < lines[i].len() ==> point_in_range(#[trigger] lines[i][j])
            },
    decreases geom.len() - pos,
{
    if pos >= geom.len() {
        assert(lines =~= Seq::<Seq<Point2>>::empty());
    } else {
        match spec_parse_line(geom, pos, x, y) {
            Err(_) => {},
            Ok(st) => {
                lemma_parse_line_props(geom, pos, x, y);
                if pos < st.pos <= geom.len() {
                    match spec_parse_lines(geom, st.pos, st.x, st.y) {
                        Err(_) => {},
                        Ok(rest) => {
                            lemma_parse_lines_props(geom, st.pos, st.x, st.y, rest);
                            assert(lines == seq![st.points] + rest);
                            assert(lines[0] == st.points);
                            assert(forall|i: int|
                                1 <= i < rest.len() + 1 ==> lines[i] == rest[i - 1]);
                        },
                    }
                }
            },
        }
    }
}

/// The mesh after one polyline: its ribbon batch merged, unless the
/// polyline has fewer than two points, whose mesh would not be
/// renderable and is discarded.
pub open spec fn spec_feed_line(mesh: MeshModel, line: Seq<Point2>, t: int, height: i64) -> MeshModel {
    if line.len() >= 2 {
        let vs = spec_ribbon_vertices(line, t, height);
        let is = spec_ribbon_indices(line.len() as int);
        let us = spec_ribbon_uvs(line.len() as int);
        spec_add_elements(mesh, vs, is, us, normals_of(vs, is))
    } else {
        mesh
    }
}

/// The mesh after the first `k` polylines of a decoded stream.
pub open spec fn spec_feed_lines(
    mesh: MeshModel,
    lines: Seq<Seq<Point2>>,
    t: int,
    height: i64,
    k: int,
) -> MeshModel
    decreases k,
{
    if k <= 0 {
        mesh
    } else {
        spec_feed_line(spec_feed_lines(mesh, lines, t, height, k - 1), lines[k - 1], t, height)
    }
}

/// Streaming decoder for line-string features: reads polylines from the
/// command stream and accumulates their ribbon meshes.
pub struct LineStringDecoder {
    /// The stream cursor, exposed so callers can observe the position.
    pub cursor: GeometryCursor,
    /// The tile's coordinate-space resolution; the render layer divides
    /// coordinates by `extent - 1` to normalize them.
    pub extent: u32,
    /// Ribbon half-width in tile units.
    pub thickness: i64,
    /// Height plane of the ribbon in tile units.
    pub height: i64,
    /// The ribbon batches accumulated so far.
    pub output_mesh: OutputMesh,
}

impl LineStringDecoder {
    /// A decoder over one feature's geometry words.
    pub fn new(extent: u32, geometry: Vec<u32>, thickness: i64, height: i64) -> (d:
        LineStringDecoder)
        requires
            extent >= 2,
            0 <= thickness <= COORD_LIMIT,
            -COORD_LIMIT <= height <= COORD_LIMIT,
        ensures
            d.cursor@ == (CursorModel { geometry: geometry@, position: 0, x: 0, y: 0 }),
            cursor_wf(d.cursor@),
            d.extent == extent,
            d.thickness == thickness,
            d.height == height,
            d.output_mesh@.vertices.len() == 0,
            d.output_mesh@.indices.len() == 0,
            d.output_mesh@.uvs.len() == 0,
            d.output_mesh@.normals.len() == 0,
            mesh_wf(d.output_mesh@),
    {
        LineStringDecoder {
            cursor: GeometryCursor::new(geometry),
            extent,
            thickness,
            height,
            output_mesh: OutputMesh::new(),
        }
    }

    /// Reads polylines until the stream is exhausted.
    pub fn read_lines(&mut self) -> (r: Result<Vec<Vec<Point2>>, DecodeError>)
        requires
            cursor_wf(old(self).cursor@),
        ensures
            cursor_wf(final(self).cursor@),
            final(self).cursor@.geometry == old(self).cursor@.geometry,
            final(self).extent == old(self).extent,
            final(self).thickness == old(self).thickness,
            final(self).height == old(self).height,
            final(self).output_mesh == old(self).output_mesh,
            match r {
                Ok(lines) => spec_parse_lines(
                    old(self).cursor@.geometry,
                    old(self).cursor@.position,
                    old(self).cursor@.x,
                    old(self).cursor@.y,
                ) == Ok::<Seq<Seq<Point2>>, DecodeError>(views_of_lines(lines@))
                    && final(self).cursor@.position == final(self).cursor@.geometry.len(),
                Err(e) => spec_parse_lines(
                    old(self).cursor@.geometry,
                    old(self).cursor@.position,
                    old(self).cursor@.x,
                    old(self).cursor@.y,
                ) == Err::<Seq<Seq<Point2>>, DecodeError>(e),
            },
    {
        let mut lines: Vec<Vec<Point2>> = Vec::new();
        let mut rem = self.cursor.remaining();
        while rem > 0
            invariant
                cursor_wf(self.cursor@),
                self.cursor@.geometry == old(self).cursor@.geometry,
                self.extent == old(self).extent,
                self.thickness == old(self).thickness,
                self.height == old(self).height,
                self.output_mesh == old(self).output_mesh,
                rem == self.cursor@.geometry.len() - self.cursor@.position,
                spec_parse_lines(
                    old(self).cursor@.geometry,
                    old(self).cursor@.position,
                    old(self).cursor@.x,
                    old(self).cursor@.y,
                ) == (match spec_parse_lines(
                    self.cursor@.geometry,
                    self.cursor@.position,
                    self.cursor@.x,
                    self.cursor@.y,
                ) {
                    Ok(rest) => Ok::<Seq<Seq<Point2>>, DecodeError>(views_of_lines(lines@) + rest),
                    Err(e) => Err::<Seq<Seq<Point2>>, DecodeError>(e),
                }),
            decreases rem,
        {
            let ghost pre = self.cursor@;
            let ghost prev_lines = lines@;

            let _c0 = match self.cursor.advance_command() {
                Ok(c) => c,
                Err(_) => {
                    proof {
                        assert(false);
                    }
                    return Err(DecodeError::TruncatedStream);
                },
            };
            let ghost s1 = self.cursor@;
            let start_pts = match self.cursor.read_points(1) {
                Ok(v) => v,
                Err(e) => {
                    proof {
                        assert(spec_parse_line(pre.geometry, pre.position, pre.x, pre.y)
                            == Err::<ParsedPoints, DecodeError>(e));
                    }
                    return Err(e);
                },
            };
            proof {
                lemma_parse_points_props(s1.geometry, s1.position, s1.x, s1.y, 1);
            }
            let start = start_pts[0];
            let ghost s2 = self.cursor@;
            let c1 = match self.cursor.advance_command() {
                Ok(c) => c,
                Err(e) => {
                    proof {
                        assert(s2.position == s2.geometry.len());
                        assert(spec_parse_line(pre.geometry, pre.position, pre.x, pre.y)
                            == Err::<ParsedPoints, DecodeError>(DecodeError::TruncatedStream));
                    }
                    return Err(e);
                },
            };
            let mut rest_pts = match self.cursor.read_points(c1.repeat) {
                Ok(v) => v,
                Err(e) => {
                    proof {
                        assert(spec_parse_line(pre.geometry, pre.position, pre.x, pre.y)
                            == Err::<ParsedPoints, DecodeError>(e));
                    }
                    return Err(e);
                },
            };
            let ghost rest_view = rest_pts@;

            let mut line: Vec<Point2> = Vec::new();
            line.push(start);
            line.append(&mut rest_pts);
            lines.push(line);

            proof {
                let st = ParsedPoints {
                    points: seq![start] + rest_view,
                    pos: self.cursor@.position,
                    x: self.cursor@.x,
                    y: self.cursor@.y,
                };
                assert(spec_parse_line(pre.geometry, pre.position, pre.x, pre.y) matches Ok(got)
                    && got =~~= st);
                lemma_parse_line_props(pre.geometry, pre.position, pre.x, pre.y);
                assert(lines@[lines@.len() - 1]@ =~= st.points);
                assert(views_of_lines(lines@) =~= views_of_lines(prev_lines) + seq![st.points]);
                assert(pre.position < st.pos <= pre.geometry.len());
                match spec_parse_lines(
                    self.cursor@.geometry,
                    self.cursor@.position,
                    self.cursor@.x,
                    self.cursor@.y,
                ) {
                    Ok(rest) => {
                        assert(views_of_lines(prev_lines) + (seq![st.points] + rest)
                            =~= views_of_lines(lines@) + rest);
                    },
                    Err(_) => {},
                }
            }
            rem = self.cursor.remaining();
        }
        proof {
            assert(spec_parse_lines(
                self.cursor@.geometry,
                self.cursor@.position,
                self.cursor@.x,
                self.cursor@.y,
            ) == Ok::<Seq<Seq<Point2>>, DecodeError>(Seq::empty()));
            assert(views_of_lines(lines@) + Seq::<Seq<Point2>>::empty() =~= views_of_lines(
                lines@,
            ));
        }
        Ok(lines)
    }

    /// Decodes the whole stream and accumulates one ribbon batch per
    /// polyline of at least two points.  On a malformed stream the
    /// output mesh is left untouched and the error names the first
    /// fault.
    pub fn decode(&mut self) -> (r: Result<(), DecodeError>)
        requires
            cursor_wf(old(self).cursor@),
            mesh_wf(old(self).output_mesh@),
            0 <= old(self).thickness <= COORD_LIMIT,
            -COORD_LIMIT <= old(self).height <= COORD_LIMIT,
        ensures
            cursor_wf(final(self).cursor@),
            final(self).cursor@.geometry == old(self).cursor@.geometry,
            final(self).extent == old(self).extent,
            final(self).thickness == old(self).thickness,
            final(self).height == old(self).height,
            mesh_wf(final(self).output_mesh@),
            match r {
                Ok(_) => spec_parse_lines(
                    old(self).cursor@.geometry,
                    old(self).cursor@.position,
                    old(self).cursor@.x,
                    old(self).cursor@.y,
                ) matches Ok(lines) && final(self).cursor@.position == final(self).cursor@.geometry.len()
                    && final(self).output_mesh@ == spec_feed_lines(
                    old(self).output_mesh@,
                    lines,
                    old(self).thickness as int,
                    old(self).height,
                    lines.len() as int,
                ),
                Err(e) => spec_parse_lines(
                    old(self).cursor@.geometry,
                    old(self).cursor@.position,
                    old(self).cursor@.x,
                    old(self).cursor@.y,
                ) == Err::<Seq<Seq<Point2>>, DecodeError>(e) && final(self).output_mesh@ == old(
                    self,
                ).output_mesh@,
            },
    {
        let ghost g0 = self.cursor@;
        let lines = match self.read_lines() {
            Ok(l) => l,
            Err(e) => {
                return Err(e);
            },
        };
        let ghost ls = views_of_lines(lines@);
        proof {
            lemma_parse_lines_props(g0.geometry, g0.position, g0.x, g0.y, ls);
        }

        let thickness = self.thickness;
        let height = self.height;
        let n = lines.len();
        let mut idx: usize = 0;
        while idx < n
            invariant
                0 <= idx <= n,
                n == lines@.len(),
                ls == views_of_lines(lines@),
                self.extent == old(self).extent,
                self.thickness == old(self).thickness,
                self.height == old(self).height,
                thickness == old(self).thickness,
                height == old(self).height,
                0 <= thickness <= COORD_LIMIT,
                -COORD_LIMIT <= height <= COORD_LIMIT,
                cursor_wf(self.cursor@),
                self.cursor@.geometry == old(self).cursor@.geometry,
                self.cursor@.position == self.cursor@.geometry.len(),
                mesh_wf(self.output_mesh@),
                self.output_mesh@ == spec_feed_lines(
                    old(self).output_mesh@,
                    ls,
                    thickness as int,
                    height,
                    idx as int,
                ),
                forall|i: int|
                    0 <= i < ls.len() ==> {
                        &&& 1 <= (#[trigger] ls[i]).len() <= 0x2000_0000
                        &&& forall|j: int| 0 <= j < ls[i].len() ==> point_in_range(#[trigger] ls[i][j])
                    },
            decreases n - idx,
        {
            let line = &lines[idx];
            assert(line@ == ls[idx as int]);
            let (mut vertices, indices, mut uvs, mut normals) = generate_path(
                line,
                thickness,
                height,
            );
            if vertices.len() >= 3 {
                self.output_mesh.add_elements(&mut vertices, &indices, &mut uvs, &mut normals);
            }
            idx += 1;
        }
        Ok(())
    }
}

/// The polylines of a decoded stream as sequences.
pub open spec fn views_of_lines(lines: Seq<Vec<Point2>>) -> Seq<Seq<Point2>> {
    lines.map_values(|l: Vec<Point2>| l@)
}

} // verus!
