//! Polygon tessellation: ring classification by signed area, wall
//! extrusion, and cap assembly around an external ear-clipping pass.
//!
//! The builder is a state machine fed one ring point at a time.  Wall
//! quads are synthesized and batched immediately; cap triangulation needs
//! the floating-point ear-clipping pass of the render layer, so each
//! finished polygon's flattened coordinates and hole offsets are parked as
//! a `CapInput`, and the triangle list handed back is checked and merged
//! by `add_cap_to_mesh`, which is verified for every possible answer.

use vstd::prelude::*;
use crate::codec::{
    cursor_wf, lemma_parse_points_props, spec_parse_points, CursorModel, DecodeError,
    GeometryCursor, ParsedPoints,
};
use crate::mesh::{
    batch_wf, mesh_wf, point_in_range, spec_add_elements, MeshModel, OutputMesh, Point2, Point3,
    COORD_LIMIT,
};
use crate::normals::{calculate_normals, lemma_mul_bound, normals_of, vertex_in_range};
use crate::util::{edge_length, spec_edge_length};

verus! {

/// Per-feature polygon configuration: the two height planes (in tile
/// units) and whether vertical walls are synthesized between them.
#[derive(Clone, Copy, Debug)]
pub struct PolygonOptions {
    pub max_height: i64,
    pub min_height: i64,
    pub build_walls: bool,
}

/// Whether the configured heights are within the accepted range.
pub open spec fn options_in_range(o: PolygonOptions) -> bool {
    &&& -COORD_LIMIT <= o.max_height <= COORD_LIMIT
    &&& -COORD_LIMIT <= o.min_height <= COORD_LIMIT
}

/// Model of a parked polygon cap: flattened 2D coordinates, hole start
/// offsets (in points), one texture coordinate per point, and the height
/// plane the cap lies in.
#[verifier::ext_equal]
pub struct CapModel {
    pub coordinates: Seq<i64>,
    pub holes: Seq<usize>,
    pub uvs: Seq<Point2>,
    pub max_height: i64,
}

/// A parked polygon cap, waiting for the external triangulation pass.
pub struct CapInput {
    coordinates: Vec<i64>,
    holes: Vec<usize>,
    uvs: Vec<Point2>,
    max_height: i64,
}

impl View for CapInput {
    type V = CapModel;

    closed spec fn view(&self) -> CapModel {
        CapModel {
            coordinates: self.coordinates@,
            holes: self.holes@,
            uvs: self.uvs@,
            max_height: self.max_height,
        }
    }
}

/// Invariant of a parked cap: pairs of bounded coordinates, one texture
/// coordinate per point, and a bounded height.
pub open spec fn cap_wf(c: CapModel) -> bool {
    &&& c.coordinates.len() % 2 == 0
    &&& forall|i: int|
        0 <= i < c.coordinates.len() ==> -COORD_LIMIT <= #[trigger] c.coordinates[i] <= COORD_LIMIT
    &&& c.uvs.len() == c.coordinates.len() / 2
    &&& -COORD_LIMIT <= c.max_height <= COORD_LIMIT
}

impl CapInput {
    /// The flattened 2D coordinates, for handing to the triangulator.
    pub fn coordinates(&self) -> (r: &Vec<i64>)
        ensures
            r@ == self@.coordinates,
    {
        &self.coordinates
    }

    /// The hole start offsets, for handing to the triangulator.
    pub fn holes(&self) -> (r: &Vec<usize>)
        ensures
            r@ == self@.holes,
    {
        &self.holes
    }
}

/// Mathematical model of the polygon builder's state.
#[verifier::ext_equal]
pub struct BuilderModel {
    pub coordinates: Seq<i64>,
    pub holes: Seq<usize>,
    pub points_in_ring: int,
    pub points_in_polygon: int,
    pub last_point: Point2,
    pub extrusion_vertices: Seq<Point3>,
    pub extrusion_uvs: Seq<Point2>,
    pub polygon_uvs: Seq<Point2>,
    pub extrusion_indices: Seq<usize>,
    pub u_coordinate_total: int,
    pub options: PolygonOptions,
    pub mesh: MeshModel,
    pub caps: Seq<CapModel>,
}

/// Invariant of the builder: the flattened coordinate buffer holds two
/// bounded words per point, the wall buffers hold four vertices, four
/// texture coordinates and six in-range indices per quad, and the
/// accumulated wall texture length grows by at most one bounded edge per
/// ring point.
pub open spec fn builder_wf(m: BuilderModel) -> bool {
    &&& m.coordinates.len() == 2 * m.points_in_polygon
    &&& 0 <= m.points_in_ring
    &&& forall|i: int|
        0 <= i < m.coordinates.len() ==> -COORD_LIMIT <= #[trigger] m.coordinates[i] <= COORD_LIMIT
    &&& point_in_range(m.last_point)
    &&& m.extrusion_vertices.len() % 4 == 0
    &&& m.extrusion_uvs.len() == m.extrusion_vertices.len()
    &&& m.extrusion_indices.len() == (m.extrusion_vertices.len() / 4) * 6
    &&& forall|i: int|
        0 <= i < m.extrusion_indices.len() ==> (#[trigger] m.extrusion_indices[i] as int)
            < m.extrusion_vertices.len()
    &&& forall|i: int|
        0 <= i < m.extrusion_vertices.len() ==> vertex_in_range(#[trigger] m.extrusion_vertices[i])
    &&& options_in_range(m.options)
    &&& mesh_wf(m.mesh)
    &&& forall|i: int| 0 <= i < m.caps.len() ==> cap_wf(#[trigger] m.caps[i])
    &&& 0 <= m.u_coordinate_total <= 0x4000_0000 * m.points_in_ring
}

/// The builder state after `on_begin_polygon`: all per-polygon buffers
/// cleared; the cursor-like ring state is untouched.
pub open spec fn spec_on_begin_polygon(m: BuilderModel) -> BuilderModel {
    BuilderModel {
        coordinates: Seq::empty(),
        holes: Seq::empty(),
        extrusion_vertices: Seq::empty(),
        extrusion_uvs: Seq::empty(),
        extrusion_indices: Seq::empty(),
        polygon_uvs: Seq::empty(),
        points_in_polygon: 0,
        ..m
    }
}

/// The builder state after `on_begin_linear_ring`: the ring point count
/// and wall texture length restart, and a hole boundary is recorded at
/// the current point count when the ring is not the polygon's first.
pub open spec fn spec_on_begin_linear_ring(m: BuilderModel) -> BuilderModel {
    BuilderModel {
        points_in_ring: 0,
        u_coordinate_total: 0,
        holes: if m.points_in_polygon > 0 {
            m.holes + seq![m.points_in_polygon as usize]
        } else {
            m.holes
        },
        ..m
    }
}

/// The builder state after `add_uv`: one cap texture coordinate appended.
pub open spec fn spec_add_uv(m: BuilderModel, uv: Point2) -> BuilderModel {
    BuilderModel { polygon_uvs: m.polygon_uvs + seq![uv], ..m }
}

/// The builder state after `on_point`.  When walls are being built and
/// the point is not the ring's first, one vertical quad is synthesized
/// between the previous point and this one: four vertices on the two
/// height planes, texture coordinates whose `u` accumulates the ring's
/// edge length and whose `v` is 0 at the bottom and 1 at the top, and two
/// triangles.  The point itself is appended to the flattened coordinate
/// buffer.
pub open spec fn spec_on_point(m: BuilderModel, p: Point2) -> BuilderModel {
    let m1 = if m.options.build_walls && m.points_in_ring > 0 {
        let p0 = m.last_point;
        let base = m.extrusion_vertices.len() as int;
        let u0 = m.u_coordinate_total;
        let u1 = u0 + spec_edge_length(p0, p);
        BuilderModel {
            extrusion_vertices: m.extrusion_vertices + seq![
                Point3 { x: p0.x, y: m.options.max_height, z: p0.y },
                Point3 { x: p.x, y: m.options.max_height, z: p.y },
                Point3 { x: p0.x, y: m.options.min_height, z: p0.y },
                Point3 { x: p.x, y: m.options.min_height, z: p.y },
            ],
            extrusion_uvs: m.extrusion_uvs + seq![
                Point2 { x: u0 as i64, y: 1 },
                Point2 { x: u1 as i64, y: 1 },
                Point2 { x: u0 as i64, y: 0 },
                Point2 { x: u1 as i64, y: 0 },
            ],
            extrusion_indices: m.extrusion_indices + seq![
                base as usize,
                (base + 1) as usize,
                (base + 3) as usize,
                base as usize,
                (base + 3) as usize,
                (base + 2) as usize,
            ],
            u_coordinate_total: u1,
            ..m
        }
    } else {
        m
    };
    BuilderModel {
        coordinates: m1.coordinates + seq![p.x, p.y],
        last_point: p,
        points_in_ring: m1.points_in_ring + 1,
        points_in_polygon: m1.points_in_polygon + 1,
        ..m1
    }
}

/// Texture coordinates derived from the cap's own 2D coordinates, used
/// when the caller supplied none.
pub open spec fn spec_uvs_from_coords(coords: Seq<i64>) -> Seq<Point2> {
    Seq::new(coords.len() / 2, |i: int| Point2 { x: coords[2 * i], y: coords[2 * i + 1] })
}

/// The builder state after `on_end_polygon`: the wall batch, if any, is
/// merged into the output mesh together with its accumulated normals, and
/// the cap coordinates, if any, are parked for the triangulation pass
/// with their texture coordinates resolved (the caller's, when one was
/// supplied per point, else the coordinates themselves).  No buffer is
/// cleared; `on_begin_polygon` does that.
pub open spec fn spec_on_end_polygon(m: BuilderModel) -> BuilderModel {
    let m1 = if m.extrusion_vertices.len() > 0 {
        BuilderModel {
            mesh: spec_add_elements(
                m.mesh,
                m.extrusion_vertices,
                m.extrusion_indices,
                m.extrusion_uvs,
                normals_of(m.extrusion_vertices, m.extrusion_indices),
            ),
            ..m
        }
    } else {
        m
    };
    if m.coordinates.len() > 0 {
        let uvs = if m.polygon_uvs.len() == m.coordinates.len() / 2 {
            m.polygon_uvs
        } else {
            spec_uvs_from_coords(m.coordinates)
        };
        BuilderModel {
            caps: m1.caps + seq![
                CapModel {
                    coordinates: m.coordinates,
                    holes: m.holes,
                    uvs,
                    max_height: m.options.max_height,
                },
            ],
            ..m1
        }
    } else {
        m1
    }
}

/// Streaming polygon tessellator; its callbacks are driven ring by ring
/// and point by point by the polygon decoder.
pub struct PolygonBuilder {
    coordinates: Vec<i64>,
    holes: Vec<usize>,
    points_in_ring: usize,
    points_in_polygon: usize,
    last_point: Point2,
    extrusion_vertices: Vec<Point3>,
    extrusion_uvs: Vec<Point2>,
    polygon_uvs: Vec<Point2>,
    extrusion_indices: Vec<usize>,
    u_coordinate_total: i64,
    options: PolygonOptions,
    /// Walls batched so far, and caps merged back by `add_cap_to_mesh`.
    pub output_mesh: OutputMesh,
    /// Finished polygons awaiting the external triangulation pass.
    pub pending_caps: Vec<CapInput>,
}

impl View for PolygonBuilder {
    type V = BuilderModel;

    closed spec fn view(&self) -> BuilderModel {
        BuilderModel {
            coordinates: self.coordinates@,
            holes: self.holes@,
            points_in_ring: self.points_in_ring as int,
            points_in_polygon: self.points_in_polygon as int,
            last_point: self.last_point,
            extrusion_vertices: self.extrusion_vertices@,
            extrusion_uvs: self.extrusion_uvs@,
            polygon_uvs: self.polygon_uvs@,
            extrusion_indices: self.extrusion_indices@,
            u_coordinate_total: self.u_coordinate_total as int,
            options: self.options,
            mesh: self.output_mesh@,
            caps: self.pending_caps@.map_values(|c: CapInput| c@),
        }
    }
}

/// Copies a vector of plain values.
fn copy_vec<T: Copy>(v: &Vec<T>) -> (r: Vec<T>)
    ensures
        r@ == v@,
{
    let mut r: Vec<T> = Vec::new();
    let n = v.len();
    let mut i: usize = 0;
    while i < n
        invariant
            0 <= i <= n,
            n == v@.len(),
            r@ == v@.take(i as int),
        decreases n - i,
    {
        r.push(v[i]);
        proof {
            assert(r@ =~= v@.take(i as int + 1));
        }
        i += 1;
    }
    proof {
        assert(v@.take(n as int) =~= v@);
    }
    r
}

impl PolygonBuilder {
    /// A fresh builder for one feature, with empty buffers and the ring
    /// cursor at the origin.
    pub fn new(polygon_options: PolygonOptions) -> (b: PolygonBuilder)
        requires
            options_in_range(polygon_options),
        ensures
            b@ == (BuilderModel {
                coordinates: Seq::<i64>::empty(),
                holes: Seq::<usize>::empty(),
                points_in_ring: 0,
                points_in_polygon: 0,
                last_point: Point2 { x: 0, y: 0 },
                extrusion_vertices: Seq::<Point3>::empty(),
                extrusion_uvs: Seq::<Point2>::empty(),
                polygon_uvs: Seq::<Point2>::empty(),
                extrusion_indices: Seq::<usize>::empty(),
                u_coordinate_total: 0,
                options: polygon_options,
                mesh: b@.mesh,
                caps: Seq::<CapModel>::empty(),
            }),
            b@.mesh.vertices.len() == 0,
            b@.mesh.indices.len() == 0,
            b@.mesh.uvs.len() == 0,
            b@.mesh.normals.len() == 0,
            builder_wf(b@),
    {
        let b = PolygonBuilder {
            coordinates: Vec::new(),
            holes: Vec::new(),
            points_in_ring: 0,
            points_in_polygon: 0,
            last_point: Point2 { x: 0, y: 0 },
            extrusion_vertices: Vec::new(),
            extrusion_uvs: Vec::new(),
            polygon_uvs: Vec::new(),
            extrusion_indices: Vec::new(),
            u_coordinate_total: 0,
            options: polygon_options,
            output_mesh: OutputMesh::new(),
            pending_caps: Vec::new(),
        };
        proof {
            assert(b@.caps =~= Seq::<CapModel>::empty());
            assert(b@ =~~= (BuilderModel {
                coordinates: Seq::<i64>::empty(),
                holes: Seq::<usize>::empty(),
                points_in_ring: 0,
                points_in_polygon: 0,
                last_point: Point2 { x: 0, y: 0 },
                extrusion_vertices: Seq::<Point3>::empty(),
                extrusion_uvs: Seq::<Point2>::empty(),
                polygon_uvs: Seq::<Point2>::empty(),
                extrusion_indices: Seq::<usize>::empty(),
                u_coordinate_total: 0,
                options: polygon_options,
                mesh: b@.mesh,
                caps: Seq::<CapModel>::empty(),
            }));
        }
        b
    }

    /// Appends one caller-supplied cap texture coordinate.
    pub fn add_uv(&mut self, uv: Point2)
        ensures
            final(self)@ == spec_add_uv(old(self)@, uv),
            builder_wf(old(self)@) ==> builder_wf(final(self)@),
    {
        self.polygon_uvs.push(uv);
        proof {
            assert(self@ =~~= spec_add_uv(old(self)@, uv));
        }
    }

    /// Starts a new polygon, clearing every per-polygon buffer.
    pub fn on_begin_polygon(&mut self)
        ensures
            final(self)@ == spec_on_begin_polygon(old(self)@),
            builder_wf(old(self)@) ==> builder_wf(final(self)@),
    {
        self.coordinates.clear();
        self.holes.clear();
        self.extrusion_vertices.clear();
        self.extrusion_uvs.clear();
        self.extrusion_indices.clear();
        self.polygon_uvs.clear();
        self.points_in_polygon = 0;
        proof {
            assert(self@ =~~= spec_on_begin_polygon(old(self)@));
        }
    }

    /// Starts a ring: restarts the ring point count and the wall texture
    /// length, and records a hole boundary at the current point count
    /// when points have already been taken for this polygon.
    pub fn on_begin_linear_ring(&mut self)
        ensures
            final(self)@ == spec_on_begin_linear_ring(old(self)@),
            builder_wf(old(self)@) ==> builder_wf(final(self)@),
    {
        self.points_in_ring = 0;
        self.u_coordinate_total = 0;
        if self.points_in_polygon > 0 {
            let boundary = self.points_in_polygon;
            self.holes.push(boundary);
        }
        proof {
            assert(self@ =~~= spec_on_begin_linear_ring(old(self)@));
        }
    }

    /// Takes one ring point: synthesizes a wall quad from the previous
    /// point when walls are on and the point is not the ring's first, and
    /// appends the point to the flattened coordinate buffer.
    pub fn on_point(&mut self, point: Point2)
        requires
            builder_wf(old(self)@),
            point_in_range(point),
            old(self)@.points_in_ring < 0x4000_0000,
        ensures
            final(self)@ == spec_on_point(old(self)@, point),
            builder_wf(final(self)@),
    {
        let max_height = self.options.max_height;
        let min_height = self.options.min_height;

        if self.options.build_walls && self.points_in_ring > 0 {
            let p0 = self.last_point;
            let p1 = point;
            let u0 = self.u_coordinate_total;
            let e = edge_length(p0, p1);
            let u1 = u0 + (e as i64);

            self.extrusion_vertices.push(Point3 { x: p0.x, y: max_height, z: p0.y });
            self.extrusion_vertices.push(Point3 { x: p1.x, y: max_height, z: p1.y });
            self.extrusion_vertices.push(Point3 { x: p0.x, y: min_height, z: p0.y });
            self.extrusion_vertices.push(Point3 { x: p1.x, y: min_height, z: p1.y });

            self.extrusion_uvs.push(Point2 { x: u0, y: 1 });
            self.extrusion_uvs.push(Point2 { x: u1, y: 1 });
            self.extrusion_uvs.push(Point2 { x: u0, y: 0 });
            self.extrusion_uvs.push(Point2 { x: u1, y: 0 });

            let base = self.extrusion_vertices.len() - 4;
            self.extrusion_indices.push(base);
            self.extrusion_indices.push(base + 1);
            self.extrusion_indices.push(base + 3);
            self.extrusion_indices.push(base);
            self.extrusion_indices.push(base + 3);
            self.extrusion_indices.push(base + 2);

            self.u_coordinate_total = u1;
        }

        self.last_point = point;
        self.coordinates.push(point.x);
        self.coordinates.push(point.y);
        let total_coords = self.coordinates.len();
        assert(total_coords == 2 * old(self)@.points_in_polygon + 2);
        self.points_in_ring = self.points_in_ring + 1;
        self.points_in_polygon = self.points_in_polygon + 1;
        proof {
            assert(self@.extrusion_vertices =~= spec_on_point(old(self)@, point).extrusion_vertices);
            assert(self@.extrusion_uvs =~= spec_on_point(old(self)@, point).extrusion_uvs);
            assert(self@.extrusion_indices =~= spec_on_point(old(self)@, point).extrusion_indices);
            assert(self@.coordinates =~= spec_on_point(old(self)@, point).coordinates);
            assert(self@ =~~= spec_on_point(old(self)@, point));
        }
    }

    /// Flushes the polygon: merges the wall batch (with its normals) into
    /// the output mesh and parks the cap for triangulation.  Mirrors the
    /// model exactly; buffers are left for the next `on_begin_polygon`.
    pub fn on_end_polygon(&mut self)
        requires
            builder_wf(old(self)@),
        ensures
            final(self)@ == spec_on_end_polygon(old(self)@),
            builder_wf(final(self)@),
    {
        if self.extrusion_vertices.len() > 0 {
            let mut verts = copy_vec(&self.extrusion_vertices);
            let mut uvs = copy_vec(&self.extrusion_uvs);
            let mut normals = calculate_normals(&verts, &self.extrusion_indices);
            self.output_mesh.add_elements(
                &mut verts,
                &self.extrusion_indices,
                &mut uvs,
                &mut normals,
            );
        }

        if self.coordinates.len() > 0 {
            let n_points = self.coordinates.len() / 2;
            let coords_len = self.coordinates.len();
            let uvs: Vec<Point2> = if self.polygon_uvs.len() == n_points {
                copy_vec(&self.polygon_uvs)
            } else {
                let mut derived: Vec<Point2> = Vec::new();
                let mut i: usize = 0;
                while i < n_points
                    invariant
                        0 <= i <= n_points,
                        coords_len == self.coordinates@.len(),
                        n_points == coords_len / 2,
                        self.coordinates@.len() % 2 == 0,
                        derived@ =~= spec_uvs_from_coords(self.coordinates@).take(i as int),
                    decreases n_points - i,
                {
                    let uv = Point2 { x: self.coordinates[2 * i], y: self.coordinates[2 * i + 1] };
                    derived.push(uv);
                    proof {
                        assert(derived@ =~= spec_uvs_from_coords(self.coordinates@).take(
                            i as int + 1,
                        ));
                    }
                    i += 1;
                }
                proof {
                    assert(derived@ =~= spec_uvs_from_coords(self.coordinates@));
                }
                derived
            };
            let cap = CapInput {
                coordinates: copy_vec(&self.coordinates),
                holes: copy_vec(&self.holes),
                uvs,
                max_height: self.options.max_height,
            };
            self.pending_caps.push(cap);
        }
        proof {
            assert(self@.caps =~= spec_on_end_polygon(old(self)@).caps);
            assert(self@ =~~= spec_on_end_polygon(old(self)@));
        }
    }
}

/// Twice the shoelace signed area of a ring, an exact integer.  The sign
/// classifies the ring: positive starts a new polygon's exterior,
/// non-positive contributes a hole.
pub open spec fn spec_area_term(ring: Seq<Point2>, i: int) -> int {
    let prev = if i == 0 {
        ring[ring.len() - 1]
    } else {
        ring[i - 1]
    };
    ring[i].x * prev.y - ring[i].y * prev.x
}

/// The shoelace sum over the first `k` ring points.
pub open spec fn spec_area_sum(ring: Seq<Point2>, k: int) -> int
    decreases k,
{
    if k <= 0 {
        0
    } else {
        spec_area_sum(ring, k - 1) + spec_area_term(ring, k - 1)
    }
}

/// Twice the signed area of the whole ring; zero for an empty ring.
pub open spec fn spec_signed_area_doubled(ring: Seq<Point2>) -> int {
    spec_area_sum(ring, ring.len() as int)
}

/// Computes twice the shoelace signed area of a ring of bounded points.
/// Twice, because the exact integer sum carries the sign and magnitude
/// without the halving step, which only the renderer would care about.
pub fn signed_area_doubled(ring: &Vec<Point2>) -> (area: i128)
    requires
        forall|i: int| 0 <= i < ring@.len() ==> point_in_range(#[trigger] ring@[i]),
    ensures
        area == spec_signed_area_doubled(ring@),
{
    let n = ring.len();
    if n == 0 {
        return 0;
    }

    let mut area: i128 = 0;
    let mut prev = ring[n - 1];
    let mut i: usize = 0;
    while i < n
        invariant
            0 <= i <= n,
            n == ring@.len(),
            n > 0,
            forall|k: int| 0 <= k < ring@.len() ==> point_in_range(#[trigger] ring@[k]),
            prev == (if i == 0 {
                ring@[n - 1]
            } else {
                ring@[i - 1]
            }),
            area == spec_area_sum(ring@, i as int),
            -0x800_0000_0000_0000 * (i as int) <= area <= 0x800_0000_0000_0000 * (i as int),
        decreases n - i,
    {
        let curr = ring[i];
        proof {
            lemma_mul_bound(curr.x as int, prev.y as int, 0x1000_0000);
            lemma_mul_bound(curr.y as int, prev.x as int, 0x1000_0000);
        }
        let term = (curr.x as i128) * (prev.y as i128) - (curr.y as i128) * (prev.x as i128);
        area = area + term;
        prev = curr;
        i += 1;
    }
    area
}

/// Whether the ring has at least three pairwise distinct points; a ring
/// without them is degenerate and is silently dropped by the decoder.
pub open spec fn spec_has_three_distinct(ring: Seq<Point2>) -> bool {
    exists|i: int, j: int, k: int|
        0 <= i < j < k < ring.len() && ring[i] != ring[j] && ring[i] != ring[k] && ring[j]
            != ring[k]
}

/// Decides whether a ring has three pairwise distinct points, by looking
/// for a first point differing from the start, then for one differing
/// from both.
pub fn has_three_distinct_points(ring: &Vec<Point2>) -> (r: bool)
    ensures
        r == spec_has_three_distinct(ring@),
{
    let n = ring.len();
    if n == 0 {
        return false;
    }
    let p0 = ring[0];

    let mut b: usize = 0;
    let mut found_b = false;
    let mut i: usize = 1;
    while i < n && !found_b
        invariant
            1 <= i <= n,
            n == ring@.len(),
            p0 == ring@[0],
            !found_b ==> forall|k: int| 0 <= k < i ==> ring@[k] == p0,
            found_b ==> 0 < b < n && ring@[b as int] != p0,
        decreases (n - i) + (if found_b {
            0int
        } else {
            1int
        }),
    {
        if ring[i].x != p0.x || ring[i].y != p0.y {
            b = i;
            found_b = true;
        } else {
            i += 1;
        }
    }
    if !found_b {
        assert(i == n);
        proof {
            assert(forall|k: int| 0 <= k < ring@.len() ==> ring@[k] == p0);
        }
        return false;
    }
    let pb = ring[b];

    let mut j: usize = 0;
    while j < n
        invariant
            0 <= j <= n,
            n == ring@.len(),
            p0 == ring@[0],
            0 < b < n,
            pb == ring@[b as int],
            pb != p0,
            forall|k: int| 0 <= k < j ==> ring@[k] == p0 || ring@[k] == pb,
        decreases n - j,
    {
        let pc = ring[j];
        if (pc.x != p0.x || pc.y != p0.y) && (pc.x != pb.x || pc.y != pb.y) {
            proof {
                let jj = j as int;
                let bb = b as int;
                if jj < bb {
                    assert(0 <= 0 < jj < bb < ring@.len() || jj == 0);
                    if jj == 0 {
                        assert(false);  // pc == ring[0] == p0 contradicts pc != p0
                    } else {
                        assert(ring@[0] != ring@[jj] && ring@[0] != ring@[bb] && ring@[jj]
                            != ring@[bb]);
                        assert(spec_has_three_distinct(ring@));
                    }
                } else {
                    assert(jj > bb);
                    assert(ring@[0] != ring@[bb] && ring@[0] != ring@[jj] && ring@[bb]
                        != ring@[jj]);
                    assert(spec_has_three_distinct(ring@));
                }
            }
            return true;
        }
        j += 1;
    }
    proof {
        assert forall|ii: int, jj: int, kk: int|
            0 <= ii < jj < kk < ring@.len() implies !(ring@[ii] != ring@[jj] && ring@[ii]
            != ring@[kk] && ring@[jj] != ring@[kk]) by {
            assert(ring@[ii] == p0 || ring@[ii] == pb);
            assert(ring@[jj] == p0 || ring@[jj] == pb);
            assert(ring@[kk] == p0 || ring@[kk] == pb);
        }
    }
    false
}

/// The cap's 3D vertices: each 2D coordinate pair lifted to the cap's
/// height plane.
pub open spec fn spec_cap_vertices(c: CapModel) -> Seq<Point3> {
    Seq::new(
        c.coordinates.len() / 2,
        |i: int| Point3 { x: c.coordinates[2 * i], y: c.max_height, z: c.coordinates[2 * i + 1] },
    )
}

/// Each triangle of the list with its winding reversed: the first and
/// third index of every triple swapped, matching the renderer's
/// front-face convention.
pub open spec fn spec_flip_winding(tris: Seq<usize>) -> Seq<usize> {
    Seq::new(
        tris.len(),
        |i: int|
            if i % 3 == 0 {
                tris[i + 2]
            } else if i % 3 == 2 {
                tris[i - 2]
            } else {
                tris[i]
            },
    )
}

/// Whether a triangle list answered by the external triangulator is
/// acceptable for the cap: whole triangles, every index naming one of the
/// cap's points.
pub open spec fn spec_cap_triangles_valid(c: CapModel, tris: Seq<usize>) -> bool {
    &&& tris.len() % 3 == 0
    &&& forall|i: int| 0 <= i < tris.len() ==> (#[trigger] tris[i] as int) < c.coordinates.len() / 2
}

/// The mesh after merging a triangulated cap: vertices on the cap's
/// height plane, the answered triangles with their winding reversed, the
/// cap's texture coordinates, and accumulated normals.
pub open spec fn spec_add_cap(m: MeshModel, c: CapModel, tris: Seq<usize>) -> MeshModel {
    spec_add_elements(
        m,
        spec_cap_vertices(c),
        spec_flip_winding(tris),
        c.uvs,
        normals_of(spec_cap_vertices(c), spec_flip_winding(tris)),
    )
}

/// Decides whether a triangle list answered by the triangulator is
/// acceptable for the cap.
pub fn cap_triangles_valid(cap: &CapInput, triangles: &Vec<usize>) -> (r: bool)
    ensures
        r == spec_cap_triangles_valid(cap@, triangles@),
{
    let n_points = cap.coordinates.len() / 2;
    let n_tris = triangles.len();
    if n_tris % 3 != 0 {
        return false;
    }
    let mut i: usize = 0;
    while i < n_tris
        invariant
            0 <= i <= n_tris,
            n_tris == triangles@.len(),
            n_points == cap@.coordinates.len() / 2,
            forall|k: int| 0 <= k < i ==> (#[trigger] triangles@[k] as int) < n_points,
        decreases n_tris - i,
    {
        if triangles[i] >= n_points {
            return false;
        }
        i += 1;
    }
    true
}

/// Merges one triangulated cap into a mesh.  The triangle list comes from
/// the unverified triangulation pass, so it is checked first: a list that
/// is not whole triangles over the cap's own points is rejected and the
/// mesh is left untouched.
pub fn add_cap_to_mesh(mesh: &mut OutputMesh, cap: &CapInput, triangles: &Vec<usize>) -> (ok: bool)
    requires
        mesh_wf(old(mesh)@),
        cap_wf(cap@),
    ensures
        ok == spec_cap_triangles_valid(cap@, triangles@),
        ok ==> final(mesh)@ == spec_add_cap(old(mesh)@, cap@, triangles@),
        !ok ==> final(mesh)@ == old(mesh)@,
        mesh_wf(final(mesh)@),
{
    if !cap_triangles_valid(cap, triangles) {
        return false;
    }
    let n_points = cap.coordinates.len() / 2;
    let n_tris = triangles.len();

    let cap_len = cap.coordinates.len();
    let mut vertices: Vec<Point3> = Vec::new();
    let mut j: usize = 0;
    while j < n_points
        invariant
            0 <= j <= n_points,
            cap_len == cap@.coordinates.len(),
            n_points == cap_len / 2,
            cap_wf(cap@),
            vertices@ =~= spec_cap_vertices(cap@).take(j as int),
        decreases n_points - j,
    {
        let v = Point3 {
            x: cap.coordinates[2 * j],
            y: cap.max_height,
            z: cap.coordinates[2 * j + 1],
        };
        vertices.push(v);
        proof {
            assert(vertices@ =~= spec_cap_vertices(cap@).take(j as int + 1));
        }
        j += 1;
    }
    proof {
        assert(vertices@ =~= spec_cap_vertices(cap@));
    }

    let mut flipped: Vec<usize> = Vec::new();
    let mut k: usize = 0;
    while k < n_tris
        invariant
            0 <= k <= n_tris,
            k % 3 == 0,
            n_tris == triangles@.len(),
            n_tris % 3 == 0,
            flipped@ =~= spec_flip_winding(triangles@).take(k as int),
        decreases n_tris - k,
    {
        flipped.push(triangles[k + 2]);
        flipped.push(triangles[k + 1]);
        flipped.push(triangles[k]);
        proof {
            assert(flipped@ =~= spec_flip_winding(triangles@).take(k as int + 3));
        }
        k += 3;
    }
    proof {
        assert(flipped@ =~= spec_flip_winding(triangles@));
    }

    let mut uvs = copy_vec(&cap.uvs);
    let mut normals = calculate_normals(&vertices, &flipped);
    mesh.add_elements(&mut vertices, &flipped, &mut uvs, &mut normals);
    true
}

/// Result of parsing one ring: the closed ring and the stream position
/// and cursor it ends with.
#[verifier::ext_equal]
pub struct ParsedRing {
    pub ring: Seq<Point2>,
    pub pos: int,
    pub x: int,
    pub y: int,
}

/// Meaning of parsing one ring: a command word whose content is not
/// consulted, the start point, a command word giving the count of the
/// remaining points, those points, and a closing command word; the start
/// point is appended again so the ring comes out explicitly closed.
pub open spec fn spec_parse_ring(geom: Seq<u32>, pos: int, x: int, y: int) -> Result<
    ParsedRing,
    DecodeError,
> {
    if pos >= geom.len() {
        Err(DecodeError::TruncatedStream)
    } else {
        match spec_parse_points(geom, pos + 1, x, y, 1) {
            Err(e) => Err(e),
            Ok(start) => {
                if start.pos >= geom.len() {
                    Err(DecodeError::TruncatedStream)
                } else {
                    let repeat = geom[start.pos] as int / 8;
                    match spec_parse_points(geom, start.pos + 1, start.x, start.y, repeat) {
                        Err(e) => Err(e),
                        Ok(rest) => {
                            if rest.pos >= geom.len() {
                                Err(DecodeError::TruncatedStream)
                            } else {
                                Ok(
                                    ParsedRing {
                                        ring: start.points + rest.points + seq![start.points[0]],
                                        pos: rest.pos + 1,
                                        x: rest.x,
                                        y: rest.y,
                                    },
                                )
                            }
                        },
                    }
                }
            },
        }
    }
}

/// Meaning of parsing a whole geometry stream: rings until the stream is
/// exhausted.  The guard on the ring's end position keeps the recursion
/// well founded; a parsed ring always moves forward, so it never fails.
pub open spec fn spec_parse_rings(geom: Seq<u32>, pos: int, x: int, y: int) -> Result<
    Seq<Seq<Point2>>,
    DecodeError,
>
    decreases geom.len() - pos,
{
    if pos >= geom.len() {
        Ok(Seq::empty())
    } else {
        match spec_parse_ring(geom, pos, x, y) {
            Err(e) => Err(e),
            Ok(st) => {
                if pos < st.pos <= geom.len() {
                    match spec_parse_rings(geom, st.pos, st.x, st.y) {
                        Err(e) => Err(e),
                        Ok(rest) => Ok(seq![st.ring] + rest),
                    }
                } else {
                    Err(DecodeError::TruncatedStream)
                }
            },
        }
    }
}

/// Shape facts about one successfully parsed ring: it moves the position
/// strictly forward within the stream, is explicitly closed, has between
/// two and `2 + (u32::MAX / 8)` points, all in range, and leaves the
/// cursor on its last decoded point.
pub proof fn lemma_parse_ring_props(geom: Seq<u32>, pos: int, x: int, y: int)
    requires
        0 <= pos <= geom.len(),
        -COORD_LIMIT <= x <= COORD_LIMIT,
        -COORD_LIMIT <= y <= COORD_LIMIT,
    ensures
        spec_parse_ring(geom, pos, x, y) matches Ok(st) ==> {
            &&& pos + 5 <= st.pos <= geom.len()
            &&& 2 <= st.ring.len() <= 0x2000_0001
            &&& st.ring.last() == st.ring.first()
            &&& forall|i: int| 0 <= i < st.ring.len() ==> point_in_range(#[trigger] st.ring[i])
            &&& -COORD_LIMIT <= st.x <= COORD_LIMIT
            &&& -COORD_LIMIT <= st.y <= COORD_LIMIT
        },
{
    if pos < geom.len() {
        lemma_parse_points_props(geom, pos + 1, x, y, 1);
        match spec_parse_points(geom, pos + 1, x, y, 1) {
            Ok(start) => {
                if start.pos < geom.len() {
                    let repeat = geom[start.pos] as int / 8;
                    assert(0 <= repeat <= 0x1FFF_FFFF);
                    lemma_parse_points_props(geom, start.pos + 1, start.x, start.y, repeat);
                    match spec_parse_points(geom, start.pos + 1, start.x, start.y, repeat) {
                        Ok(rest) => {
                            if rest.pos < geom.len() {
                                let ring = start.points + rest.points + seq![start.points[0]];
                                assert(ring.len() == repeat + 2);
                                assert(ring.first() == start.points[0]);
                                assert(ring.last() == start.points[0]);
                            }
                        },
                        Err(_) => {},
                    }
                }
            },
            Err(_) => {},
        }
    }
}

/// Shape facts about a successfully parsed stream: every ring is closed,
/// holds between two and `2 + (u32::MAX / 8)` in-range points.
pub proof fn lemma_parse_rings_props(
    geom: Seq<u32>,
    pos: int,
    x: int,
    y: int,
    rings: Seq<Seq<Point2>>,
)
    requires
        0 <= pos,
        -COORD_LIMIT <= x <= COORD_LIMIT,
        -COORD_LIMIT <= y <= COORD_LIMIT,
        spec_parse_rings(geom, pos, x, y) == Ok::<Seq<Seq<Point2>>, DecodeError>(rings),
    ensures
        forall|i: int|
            0 <= i < rings.len() ==> {
                &&& 2 <= (#[trigger] rings[i]).len() <= 0x2000_0001
                &&& rings[i].last() == rings[i].first()
                &&& forall|j: int| 0 <= j < rings[i].len() ==> point_in_range(#[trigger] rings[i][j])
            },
    decreases geom.len() - pos,
{
    if pos >= geom.len() {
        assert(rings =~= Seq::<Seq<Point2>>::empty());
    } else {
        match spec_parse_ring(geom, pos, x, y) {
            Err(_) => {},
            Ok(st) => {
                lemma_parse_ring_props(geom, pos, x, y);
                if pos < st.pos <= geom.len() {
                    match spec_parse_rings(geom, st.pos, st.x, st.y) {
                        Err(_) => {},
                        Ok(rest) => {
                            lemma_parse_rings_props(geom, st.pos, st.x, st.y, rest);
                            assert(rings == seq![st.ring] + rest);
                            assert(rings[0] == st.ring);
                            assert(forall|i: int|
                                1 <= i < rest.len() + 1 ==> rings[i] == rest[i - 1]);
                        },
                    }
                }
            },
        }
    }
}

/// Ring closing law: every ring the assembler produces is explicitly
/// closed, its first point appearing again as its last.
pub proof fn lemma_ring_closing(
    geom: Seq<u32>,
    pos: int,
    x: int,
    y: int,
    rings: Seq<Seq<Point2>>,
)
    requires
        0 <= pos,
        -COORD_LIMIT <= x <= COORD_LIMIT,
        -COORD_LIMIT <= y <= COORD_LIMIT,
        spec_parse_rings(geom, pos, x, y) == Ok::<Seq<Seq<Point2>>, DecodeError>(rings),
    ensures
        forall|i: int|
            0 <= i < rings.len() ==> (#[trigger] rings[i]).len() >= 2 && rings[i].last()
                == rings[i].first(),
{
    lemma_parse_rings_props(geom, pos, x, y, rings);
}

/// The builder state after one ring of points has been fed, point by
/// point in order.
pub open spec fn spec_feed_ring_points(m: BuilderModel, ring: Seq<Point2>, k: int) -> BuilderModel
    decreases k,
{
    if k <= 0 {
        m
    } else {
        spec_on_point(spec_feed_ring_points(m, ring, k - 1), ring[k - 1])
    }
}

/// The builder state and polygon-started flag after one decoded ring.  A
/// ring without three distinct points is degenerate and dropped without
/// reaching the builder.  A positive signed area starts a new polygon,
/// flushing the previous one if any; otherwise the ring is a hole of the
/// current polygon.  Either way the ring's points are then fed in order.
pub open spec fn spec_feed_one_ring(m: BuilderModel, started: bool, ring: Seq<Point2>) -> (
    BuilderModel,
    bool,
) {
    if !spec_has_three_distinct(ring) {
        (m, started)
    } else {
        let flushed = if spec_signed_area_doubled(ring) > 0 {
            (
                spec_on_begin_polygon(
                    if started {
                        spec_on_end_polygon(m)
                    } else {
                        m
                    },
                ),
                true,
            )
        } else {
            (m, started)
        };
        let m2 = spec_on_begin_linear_ring(flushed.0);
        (spec_feed_ring_points(m2, ring, ring.len() as int), flushed.1)
    }
}

/// The builder state and started flag after the first `k` decoded rings.
pub open spec fn spec_feed_rings(
    m: BuilderModel,
    started: bool,
    rings: Seq<Seq<Point2>>,
    k: int,
) -> (BuilderModel, bool)
    decreases k,
{
    if k <= 0 {
        (m, started)
    } else {
        let prev = spec_feed_rings(m, started, rings, k - 1);
        spec_feed_one_ring(prev.0, prev.1, rings[k - 1])
    }
}

/// The builder state after a whole decoded stream: every ring fed in
/// order, then the final unconditional polygon flush.
pub open spec fn spec_decode_polygons(m: BuilderModel, rings: Seq<Seq<Point2>>) -> BuilderModel {
    spec_on_end_polygon(spec_feed_rings(m, false, rings, rings.len() as int).0)
}

/// The rings of a decoded stream as sequences.
pub open spec fn views_of(rings: Seq<Vec<Point2>>) -> Seq<Seq<Point2>> {
    rings.map_values(|r: Vec<Point2>| r@)
}

/// Streaming decoder for polygon features: reads rings from the command
/// stream and drives a `PolygonBuilder`.
pub struct PolygonDecoder {
    /// The stream cursor, exposed so callers can observe the position.
    pub cursor: GeometryCursor,
    /// The tile's coordinate-space resolution; the render layer divides
    /// coordinates by `extent - 1` to normalize them.
    pub extent: u32,
}

impl View for PolygonDecoder {
    type V = CursorModel;

    open spec fn view(&self) -> CursorModel {
        self.cursor@
    }
}

impl PolygonDecoder {
    /// A decoder over one feature's geometry words.
    pub fn new(extent: u32, geometry: Vec<u32>) -> (d: PolygonDecoder)
        requires
            extent >= 2,
        ensures
            d@ == (CursorModel { geometry: geometry@, position: 0, x: 0, y: 0 }),
            cursor_wf(d@),
            d.extent == extent,
    {
        PolygonDecoder { cursor: GeometryCursor::new(geometry), extent }
    }

    /// The ring assembler: reads rings until the stream is exhausted,
    /// each explicitly closed by repeating its start point.
    pub fn read_rings(&mut self) -> (r: Result<Vec<Vec<Point2>>, DecodeError>)
        requires
            cursor_wf(old(self)@),
        ensures
            cursor_wf(final(self)@),
            final(self)@.geometry == old(self)@.geometry,
            final(self).extent == old(self).extent,
            match r {
                Ok(rings) => spec_parse_rings(
                    old(self)@.geometry,
                    old(self)@.position,
                    old(self)@.x,
                    old(self)@.y,
                ) == Ok::<Seq<Seq<Point2>>, DecodeError>(views_of(rings@))
                    && final(self)@.position == final(self)@.geometry.len(),
                Err(e) => spec_parse_rings(
                    old(self)@.geometry,
                    old(self)@.position,
                    old(self)@.x,
                    old(self)@.y,
                ) == Err::<Seq<Seq<Point2>>, DecodeError>(e),
            },
    {
        let mut rings: Vec<Vec<Point2>> = Vec::new();
        let mut rem = self.cursor.remaining();
        while rem > 0
            invariant
                cursor_wf(self@),
                self@.geometry == old(self)@.geometry,
                self.extent == old(self).extent,
                rem == self@.geometry.len() - self@.position,
                spec_parse_rings(
                    old(self)@.geometry,
                    old(self)@.position,
                    old(self)@.x,
                    old(self)@.y,
                ) == (match spec_parse_rings(self@.geometry, self@.position, self@.x, self@.y) {
                    Ok(rest) => Ok::<Seq<Seq<Point2>>, DecodeError>(views_of(rings@) + rest),
                    Err(e) => Err::<Seq<Seq<Point2>>, DecodeError>(e),
                }),
            decreases rem,
        {
            let ghost pre = self@;
            let ghost prev_rings = rings@;

            let _c0 = match self.cursor.advance_command() {
                Ok(c) => c,
                Err(_) => {
                    proof {
                        assert(false);
                    }
                    return Err(DecodeError::TruncatedStream);
                },
            };
            let ghost s1 = self@;
            let start_pts = match self.cursor.read_points(1) {
                Ok(v) => v,
                Err(e) => {
                    proof {
                        assert(spec_parse_ring(pre.geometry, pre.position, pre.x, pre.y)
                            == Err::<ParsedRing, DecodeError>(e));
                    }
                    return Err(e);
                },
            };
            proof {
                lemma_parse_points_props(s1.geometry, s1.position, s1.x, s1.y, 1);
            }
            let start = start_pts[0];
            let ghost s2 = self@;
            let c1 = match self.cursor.advance_command() {
                Ok(c) => c,
                Err(e) => {
                    proof {
                        assert(s2.position == s2.geometry.len());
                        assert(spec_parse_ring(pre.geometry, pre.position, pre.x, pre.y)
                            == Err::<ParsedRing, DecodeError>(DecodeError::TruncatedStream));
                    }
                    return Err(e);
                },
            };
            let ghost s3 = self@;
            let mut rest_pts = match self.cursor.read_points(c1.repeat) {
                Ok(v) => v,
                Err(e) => {
                    proof {
                        assert(spec_parse_ring(pre.geometry, pre.position, pre.x, pre.y)
                            == Err::<ParsedRing, DecodeError>(e));
                    }
                    return Err(e);
                },
            };
            let ghost rest_view = rest_pts@;
            let ghost s4 = self@;
            let _c2 = match self.cursor.advance_command() {
                Ok(c) => c,
                Err(e) => {
                    proof {
                        assert(s4.position == s4.geometry.len());
                        assert(spec_parse_ring(pre.geometry, pre.position, pre.x, pre.y)
                            == Err::<ParsedRing, DecodeError>(DecodeError::TruncatedStream));
                    }
                    return Err(e);
                },
            };

            let mut ring: Vec<Point2> = Vec::new();
            ring.push(start);
            ring.append(&mut rest_pts);
            ring.push(start);
            rings.push(ring);

            proof {
                let st = ParsedRing {
                    ring: seq![start] + rest_view + seq![start],
                    pos: self@.position,
                    x: self@.x,
                    y: self@.y,
                };
                assert(spec_parse_ring(pre.geometry, pre.position, pre.x, pre.y) matches Ok(got)
                    && got =~~= st);
                lemma_parse_ring_props(pre.geometry, pre.position, pre.x, pre.y);
                assert(rings@[rings@.len() - 1]@ =~= st.ring);
                assert(views_of(rings@) =~= views_of(prev_rings) + seq![st.ring]);
                assert(pre.position < st.pos <= pre.geometry.len());
                match spec_parse_rings(self@.geometry, self@.position, self@.x, self@.y) {
                    Ok(rest) => {
                        assert(views_of(prev_rings) + (seq![st.ring] + rest) =~= views_of(rings@)
                            + rest);
                    },
                    Err(_) => {},
                }
            }
            rem = self.cursor.remaining();
        }
        proof {
            assert(spec_parse_rings(self@.geometry, self@.position, self@.x, self@.y) == Ok::<
                Seq<Seq<Point2>>,
                DecodeError,
            >(Seq::empty()));
            assert(views_of(rings@) + Seq::<Seq<Point2>>::empty() =~= views_of(rings@));
        }
        Ok(rings)
    }

    /// Decodes the whole stream and drives the builder: each ring with
    /// three distinct points is classified by the sign of its area and
    /// fed point by point, and the final polygon is flushed
    /// unconditionally at the end of input.  On a malformed stream the
    /// builder is left untouched and the error names the first fault.
    pub fn decode(&mut self, builder: &mut PolygonBuilder) -> (r: Result<(), DecodeError>)
        requires
            cursor_wf(old(self)@),
            builder_wf(old(builder)@),
        ensures
            cursor_wf(final(self)@),
            final(self)@.geometry == old(self)@.geometry,
            final(self).extent == old(self).extent,
            builder_wf(final(builder)@),
            match r {
                Ok(_) => spec_parse_rings(
                    old(self)@.geometry,
                    old(self)@.position,
                    old(self)@.x,
                    old(self)@.y,
                ) matches Ok(rs) && final(builder)@ == spec_decode_polygons(old(builder)@, rs)
                    && final(self)@.position == final(self)@.geometry.len(),
                Err(e) => spec_parse_rings(
                    old(self)@.geometry,
                    old(self)@.position,
                    old(self)@.x,
                    old(self)@.y,
                ) == Err::<Seq<Seq<Point2>>, DecodeError>(e) && final(builder)@ == old(builder)@,
            },
    {
        let ghost g0 = self@;
        let rings = match self.read_rings() {
            Ok(r) => r,
            Err(e) => {
                return Err(e);
            },
        };
        let ghost rs = views_of(rings@);
        proof {
            lemma_parse_rings_props(g0.geometry, g0.position, g0.x, g0.y, rs);
        }

        let n = rings.len();
        let mut started = false;
        let mut idx: usize = 0;
        while idx < n
            invariant
                0 <= idx <= n,
                n == rings@.len(),
                rs == views_of(rings@),
                builder_wf(builder@),
                builder@ == spec_feed_rings(old(builder)@, false, rs, idx as int).0,
                started == spec_feed_rings(old(builder)@, false, rs, idx as int).1,
                forall|i: int|
                    0 <= i < rs.len() ==> {
                        &&& 2 <= (#[trigger] rs[i]).len() <= 0x2000_0001
                        &&& forall|j: int| 0 <= j < rs[i].len() ==> point_in_range(#[trigger] rs[i][j])
                    },
            decreases n - idx,
        {
            let ghost prev_b = builder@;
            let ghost prev_s = started;
            let ring = &rings[idx];
            assert(ring@ == rs[idx as int]);
            if has_three_distinct_points(ring) {
                let area = signed_area_doubled(ring);
                if area > 0 {
                    if started {
                        builder.on_end_polygon();
                    }
                    builder.on_begin_polygon();
                    started = true;
                }
                builder.on_begin_linear_ring();
                let ghost m2 = builder@;
                let m = ring.len();
                let mut j: usize = 0;
                while j < m
                    invariant
                        0 <= j <= m,
                        m == ring@.len(),
                        ring@ == rs[idx as int],
                        0 <= idx < rs.len(),
                        rs == views_of(rings@),
                        m <= 0x2000_0001,
                        forall|jj: int| 0 <= jj < ring@.len() ==> point_in_range(#[trigger] ring@[jj]),
                        builder_wf(builder@),
                        builder@ == spec_feed_ring_points(m2, ring@, j as int),
                        builder@.points_in_ring == j,
                    decreases m - j,
                {
                    builder.on_point(ring[j]);
                    j += 1;
                }
                proof {
                    assert(builder@ == spec_feed_one_ring(prev_b, prev_s, rs[idx as int]).0);
                    assert(started == spec_feed_one_ring(prev_b, prev_s, rs[idx as int]).1);
                }
            } else {
                proof {
                    assert(builder@ == spec_feed_one_ring(prev_b, prev_s, rs[idx as int]).0);
                }
            }
            idx += 1;
            proof {
                assert(spec_feed_rings(old(builder)@, false, rs, idx as int)
                    == spec_feed_one_ring(prev_b, prev_s, rs[idx as int - 1]));
            }
        }
        builder.on_end_polygon();
        Ok(())
    }
}

} // verus!
