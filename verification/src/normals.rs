//! Area-weighted per-vertex normal accumulation over a triangle list.
//!
//! For each triangle the unnormalized cross product of its two edge vectors
//! is added to the normal of each of its three corners, so larger triangles
//! weigh more.  The sums are exact integers; dividing by the vector length
//! (a floating-point step) is left to the render layer, which changes only
//! the magnitude of each normal, never its direction.

use vstd::prelude::*;
use crate::mesh::{Normal3, Point3};

verus! {

/// Bound on vertex coordinates accepted by the normal calculator; keeps all
/// cross products and their sums inside `i128`.
pub const VERTEX_LIMIT: i64 = 0x2000_0000;

/// Whether one vertex is within the calculator's coordinate bound.
pub open spec fn vertex_in_range(v: Point3) -> bool {
    &&& -VERTEX_LIMIT <= v.x <= VERTEX_LIMIT
    &&& -VERTEX_LIMIT <= v.y <= VERTEX_LIMIT
    &&& -VERTEX_LIMIT <= v.z <= VERTEX_LIMIT
}

/// An exact (unbounded) normal sum, the model of a `Normal3`.
pub struct NormalSum {
    pub x: int,
    pub y: int,
    pub z: int,
}

/// Componentwise sum.
pub open spec fn ns_add(a: NormalSum, b: NormalSum) -> NormalSum {
    NormalSum { x: a.x + b.x, y: a.y + b.y, z: a.z + b.z }
}

/// The unnormalized face normal of triangle `(va, vb, vc)`: the cross
/// product of its edge vectors `vb - va` and `vc - va`.
pub open spec fn tri_cross(va: Point3, vb: Point3, vc: Point3) -> NormalSum {
    let e1x = vb.x - va.x;
    let e1y = vb.y - va.y;
    let e1z = vb.z - va.z;
    let e2x = vc.x - va.x;
    let e2y = vc.y - va.y;
    let e2z = vc.z - va.z;
    NormalSum {
        x: e1y * e2z - e1z * e2y,
        y: e1z * e2x - e1x * e2z,
        z: e1x * e2y - e1y * e2x,
    }
}

/// All-zero normal sums, one per vertex.
pub open spec fn zero_normals(n: nat) -> Seq<NormalSum> {
    Seq::new(n, |i: int| NormalSum { x: 0, y: 0, z: 0 })
}

/// Normal sums after the first `t` triangles of the index list have been
/// accumulated, each triangle adding its face normal to its three corners
/// in slot order.
pub open spec fn spec_accumulate(vertices: Seq<Point3>, indices: Seq<usize>, t: int) -> Seq<
    NormalSum,
>
    decreases t,
{
    if t <= 0 {
        zero_normals(vertices.len())
    } else {
        let prev = spec_accumulate(vertices, indices, t - 1);
        let i0 = indices[3 * (t - 1)] as int;
        let i1 = indices[3 * (t - 1) + 1] as int;
        let i2 = indices[3 * (t - 1) + 2] as int;
        let c = tri_cross(vertices[i0], vertices[i1], vertices[i2]);
        let s0 = prev.update(i0, ns_add(prev[i0], c));
        let s1 = s0.update(i1, ns_add(s0[i1], c));
        s1.update(i2, ns_add(s1[i2], c))
    }
}

/// The calculator's result: zero for meshes of fewer than three vertices,
/// otherwise the accumulation over the whole triangle list.
pub open spec fn spec_calculate_normals(vertices: Seq<Point3>, indices: Seq<usize>) -> Seq<
    NormalSum,
> {
    if vertices.len() < 3 {
        zero_normals(vertices.len())
    } else {
        spec_accumulate(vertices, indices, indices.len() as int / 3)
    }
}

/// Whether a machine normal equals its model.
pub open spec fn normal_is(n: Normal3, s: NormalSum) -> bool {
    n.x == s.x && n.y == s.y && n.z == s.z
}

/// The calculator's result as machine normals; meaningful whenever the
/// sums fit the machine type, which the calculator's contract guarantees.
pub open spec fn normals_of(vertices: Seq<Point3>, indices: Seq<usize>) -> Seq<Normal3> {
    Seq::new(
        vertices.len(),
        |v: int|
            {
                let s = spec_calculate_normals(vertices, indices)[v];
                Normal3 { x: s.x as i128, y: s.y as i128, z: s.z as i128 }
            },
    )
}

pub(crate) proof fn lemma_mul_bound(a: int, b: int, bound: int)
    by (nonlinear_arith)
    requires
        -bound <= a <= bound,
        -bound <= b <= bound,
        0 <= bound,
    ensures
        -bound * bound <= a * b <= bound * bound,
{
}

proof fn lemma_edge_products_bounded(va: Point3, vb: Point3, vc: Point3)
    requires
        vertex_in_range(va),
        vertex_in_range(vb),
        vertex_in_range(vc),
    ensures
        -0x1000_0000_0000_0000 <= (vb.y - va.y) * (vc.z - va.z) <= 0x1000_0000_0000_0000,
        -0x1000_0000_0000_0000 <= (vb.z - va.z) * (vc.y - va.y) <= 0x1000_0000_0000_0000,
        -0x1000_0000_0000_0000 <= (vb.z - va.z) * (vc.x - va.x) <= 0x1000_0000_0000_0000,
        -0x1000_0000_0000_0000 <= (vb.x - va.x) * (vc.z - va.z) <= 0x1000_0000_0000_0000,
        -0x1000_0000_0000_0000 <= (vb.x - va.x) * (vc.y - va.y) <= 0x1000_0000_0000_0000,
        -0x1000_0000_0000_0000 <= (vb.y - va.y) * (vc.x - va.x) <= 0x1000_0000_0000_0000,
{
    assert(-0x4000_0000 <= vb.x - va.x <= 0x4000_0000);
    assert(-0x4000_0000 <= vb.y - va.y <= 0x4000_0000);
    assert(-0x4000_0000 <= vb.z - va.z <= 0x4000_0000);
    assert(-0x4000_0000 <= vc.x - va.x <= 0x4000_0000);
    assert(-0x4000_0000 <= vc.y - va.y <= 0x4000_0000);
    assert(-0x4000_0000 <= vc.z - va.z <= 0x4000_0000);
    lemma_mul_bound(vb.y - va.y, vc.z - va.z, 0x4000_0000);
    lemma_mul_bound(vb.z - va.z, vc.y - va.y, 0x4000_0000);
    lemma_mul_bound(vb.z - va.z, vc.x - va.x, 0x4000_0000);
    lemma_mul_bound(vb.x - va.x, vc.z - va.z, 0x4000_0000);
    lemma_mul_bound(vb.x - va.x, vc.y - va.y, 0x4000_0000);
    lemma_mul_bound(vb.y - va.y, vc.x - va.x, 0x4000_0000);
}

/// Computes one normal per vertex: the sum, over all triangles that use the
/// vertex, of the triangle's unnormalized face normal.  A vertex used by no
/// triangle keeps the zero vector.  Mirrors the model exactly, including
/// its short-circuit for meshes of fewer than three vertices.
#[verifier::rlimit(60)]
pub fn calculate_normals(vertices: &Vec<Point3>, indices: &Vec<usize>) -> (normals: Vec<Normal3>)
    requires
        indices@.len() % 3 == 0,
        forall|i: int| 0 <= i < indices@.len() ==> (indices@[i] as int) < vertices@.len(),
        forall|i: int| 0 <= i < vertices@.len() ==> vertex_in_range(vertices@[i]),
    ensures
        normals@.len() == vertices@.len(),
        forall|v: int|
            0 <= v < vertices@.len() ==> normal_is(
                normals@[v],
                #[trigger] spec_calculate_normals(vertices@, indices@)[v],
            ),
        normals@ == normals_of(vertices@, indices@),
{
    let n = vertices.len();
    let mut normals: Vec<Normal3> = Vec::new();
    while normals.len() < n
        invariant
            normals@.len() <= n,
            forall|v: int| 0 <= v < normals@.len() ==> normals@[v] == (Normal3 { x: 0, y: 0, z: 0 }),
        decreases n - normals@.len(),
    {
        normals.push(Normal3 { x: 0, y: 0, z: 0 });
    }
    if n < 3 {
        assert(forall|v: int|
            0 <= v < vertices@.len() ==> normal_is(
                normals@[v],
                #[trigger] spec_calculate_normals(vertices@, indices@)[v],
            ));
        assert(normals@ =~= normals_of(vertices@, indices@));
        return normals;
    }

    let num_indices = indices.len();
    let mut index: usize = 0;
    while index < num_indices
        invariant
            0 <= index <= num_indices,
            index % 3 == 0,
            num_indices == indices@.len(),
            num_indices % 3 == 0,
            n == vertices@.len(),
            3 <= n,
            normals@.len() == n,
            forall|i: int| 0 <= i < indices@.len() ==> (indices@[i] as int) < vertices@.len(),
            forall|i: int| 0 <= i < vertices@.len() ==> vertex_in_range(vertices@[i]),
            forall|v: int|
                0 <= v < n ==> normal_is(
                    normals@[v],
                    #[trigger] spec_accumulate(vertices@, indices@, index as int / 3)[v],
                ),
            forall|v: int|
                0 <= v < n ==> {
                    &&& -(0x2000_0000_0000_0000 * (index as int)) <= (
                    #[trigger] normals@[v]).x <= 0x2000_0000_0000_0000 * (index as int)
                    &&& -(0x2000_0000_0000_0000 * (index as int)) <= normals@[v].y
                        <= 0x2000_0000_0000_0000 * (index as int)
                    &&& -(0x2000_0000_0000_0000 * (index as int)) <= normals@[v].z
                        <= 0x2000_0000_0000_0000 * (index as int)
                },
        decreases num_indices - index,
    {
        let i0 = indices[index];
        let i1 = indices[index + 1];
        let i2 = indices[index + 2];
        let va = vertices[i0];
        let vb = vertices[i1];
        let vc = vertices[i2];
        proof {
            lemma_edge_products_bounded(va, vb, vc);
        }

        let e1x = (vb.x as i128) - (va.x as i128);
        let e1y = (vb.y as i128) - (va.y as i128);
        let e1z = (vb.z as i128) - (va.z as i128);
        let e2x = (vc.x as i128) - (va.x as i128);
        let e2y = (vc.y as i128) - (va.y as i128);
        let e2z = (vc.z as i128) - (va.z as i128);
        let cx = e1y * e2z - e1z * e2y;
        let cy = e1z * e2x - e1x * e2z;
        let cz = e1x * e2y - e1y * e2x;
        let ghost c = tri_cross(va, vb, vc);
        assert(cx == c.x && cy == c.y && cz == c.z);
        assert(-0x2000_0000_0000_0000 <= cx <= 0x2000_0000_0000_0000);
        assert(-0x2000_0000_0000_0000 <= cy <= 0x2000_0000_0000_0000);
        assert(-0x2000_0000_0000_0000 <= cz <= 0x2000_0000_0000_0000);

        let ghost t = index as int / 3;
        proof {
            // The running sums stay far below the i128 range: at most one
            // bounded contribution per index slot.
            assert(index as int + 3 <= usize::MAX as int + 3);
            assert(0x2000_0000_0000_0000 * (index as int + 3) <= 0x2000_0000_0000_0000 * (
            usize::MAX as int + 3));
        }

        let n0 = normals[i0];
        normals.set(i0, Normal3 { x: n0.x + cx, y: n0.y + cy, z: n0.z + cz });
        let n1 = normals[i1];
        normals.set(i1, Normal3 { x: n1.x + cx, y: n1.y + cy, z: n1.z + cz });
        let n2 = normals[i2];
        normals.set(i2, Normal3 { x: n2.x + cx, y: n2.y + cy, z: n2.z + cz });

        proof {
            lemma_accumulate_len(vertices@, indices@, t);
            lemma_accumulate_len(vertices@, indices@, t + 1);
            let prevs = spec_accumulate(vertices@, indices@, t);
            let s0 = prevs.update(i0 as int, ns_add(prevs[i0 as int], c));
            let s1 = s0.update(i1 as int, ns_add(s0[i1 as int], c));
            let s2 = s1.update(i2 as int, ns_add(s1[i2 as int], c));
            assert(spec_accumulate(vertices@, indices@, t + 1) == s2);
            assert((index as int + 3) / 3 == t + 1);
            assert(forall|v: int| 0 <= v < n ==> normal_is(normals@[v], #[trigger] s2[v]));
        }
        index += 3;
    }
    assert(index as int / 3 == indices@.len() / 3);
    assert(normals@ =~= normals_of(vertices@, indices@));
    normals
}

/// The accumulation keeps one normal sum per vertex.
pub proof fn lemma_accumulate_len(vertices: Seq<Point3>, indices: Seq<usize>, t: int)
    requires
        3 * t <= indices.len(),
        forall|i: int| 0 <= i < indices.len() ==> (indices[i] as int) < vertices.len(),
    ensures
        spec_accumulate(vertices, indices, t).len() == vertices.len(),
    decreases t,
{
    if t > 0 {
        lemma_accumulate_len(vertices, indices, t - 1);
        let prev = spec_accumulate(vertices, indices, t - 1);
        assert(0 <= 3 * (t - 1) < indices.len());
        let i0 = indices[3 * (t - 1)] as int;
        let i1 = indices[3 * (t - 1) + 1] as int;
        let i2 = indices[3 * (t - 1) + 2] as int;
        let c = tri_cross(vertices[i0], vertices[i1], vertices[i2]);
        assert(0 <= i0 < vertices.len() && 0 <= i1 < vertices.len() && 0 <= i2 < vertices.len());
        let s0 = prev.update(i0, ns_add(prev[i0], c));
        let s1 = s0.update(i1, ns_add(s0[i1], c));
        assert(spec_accumulate(vertices, indices, t) == s1.update(i2, ns_add(s1[i2], c)));
    }
}

/// Flat-mesh normal law: when every vertex of a mesh lies in one horizontal
/// plane, every accumulated normal is vertical; and when every triangle of
/// the mesh also winds upward (its face normal has a positive `y`
/// component), every vertex that some triangle uses receives a strictly
/// upward normal, which normalizes to the unit vector pointing up.
pub proof fn lemma_flat_mesh_normals(
    vertices: Seq<Point3>,
    indices: Seq<usize>,
    plane_y: int,
    t: int,
)
    requires
        0 <= 3 * t <= indices.len(),
        forall|i: int| 0 <= i < indices.len() ==> (indices[i] as int) < vertices.len(),
        forall|v: int| 0 <= v < vertices.len() ==> (#[trigger] vertices[v]).y == plane_y,
        forall|u: int|
            0 <= u < indices.len() / 3 ==> (#[trigger] tri_cross(
                vertices[indices[3 * u] as int],
                vertices[indices[3 * u + 1] as int],
                vertices[indices[3 * u + 2] as int],
            )).y > 0,
    ensures
        forall|v: int|
            0 <= v < vertices.len() ==> {
                &&& (#[trigger] spec_accumulate(vertices, indices, t)[v]).x == 0
                &&& spec_accumulate(vertices, indices, t)[v].z == 0
                &&& spec_accumulate(vertices, indices, t)[v].y >= 0
            },
        forall|s: int|
            0 <= s < 3 * t ==> spec_accumulate(vertices, indices, t)[#[trigger] indices[s] as int].y
                > 0,
    decreases t,
{
    lemma_accumulate_len(vertices, indices, t);
    if t <= 0 {
    } else {
        lemma_flat_mesh_normals(vertices, indices, plane_y, t - 1);
        lemma_accumulate_len(vertices, indices, t - 1);
        let prev = spec_accumulate(vertices, indices, t - 1);
        let cur = spec_accumulate(vertices, indices, t);
        let i0 = indices[3 * (t - 1)] as int;
        let i1 = indices[3 * (t - 1) + 1] as int;
        let i2 = indices[3 * (t - 1) + 2] as int;
        assert(0 <= i0 < vertices.len() && 0 <= i1 < vertices.len() && 0 <= i2 < vertices.len());
        let va = vertices[i0];
        let vb = vertices[i1];
        let vc = vertices[i2];
        let c = tri_cross(va, vb, vc);
        assert(va.y == plane_y && vb.y == plane_y && vc.y == plane_y);
        assert(vb.y - va.y == 0 && vc.y - va.y == 0);
        assert(c.x == (vb.y - va.y) * (vc.z - va.z) - (vb.z - va.z) * (vc.y - va.y));
        assert(c.z == (vb.x - va.x) * (vc.y - va.y) - (vb.y - va.y) * (vc.x - va.x));
        assert(c.x == 0 && c.z == 0) by (nonlinear_arith)
            requires
                c.x == (vb.y - va.y) * (vc.z - va.z) - (vb.z - va.z) * (vc.y - va.y),
                c.z == (vb.x - va.x) * (vc.y - va.y) - (vb.y - va.y) * (vc.x - va.x),
                vb.y - va.y == 0,
                vc.y - va.y == 0,
        ;
        assert(t - 1 < indices.len() / 3);
        assert(tri_cross(
            vertices[indices[3 * (t - 1)] as int],
            vertices[indices[3 * (t - 1) + 1] as int],
            vertices[indices[3 * (t - 1) + 2] as int],
        ).y > 0);
        assert(c.y > 0);
        let s0 = prev.update(i0, ns_add(prev[i0], c));
        let s1 = s0.update(i1, ns_add(s0[i1], c));
        let s2 = s1.update(i2, ns_add(s1[i2], c));
        assert(cur =~= s2);
        assert forall|v: int|
            0 <= v < vertices.len() implies (#[trigger] cur[v]).x == 0 && cur[v].z == 0 && cur[v].y
            >= prev[v].y by {
            assert(prev[v].x == 0 && prev[v].z == 0 && prev[v].y >= 0);
        }
        assert(cur[i0].y > 0 && cur[i1].y > 0 && cur[i2].y > 0);
        assert forall|s: int| 0 <= s < 3 * t implies cur[#[trigger] indices[s] as int].y > 0 by {
            if s < 3 * (t - 1) {
                assert(prev[indices[s] as int].y > 0);
            } else {
                assert(s == 3 * (t - 1) || s == 3 * (t - 1) + 1 || s == 3 * (t - 1) + 2);
            }
        }
    }
}

} // verus!
