//! Mesh buffers and the append-only mesh accumulator.
//!
//! All coordinates live in the tile's integer coordinate space; the render
//! layer divides by `extent - 1` when it uploads buffers.  Normals are kept
//! as unnormalized area-weighted sums (see `normals`), again leaving the
//! floating-point normalization to the render layer.

use vstd::prelude::*;

verus! {

/// Bound on coordinates the decoders accept, and on the heights and
/// thicknesses of the tessellators' options.  Generous for real tiles
/// (extents are a few thousand) while keeping every later computation —
/// squared edge lengths, shoelace sums, normal accumulation — exactly
/// representable.
pub const COORD_LIMIT: i64 = 0x1000_0000;

/// A 2D point (or texture coordinate) in tile units.
#[derive(Clone, Copy, Debug, PartialEq, Eq, Structural)]
pub struct Point2 {
    pub x: i64,
    pub y: i64,
}

/// Whether a decoded point lies within the accepted coordinate range.
pub open spec fn point_in_range(p: Point2) -> bool {
    &&& -COORD_LIMIT <= p.x <= COORD_LIMIT
    &&& -COORD_LIMIT <= p.y <= COORD_LIMIT
}

/// A 3D vertex in tile units.
#[derive(Clone, Copy, Debug, PartialEq, Eq, Structural)]
pub struct Point3 {
    pub x: i64,
    pub y: i64,
    pub z: i64,
}

/// An unnormalized, area-weighted vertex normal.
#[derive(Clone, Copy, Debug, PartialEq, Eq, Structural)]
pub struct Normal3 {
    pub x: i128,
    pub y: i128,
    pub z: i128,
}

/// Mathematical model of an `OutputMesh`: its four buffers as sequences.
pub struct MeshModel {
    pub vertices: Seq<Point3>,
    pub indices: Seq<usize>,
    pub uvs: Seq<Point2>,
    pub normals: Seq<Normal3>,
}

/// A batch of mesh elements is well formed when the per-vertex buffers agree
/// in length, the index list is a whole number of triangles, and every index
/// points at one of the batch's own vertices.
pub open spec fn batch_wf(
    vertices: Seq<Point3>,
    indices: Seq<usize>,
    uvs: Seq<Point2>,
    normals: Seq<Normal3>,
) -> bool {
    &&& uvs.len() == vertices.len()
    &&& normals.len() == vertices.len()
    &&& indices.len() % 3 == 0
    &&& forall|i: int| 0 <= i < indices.len() ==> (indices[i] as int) < vertices.len()
}

/// Invariant of the accumulator: its own buffers form a well-formed batch.
pub open spec fn mesh_wf(m: MeshModel) -> bool {
    batch_wf(m.vertices, m.indices, m.uvs, m.normals)
}

/// Each index shifted up by `offset`, the accumulator's vertex count at the
/// time of the append.
pub open spec fn offset_indices(indices: Seq<usize>, offset: int) -> Seq<usize> {
    indices.map_values(|idx: usize| (idx + offset) as usize)
}

/// The accumulator state after appending one batch: per-vertex buffers are
/// concatenated verbatim, indices are shifted by the prior vertex count.
pub open spec fn spec_add_elements(
    m: MeshModel,
    vertices: Seq<Point3>,
    indices: Seq<usize>,
    uvs: Seq<Point2>,
    normals: Seq<Normal3>,
) -> MeshModel {
    MeshModel {
        vertices: m.vertices + vertices,
        indices: m.indices + offset_indices(indices, m.vertices.len() as int),
        uvs: m.uvs + uvs,
        normals: m.normals + normals,
    }
}

/// Append-only mesh buffer that merges many small tessellation passes into
/// one globally indexed mesh.
pub struct OutputMesh {
    pub vertices: Vec<Point3>,
    pub indices: Vec<usize>,
    pub uvs: Vec<Point2>,
    pub normals: Vec<Normal3>,
}

impl View for OutputMesh {
    type V = MeshModel;

    open spec fn view(&self) -> MeshModel {
        MeshModel {
            vertices: self.vertices@,
            indices: self.indices@,
            uvs: self.uvs@,
            normals: self.normals@,
        }
    }
}

impl OutputMesh {
    /// An empty mesh.
    pub fn new() -> (m: OutputMesh)
        ensures
            m@.vertices.len() == 0,
            m@.indices.len() == 0,
            m@.uvs.len() == 0,
            m@.normals.len() == 0,
            mesh_wf(m@),
    {
        OutputMesh { vertices: Vec::new(), indices: Vec::new(), uvs: Vec::new(), normals: Vec::new() }
    }

    /// Merges one batch into the accumulator: vertices, uvs and normals are
    /// appended verbatim (draining the given buffers), and each batch index
    /// is appended shifted by the accumulator's prior vertex count, so that
    /// it keeps pointing at the batch's own vertices.
    pub fn add_elements(
        &mut self,
        vertices: &mut Vec<Point3>,
        indices: &Vec<usize>,
        uvs: &mut Vec<Point2>,
        normals: &mut Vec<Normal3>,
    )
        requires
            mesh_wf(old(self)@),
            batch_wf(old(vertices)@, indices@, old(uvs)@, old(normals)@),
        ensures
            final(self)@ == spec_add_elements(
                old(self)@,
                old(vertices)@,
                indices@,
                old(uvs)@,
                old(normals)@,
            ),
            mesh_wf(final(self)@),
            final(vertices)@.len() == 0,
            final(uvs)@.len() == 0,
            final(normals)@.len() == 0,
    {
        let offset = self.vertices.len();
        let ghost batch_len = vertices@.len();
        self.vertices.append(vertices);
        self.normals.append(normals);
        self.uvs.append(uvs);

        let total = self.vertices.len();
        assert(total == offset + batch_len);

        let n = indices.len();
        let mut i: usize = 0;
        while i < n
            invariant
                0 <= i <= n,
                n == indices@.len(),
                total == offset + batch_len,
                total == self.vertices@.len(),
                forall|k: int| 0 <= k < n ==> (indices@[k] as int) < batch_len,
                self.indices@ == old(self).indices@ + offset_indices(
                    indices@.take(i as int),
                    offset as int,
                ),
                self.vertices@ == old(self).vertices@ + old(vertices)@,
                self.uvs@ == old(self).uvs@ + old(uvs)@,
                self.normals@ == old(self).normals@ + old(normals)@,
            decreases n - i,
        {
            assert((indices@[i as int] as int) < batch_len);
            let shifted = offset + indices[i];
            self.indices.push(shifted);
            proof {
                assert(self.indices@ =~= old(self).indices@ + offset_indices(
                    indices@.take(i as int + 1),
                    offset as int,
                ));
            }
            i += 1;
        }
        proof {
            assert(indices@.take(n as int) =~= indices@);
            assert(self@ =~~= spec_add_elements(
                old(self)@,
                old(vertices)@,
                indices@,
                old(uvs)@,
                old(normals)@,
            ));
        }
    }
}

/// Offset law of the accumulator: after a batch is appended, the batch's
/// index `k` reappears at the end of the combined index buffer, shifted by
/// exactly the vertex count that the accumulator held before the append.
pub proof fn lemma_add_elements_offsets(
    m: MeshModel,
    vertices: Seq<Point3>,
    indices: Seq<usize>,
    uvs: Seq<Point2>,
    normals: Seq<Normal3>,
    k: int,
)
    requires
        0 <= k < indices.len(),
    ensures
        spec_add_elements(m, vertices, indices, uvs, normals).indices[m.indices.len() + k]
            == ((indices[k] + m.vertices.len()) as usize),
{
}

} // verus!
