//! Triangulated quad meshes: vertex, flat normal and index containers.
//!
//! A mesh grows one quad at a time: four corner vertices, one flat normal
//! computed as a cross product of two quad edges, and six indices forming two
//! triangles whose order depends on the requested winding. A stitched mesh
//! concatenates whole meshes, rebasing the appended indices by the vertex
//! count already present so they keep referring to the same vertices.

use vstd::prelude::*;

verus! {

/// Bound on mesh vertex coordinates, so that edge cross products fit i64.
pub const MESH_COORD_BOUND: i32 = 0x2000_0000;

/// Vertex traversal order of an emitted quad's triangles; decides which side
/// is the front face.
#[derive(Debug, Clone, Copy, PartialEq, Eq, Structural)]
pub enum WindingDirection {
    Clockwise,
    CounterClockwise,
}

/// A mesh vertex position in block units.
#[derive(Debug, Clone, Copy, PartialEq, Eq, Structural)]
pub struct MeshVertex {
    pub x: i32,
    pub y: i32,
    pub z: i32,
}

/// A flat per-quad normal (not normalized; direction only).
#[derive(Debug, Clone, Copy, PartialEq, Eq, Structural)]
pub struct MeshNormal {
    pub x: i64,
    pub y: i64,
    pub z: i64,
}

/// The mathematical content of a mesh: three parallel sequences.
pub struct MeshView {
    pub vertices: Seq<MeshVertex>,
    pub normals: Seq<MeshNormal>,
    pub indices: Seq<u32>,
}

/// Every index refers to a vertex that exists.
pub open spec fn spec_indices_valid(m: MeshView) -> bool {
    forall|i: int| 0 <= i < m.indices.len() ==> (m.indices[i] as int) < m.vertices.len()
}

/// A quad-structured mesh: four vertices and six indices per quad, one
/// normal per quad, and every index in range.
pub open spec fn spec_mesh_wf(m: MeshView) -> bool {
    &&& m.vertices.len() == 4 * m.normals.len()
    &&& m.indices.len() == 6 * m.normals.len()
    &&& spec_indices_valid(m)
}

/// A mesh with nothing in it.
pub open spec fn spec_empty_mesh() -> MeshView {
    MeshView { vertices: Seq::empty(), normals: Seq::empty(), indices: Seq::empty() }
}

/// A vertex coordinate small enough for normal arithmetic.
pub open spec fn spec_in_mesh_bound(v: MeshVertex) -> bool {
    &&& -MESH_COORD_BOUND <= v.x <= MESH_COORD_BOUND
    &&& -MESH_COORD_BOUND <= v.y <= MESH_COORD_BOUND
    &&& -MESH_COORD_BOUND <= v.z <= MESH_COORD_BOUND
}

/// The six indices of one quad, two triangles, relative to a base vertex.
/// Clockwise quads walk 2-1-0 / 0-3-2; counter-clockwise quads 0-1-2 / 0-2-3.
pub open spec fn spec_quad_indices(base: int, w: WindingDirection) -> Seq<u32> {
    match w {
        WindingDirection::Clockwise => seq![
            (base + 2) as u32,
            (base + 1) as u32,
            base as u32,
            base as u32,
            (base + 3) as u32,
            (base + 2) as u32,
        ],
        WindingDirection::CounterClockwise => seq![
            base as u32,
            (base + 1) as u32,
            (base + 2) as u32,
            base as u32,
            (base + 2) as u32,
            (base + 3) as u32,
        ],
    }
}

/// The flat normal of a quad: the cross product of its first two edges,
/// `(p1 - p0) x (p2 - p0)`.
pub open spec fn spec_quad_normal(p0: MeshVertex, p1: MeshVertex, p2: MeshVertex) -> MeshNormal {
    MeshNormal {
        x: ((p1.y - p0.y) * (p2.z - p0.z) - (p1.z - p0.z) * (p2.y - p0.y)) as i64,
        y: ((p1.z - p0.z) * (p2.x - p0.x) - (p1.x - p0.x) * (p2.z - p0.z)) as i64,
        z: ((p1.x - p0.x) * (p2.y - p0.y) - (p1.y - p0.y) * (p2.x - p0.x)) as i64,
    }
}

/// A mesh after appending one quad: four vertices, one normal, six indices
/// based at the previous vertex count.
pub open spec fn spec_add_quad(m: MeshView, points: Seq<MeshVertex>, w: WindingDirection)
    -> MeshView {
    MeshView {
        vertices: m.vertices + points,
        normals: m.normals.push(spec_quad_normal(points[0], points[1], points[2])),
        indices: m.indices + spec_quad_indices(m.vertices.len() as int, w),
    }
}

/// A mesh after appending a whole other mesh, indices rebased by the vertex
/// count already present.
pub open spec fn spec_stitch(a: MeshView, b: MeshView) -> MeshView {
    MeshView {
        vertices: a.vertices + b.vertices,
        normals: a.normals + b.normals,
        indices: a.indices + b.indices.map(|_i: int, v: u32| (v + a.vertices.len()) as u32),
    }
}

/// Stitch rebasing: appending mesh `b` after mesh `a` keeps `a`'s indices,
/// shifts each of `b`'s indices up by exactly `a`'s vertex count, and keeps
/// every index valid.
pub proof fn lemma_stitch_rebase(a: MeshView, b: MeshView)
    requires
        spec_indices_valid(a),
        spec_indices_valid(b),
        a.vertices.len() + b.vertices.len() <= u32::MAX,
    ensures
        spec_indices_valid(spec_stitch(a, b)),
        spec_stitch(a, b).vertices.len() == a.vertices.len() + b.vertices.len(),
        spec_stitch(a, b).indices.len() == a.indices.len() + b.indices.len(),
        forall|j: int|
            0 <= j < a.indices.len() ==> spec_stitch(a, b).indices[j] == a.indices[j],
        forall|j: int|
            0 <= j < b.indices.len() ==> (#[trigger] spec_stitch(a, b).indices[a.indices.len()
                + j]) as int == b.indices[j] + a.vertices.len(),
{
    let s = spec_stitch(a, b);
    assert forall|i: int| 0 <= i < s.indices.len() implies (s.indices[i] as int)
        < s.vertices.len() by {
        if i >= a.indices.len() {
            assert((b.indices[i - a.indices.len()] as int) < b.vertices.len());
        }
    }
}

/// A growable quad mesh.
pub struct Mesh {
    vertices: Vec<MeshVertex>,
    normals: Vec<MeshNormal>,
    indices: Vec<u32>,
}

impl View for Mesh {
    type V = MeshView;

    closed spec fn view(&self) -> MeshView {
        MeshView { vertices: self.vertices@, normals: self.normals@, indices: self.indices@ }
    }
}

/// The product of two values bounded by `m` is bounded by `m * m`.
proof fn lemma_mul_bound(a: int, b: int, m: int)
    requires
        -m <= a <= m,
        -m <= b <= m,
        0 <= m,
    ensures
        -(m * m) <= a * b <= m * m,
{
    assert(-(m * m) <= a * b <= m * m) by (nonlinear_arith)
        requires
            -m <= a <= m,
            -m <= b <= m,
            0 <= m,
    ;
}

impl Default for Mesh {
    /// An empty mesh.
    fn default() -> (m: Mesh)
        ensures
            m@ == spec_empty_mesh(),
            spec_mesh_wf(m@),
    {
        let m = Mesh { vertices: Vec::new(), normals: Vec::new(), indices: Vec::new() };
        proof {
            assert(m@.vertices =~= spec_empty_mesh().vertices);
            assert(m@.normals =~= spec_empty_mesh().normals);
            assert(m@.indices =~= spec_empty_mesh().indices);
        }
        m
    }
}

impl Mesh {
    /// Appends one quad: the four corner vertices, one flat normal computed
    /// from the first three corners, and six indices in the given winding,
    /// based at the vertex count before the call.
    pub fn add_quad(&mut self, points: [MeshVertex; 4], winding_direction: WindingDirection)
        requires
            spec_mesh_wf(old(self)@),
            old(self)@.vertices.len() + 4 <= u32::MAX,
            forall|k: int| 0 <= k < 4 ==> spec_in_mesh_bound(#[trigger] points@[k]),
        ensures
            final(self)@ == spec_add_quad(old(self)@, points@, winding_direction),
            spec_mesh_wf(final(self)@),
    {
        let ghost old_view = self@;
        let vertex_start_pos: u32 = self.vertices.len() as u32;
        let p0 = points[0];
        let p1 = points[1];
        let p2 = points[2];
        self.vertices.push(points[0]);
        self.vertices.push(points[1]);
        self.vertices.push(points[2]);
        self.vertices.push(points[3]);

        let ax: i64 = (p1.x - p0.x) as i64;
        let ay: i64 = (p1.y - p0.y) as i64;
        let az: i64 = (p1.z - p0.z) as i64;
        let bx: i64 = (p2.x - p0.x) as i64;
        let by: i64 = (p2.y - p0.y) as i64;
        let bz: i64 = (p2.z - p0.z) as i64;
        proof {
            lemma_mul_bound(ay as int, bz as int, 2 * MESH_COORD_BOUND as int);
            lemma_mul_bound(az as int, by as int, 2 * MESH_COORD_BOUND as int);
            lemma_mul_bound(az as int, bx as int, 2 * MESH_COORD_BOUND as int);
            lemma_mul_bound(ax as int, bz as int, 2 * MESH_COORD_BOUND as int);
            lemma_mul_bound(ax as int, by as int, 2 * MESH_COORD_BOUND as int);
            lemma_mul_bound(ay as int, bx as int, 2 * MESH_COORD_BOUND as int);
        }
        let normal = MeshNormal {
            x: ay * bz - az * by,
            y: az * bx - ax * bz,
            z: ax * by - ay * bx,
        };
        self.normals.push(normal);

        match winding_direction {
            WindingDirection::Clockwise => {
                self.indices.push(vertex_start_pos + 2);
                self.indices.push(vertex_start_pos + 1);
                self.indices.push(vertex_start_pos);
                self.indices.push(vertex_start_pos);
                self.indices.push(vertex_start_pos + 3);
                self.indices.push(vertex_start_pos + 2);
            },
            WindingDirection::CounterClockwise => {
                self.indices.push(vertex_start_pos);
                self.indices.push(vertex_start_pos + 1);
                self.indices.push(vertex_start_pos + 2);
                self.indices.push(vertex_start_pos);
                self.indices.push(vertex_start_pos + 2);
                self.indices.push(vertex_start_pos + 3);
            },
        }
        proof {
            let target = spec_add_quad(old_view, points@, winding_direction);
            assert(self@.vertices =~= target.vertices);
            assert(self@.normals =~= target.normals);
            assert(self@.indices =~= target.indices);
        }
    }

    pub fn vertices(&self) -> (r: &[MeshVertex])
        ensures
            r@ == self@.vertices,
    {
        self.vertices.as_slice()
    }

    pub fn normals(&self) -> (r: &[MeshNormal])
        ensures
            r@ == self@.normals,
    {
        self.normals.as_slice()
    }

    pub fn indicies(&self) -> (r: &[u32])
        ensures
            r@ == self@.indices,
    {
        self.indices.as_slice()
    }

    /// Whether the mesh holds no geometry at all.
    pub fn is_empty(&self) -> (r: bool)
        ensures
            r == (self@.vertices.len() == 0),
    {
        self.vertices.len() == 0
    }
}

/// A mesh stitched together from other meshes: one big vertex/index pair
/// built by concatenation with index rebasing. It does not try to combine
/// faces or deduplicate vertices.
pub struct StitchedMesh {
    verticies: Vec<MeshVertex>,
    normals: Vec<MeshNormal>,
    indicies: Vec<u32>,
}

impl View for StitchedMesh {
    type V = MeshView;

    closed spec fn view(&self) -> MeshView {
        MeshView { vertices: self.verticies@, normals: self.normals@, indices: self.indicies@ }
    }
}

impl Default for StitchedMesh {
    /// An empty stitched mesh.
    fn default() -> (m: StitchedMesh)
        ensures
            m@ == spec_empty_mesh(),
            spec_mesh_wf(m@),
    {
        let m = StitchedMesh { verticies: Vec::new(), normals: Vec::new(), indicies: Vec::new() };
        proof {
            assert(m@.vertices =~= spec_empty_mesh().vertices);
            assert(m@.normals =~= spec_empty_mesh().normals);
            assert(m@.indices =~= spec_empty_mesh().indices);
        }
        m
    }
}

impl StitchedMesh {
    /// Appends a mesh: vertices and normals verbatim, indices shifted up by
    /// the vertex count present before the call, so each index keeps
    /// referring to the vertex it referred to in the appended mesh.
    pub fn stich(&mut self, mesh: &Mesh)
        requires
            spec_mesh_wf(old(self)@),
            spec_mesh_wf(mesh@),
            old(self)@.vertices.len() + mesh@.vertices.len() <= u32::MAX,
        ensures
            final(self)@ == spec_stitch(old(self)@, mesh@),
            spec_mesh_wf(final(self)@),
    {
        let ghost old_view = self@;
        let num_existing_verticies: u32 = self.verticies.len() as u32;

        let mesh_verticies = mesh.vertices();
        let mut i: usize = 0;
        while i < mesh_verticies.len()
            invariant
                i <= mesh_verticies.len(),
                mesh_verticies@ == mesh@.vertices,
                self@.vertices == old_view.vertices + mesh@.vertices.take(i as int),
                self@.normals == old_view.normals,
                self@.indices == old_view.indices,
            decreases mesh_verticies.len() - i,
        {
            self.verticies.push(*vstd::slice::slice_index_get(mesh_verticies, i));
            proof {
                assert(self@.vertices =~= old_view.vertices + mesh@.vertices.take(i + 1));
            }
            i = i + 1;
        }

        let mesh_normals = mesh.normals();
        let mut i: usize = 0;
        while i < mesh_normals.len()
            invariant
                i <= mesh_normals.len(),
                mesh_normals@ == mesh@.normals,
                self@.vertices == old_view.vertices + mesh@.vertices.take(mesh@.vertices.len() as int),
                self@.normals == old_view.normals + mesh@.normals.take(i as int),
                self@.indices == old_view.indices,
            decreases mesh_normals.len() - i,
        {
            self.normals.push(*vstd::slice::slice_index_get(mesh_normals, i));
            proof {
                assert(self@.normals =~= old_view.normals + mesh@.normals.take(i + 1));
            }
            i = i + 1;
        }

        let mesh_indicies = mesh.indicies();
        let mut i: usize = 0;
        while i < mesh_indicies.len()
            invariant
                i <= mesh_indicies.len(),
                mesh_indicies@ == mesh@.indices,
                mesh@.vertices.len() + num_existing_verticies <= u32::MAX,
                spec_indices_valid(mesh@),
                num_existing_verticies == old_view.vertices.len(),
                self@.vertices == old_view.vertices + mesh@.vertices.take(mesh@.vertices.len() as int),
                self@.normals == old_view.normals + mesh@.normals.take(mesh@.normals.len() as int),
                self@.indices == old_view.indices + mesh@.indices.take(i as int).map(
                    |_j: int, v: u32| (v + old_view.vertices.len()) as u32,
                ),
            decreases mesh_indicies.len() - i,
        {
            let idx: u32 = *vstd::slice::slice_index_get(mesh_indicies, i);
            assert(idx < mesh@.vertices.len());
            self.indicies.push(idx + num_existing_verticies);
            proof {
                assert(self@.indices =~= old_view.indices + mesh@.indices.take(i + 1).map(
                    |_j: int, v: u32| (v + old_view.vertices.len()) as u32,
                ));
            }
            i = i + 1;
        }

        proof {
            let target = spec_stitch(old_view, mesh@);
            assert(self@.vertices =~= target.vertices);
            assert(self@.normals =~= target.normals);
            assert(self@.indices =~= target.indices);
            lemma_stitch_rebase(old_view, mesh@);
        }
    }

    pub fn verticies(&self) -> (r: &[MeshVertex])
        ensures
            r@ == self@.vertices,
    {
        self.verticies.as_slice()
    }

    pub fn normals(&self) -> (r: &[MeshNormal])
        ensures
            r@ == self@.normals,
    {
        self.normals.as_slice()
    }

    pub fn indicies(&self) -> (r: &[u32])
        ensures
            r@ == self@.indices,
    {
        self.indicies.as_slice()
    }
}

} // verus!
