//! Face-culling chunk meshing.
//!
//! For every non-air block of a chunk and each of the six face directions,
//! the neighbor block is resolved first in the chunk itself, then in the
//! supplied neighbor-chunk snapshots in order; an unresolved neighbor counts
//! as air. A quad is emitted exactly for the faces whose neighbor is air or
//! absent, so no interior face between two non-air blocks is ever meshed, and
//! an unloaded boundary is meshed conservatively (a face may be over-drawn,
//! never under-drawn). Down-facing quads use counter-clockwise winding, all
//! other directions clockwise.

use vstd::prelude::*;
use vstd::arithmetic::div_mod::lemma_fundamental_div_mod_converse;
use crate::block::Block;
use crate::block_position::{
    lemma_aligned_headroom, lemma_axis_decomposition, BlockPosition,
};
use crate::chunk::{Chunk, ChunkView, CHUNK_BLOCK_DEPTH, CHUNK_BLOCK_HEIGHT, CHUNK_BLOCK_WIDTH,
    CHUNK_SIZE};
use crate::direction::{spec_direction_at, Direction};
use crate::mesh::{
    spec_add_quad, spec_empty_mesh, spec_in_mesh_bound, spec_mesh_wf, Mesh, MeshVertex,
    MeshView, WindingDirection, MESH_COORD_BOUND,
};

verus! {

/// The chunk contents that a sequence of optional chunk snapshots stands for.
pub open spec fn spec_neighbor_views(s: Seq<Option<Chunk>>) -> Seq<Option<ChunkView>> {
    s.map(
        |_i: int, oc: Option<Chunk>|
            match oc {
                Some(c) => Some(c@),
                None => None,
            },
    )
}

/// Every supplied neighbor snapshot is a well-formed chunk.
pub open spec fn spec_neighbors_wf(ns: Seq<Option<ChunkView>>) -> bool {
    forall|i: int|
        0 <= i < ns.len() ==> (#[trigger] ns[i] matches Some(n) ==> n.wf())
}

/// The block visible at `p` in the first neighbor snapshot, from place `i`
/// on, whose chunk contains `p`; `None` when no snapshot does.
pub open spec fn spec_resolve_from(
    ns: Seq<Option<ChunkView>>,
    p: BlockPosition,
    i: int,
) -> Option<Block>
    decreases ns.len() - i,
{
    if i < 0 || i >= ns.len() {
        None
    } else {
        match ns[i] {
            Some(n) => if n.contains_position(p) {
                n.visible_block_at(p)
            } else {
                spec_resolve_from(ns, p, i + 1)
            },
            None => spec_resolve_from(ns, p, i + 1),
        }
    }
}

/// Neighbor resolution: the block visible at `p`, looked up first in the
/// chunk itself, then in the neighbor snapshots in order. `None` means air
/// or no chunk covering `p`: an exposed face.
pub open spec fn spec_resolve_neighbor(
    c: ChunkView,
    ns: Seq<Option<ChunkView>>,
    p: BlockPosition,
) -> Option<Block> {
    if c.contains_position(p) {
        c.visible_block_at(p)
    } else {
        spec_resolve_from(ns, p, 0)
    }
}

/// The world position one step from `p` in direction `d`.
pub open spec fn spec_neighbor_position(p: BlockPosition, d: Direction) -> BlockPosition {
    BlockPosition {
        x: (p.x + d.spec_unit_offset().0) as i32,
        y: (p.y + d.spec_unit_offset().1) as i32,
        z: (p.z + d.spec_unit_offset().2) as i32,
    }
}

/// Gets the 6 neighbor blocks of the block at the position, in the fixed
/// [`Direction`] order. A neighbor that is air, outside every supplied
/// chunk, or in an absent snapshot is `None`.
pub fn get_neighbors(
    chunk: &Chunk,
    neighbor_chunks: &[Option<Chunk>],
    position: BlockPosition,
) -> (r: Vec<(Direction, Option<Block>)>)
    requires
        chunk@.wf(),
        spec_neighbors_wf(spec_neighbor_views(neighbor_chunks@)),
        i32::MIN + 1 <= position.x <= i32::MAX - 1,
        i32::MIN + 1 <= position.y <= i32::MAX - 1,
        i32::MIN + 1 <= position.z <= i32::MAX - 1,
    ensures
        r@.len() == 6,
        forall|k: int|
            0 <= k < 6 ==> #[trigger] r@[k] == (
                spec_direction_at(k),
                spec_resolve_neighbor(
                    chunk@,
                    spec_neighbor_views(neighbor_chunks@),
                    spec_neighbor_position(position, spec_direction_at(k)),
                ),
            ),
{
    let ghost ns = spec_neighbor_views(neighbor_chunks@);
    let mut neighbors: Vec<(Direction, Option<Block>)> = Vec::new();
    let mut k: usize = 0;
    while k < 6
        invariant
            chunk@.wf(),
            spec_neighbors_wf(ns),
            ns == spec_neighbor_views(neighbor_chunks@),
            i32::MIN + 1 <= position.x <= i32::MAX - 1,
            i32::MIN + 1 <= position.y <= i32::MAX - 1,
            i32::MIN + 1 <= position.z <= i32::MAX - 1,
            k <= 6,
            neighbors@.len() == k,
            forall|k2: int|
                0 <= k2 < k ==> #[trigger] neighbors@[k2] == (
                    spec_direction_at(k2),
                    spec_resolve_neighbor(
                        chunk@,
                        ns,
                        spec_neighbor_position(position, spec_direction_at(k2)),
                    ),
                ),
        decreases 6 - k,
    {
        let direction = Direction::from_index(k);
        let unit = direction.unit_offset();
        let neighbor_position = position.offset(unit.0, unit.1, unit.2);
        assert(neighbor_position == spec_neighbor_position(position, spec_direction_at(k as int)));
        match chunk.get_block_at_position(neighbor_position) {
            Ok(block) => {
                neighbors.push((direction, block));
            },
            Err(_) => {
                let mut found: bool = false;
                let mut j: usize = 0;
                while j < neighbor_chunks.len() && !found
                    invariant
                        chunk@.wf(),
                        spec_neighbors_wf(ns),
                        ns == spec_neighbor_views(neighbor_chunks@),
                        j <= neighbor_chunks.len(),
                        k < 6,
                        direction == spec_direction_at(k as int),
                        neighbor_position == spec_neighbor_position(
                            position,
                            spec_direction_at(k as int),
                        ),
                        neighbors@.len() == k + (if found { 1int } else { 0int }),
                        !found ==> spec_resolve_from(ns, neighbor_position, 0)
                            == spec_resolve_from(ns, neighbor_position, j as int),
                        !chunk@.contains_position(neighbor_position),
                        found ==> neighbors@[k as int] == (
                            spec_direction_at(k as int),
                            spec_resolve_neighbor(chunk@, ns, neighbor_position),
                        ),
                        forall|k2: int|
                            0 <= k2 < k ==> #[trigger] neighbors@[k2] == (
                                spec_direction_at(k2),
                                spec_resolve_neighbor(
                                    chunk@,
                                    ns,
                                    spec_neighbor_position(position, spec_direction_at(k2)),
                                ),
                            ),
                    decreases neighbor_chunks.len() - j,
                {
                    match vstd::slice::slice_index_get(neighbor_chunks, j) {
                        Some(neighbor_chunk) => {
                            assert(ns[j as int] == Some(neighbor_chunk@));
                            match neighbor_chunk.get_block_at_position(neighbor_position) {
                                Ok(block) => {
                                    proof {
                                        assert(spec_resolve_from(ns, neighbor_position, j as int)
                                            == neighbor_chunk@.visible_block_at(
                                            neighbor_position,
                                        ));
                                    }
                                    neighbors.push((direction, block));
                                    found = true;
                                },
                                Err(_) => {},
                            }
                        },
                        None => {
                            assert(ns[j as int] is None);
                        },
                    }
                    j = j + 1;
                }
                if !found {
                    assert(spec_resolve_from(ns, neighbor_position, j as int) is None);
                    neighbors.push((direction, None));
                }
            },
        }
        k = k + 1;
    }
    neighbors
}

/// One face to be emitted: its four corners and its winding.
pub struct Quad {
    pub points: Seq<MeshVertex>,
    pub winding: WindingDirection,
}

/// A block corner as a mesh vertex: the block position plus a unit offset.
pub open spec fn spec_corner(p: BlockPosition, dx: int, dy: int, dz: int) -> MeshVertex {
    MeshVertex { x: (p.x + dx) as i32, y: (p.y + dy) as i32, z: (p.z + dz) as i32 }
}

/// The quad of one block face: a fixed unit-cube corner set per direction.
/// Down-facing quads wind counter-clockwise, all others clockwise.
pub open spec fn spec_face_quad(p: BlockPosition, d: Direction) -> Quad {
    match d {
        Direction::North => Quad {
            points: seq![
                spec_corner(p, 1, 0, 1),
                spec_corner(p, 0, 0, 1),
                spec_corner(p, 0, 1, 1),
                spec_corner(p, 1, 1, 1),
            ],
            winding: WindingDirection::Clockwise,
        },
        Direction::South => Quad {
            points: seq![
                spec_corner(p, 0, 0, 0),
                spec_corner(p, 1, 0, 0),
                spec_corner(p, 1, 1, 0),
                spec_corner(p, 0, 1, 0),
            ],
            winding: WindingDirection::Clockwise,
        },
        Direction::East => Quad {
            points: seq![
                spec_corner(p, 0, 0, 1),
                spec_corner(p, 0, 0, 0),
                spec_corner(p, 0, 1, 0),
                spec_corner(p, 0, 1, 1),
            ],
            winding: WindingDirection::Clockwise,
        },
        Direction::West => Quad {
            points: seq![
                spec_corner(p, 1, 0, 0),
                spec_corner(p, 1, 0, 1),
                spec_corner(p, 1, 1, 1),
                spec_corner(p, 1, 1, 0),
            ],
            winding: WindingDirection::Clockwise,
        },
        Direction::Up => Quad {
            points: seq![
                spec_corner(p, 0, 1, 0),
                spec_corner(p, 1, 1, 0),
                spec_corner(p, 1, 1, 1),
                spec_corner(p, 0, 1, 1),
            ],
            winding: WindingDirection::Clockwise,
        },
        Direction::Down => Quad {
            points: seq![
                spec_corner(p, 0, 0, 0),
                spec_corner(p, 1, 0, 0),
                spec_corner(p, 1, 0, 1),
                spec_corner(p, 0, 0, 1),
            ],
            winding: WindingDirection::CounterClockwise,
        },
    }
}

/// A mesh after appending one face quad.
pub open spec fn spec_apply_quad(m: MeshView, q: Quad) -> MeshView {
    spec_add_quad(m, q.points, q.winding)
}

/// A mesh after appending a sequence of face quads in order.
pub open spec fn spec_apply_quads(m: MeshView, qs: Seq<Quad>) -> MeshView
    decreases qs.len(),
{
    if qs.len() == 0 {
        m
    } else {
        spec_apply_quad(spec_apply_quads(m, qs.drop_last()), qs.last())
    }
}

/// Appending a concatenation of quad sequences is appending one after the
/// other.
pub proof fn lemma_apply_quads_concat(m: MeshView, a: Seq<Quad>, b: Seq<Quad>)
    ensures
        spec_apply_quads(m, a + b) == spec_apply_quads(spec_apply_quads(m, a), b),
    decreases b.len(),
{
    if b.len() == 0 {
        assert(a + b =~= a);
    } else {
        lemma_apply_quads_concat(m, a, b.drop_last());
        assert((a + b).drop_last() =~= a + b.drop_last());
        assert((a + b).last() == b.last());
    }
}

/// Every quad of the sequence has exactly four corners.
pub open spec fn spec_quads_wf(qs: Seq<Quad>) -> bool {
    forall|i: int| 0 <= i < qs.len() ==> (#[trigger] qs[i]).points.len() == 4
}

/// Appending quads grows the three mesh sequences by fixed amounts per quad.
pub proof fn lemma_apply_quads_len(m: MeshView, qs: Seq<Quad>)
    requires
        spec_quads_wf(qs),
    ensures
        spec_apply_quads(m, qs).vertices.len() == m.vertices.len() + 4 * qs.len(),
        spec_apply_quads(m, qs).normals.len() == m.normals.len() + qs.len(),
        spec_apply_quads(m, qs).indices.len() == m.indices.len() + 6 * qs.len(),
    decreases qs.len(),
{
    if qs.len() != 0 {
        assert(spec_quads_wf(qs.drop_last())) by {
            assert(forall|i: int|
                0 <= i < qs.len() - 1 ==> qs.drop_last()[i] == #[trigger] qs[i]);
        }
        lemma_apply_quads_len(m, qs.drop_last());
        assert(qs.last().points.len() == 4);
    }
}

/// The quads of one block for the first `k` directions of the fixed order:
/// one face quad per direction whose neighbor resolves to air or absent.
pub open spec fn spec_block_face_quads_upto(
    c: ChunkView,
    ns: Seq<Option<ChunkView>>,
    p: BlockPosition,
    k: int,
) -> Seq<Quad>
    decreases k,
{
    if k <= 0 {
        Seq::empty()
    } else {
        spec_block_face_quads_upto(c, ns, p, k - 1) + (
        if spec_resolve_neighbor(c, ns, spec_neighbor_position(p, spec_direction_at(k - 1)))
            is None {
            seq![spec_face_quad(p, spec_direction_at(k - 1))]
        } else {
            Seq::empty()
        })
    }
}

/// All face quads of one block: its exposed faces in direction order.
pub open spec fn spec_block_quads(
    c: ChunkView,
    ns: Seq<Option<ChunkView>>,
    p: BlockPosition,
) -> Seq<Quad> {
    spec_block_face_quads_upto(c, ns, p, 6)
}

/// A block never emits more than six quads.
pub proof fn lemma_block_quads_len(
    c: ChunkView,
    ns: Seq<Option<ChunkView>>,
    p: BlockPosition,
    k: int,
)
    ensures
        spec_block_face_quads_upto(c, ns, p, k).len() <= (if k >= 0 { k } else { 0 }),
        spec_quads_wf(spec_block_face_quads_upto(c, ns, p, k)),
    decreases k,
{
    if k > 0 {
        lemma_block_quads_len(c, ns, p, k - 1);
        assert(spec_face_quad(p, spec_direction_at(k - 1)).points.len() == 4);
    }
}

/// A block position whose unit cube stays inside the mesh coordinate bound.
pub open spec fn spec_block_in_mesh_bound(p: BlockPosition) -> bool {
    &&& -MESH_COORD_BOUND <= p.x < MESH_COORD_BOUND
    &&& -MESH_COORD_BOUND <= p.y < MESH_COORD_BOUND
    &&& -MESH_COORD_BOUND <= p.z < MESH_COORD_BOUND
}

/// A block corner as an executable mesh vertex.
fn corner(p: BlockPosition, dx: i32, dy: i32, dz: i32) -> (r: MeshVertex)
    requires
        spec_block_in_mesh_bound(p),
        0 <= dx <= 1 && 0 <= dy <= 1 && 0 <= dz <= 1,
    ensures
        r == spec_corner(p, dx as int, dy as int, dz as int),
        spec_in_mesh_bound(r),
    {
    MeshVertex { x: p.x + dx, y: p.y + dy, z: p.z + dz }
}

/// Meshes one block: emits a quad for every face whose neighbor is air or
/// not covered by the chunk or its neighbor snapshots.
fn mesh_block(
    chunk: &Chunk,
    neighbor_chunks: &[Option<Chunk>],
    mesh: &mut Mesh,
    block_position: BlockPosition,
)
    requires
        chunk@.wf(),
        spec_neighbors_wf(spec_neighbor_views(neighbor_chunks@)),
        spec_block_in_mesh_bound(block_position),
        spec_mesh_wf(old(mesh)@),
        old(mesh)@.vertices.len() + 24 <= u32::MAX,
    ensures
        final(mesh)@ == spec_apply_quads(
            old(mesh)@,
            spec_block_quads(chunk@, spec_neighbor_views(neighbor_chunks@), block_position),
        ),
        spec_mesh_wf(final(mesh)@),
{
    let ghost ns = spec_neighbor_views(neighbor_chunks@);
    let ghost old_mesh = mesh@;
    let neighbors = get_neighbors(chunk, neighbor_chunks, block_position);

    let mut k: usize = 0;
    while k < 6
        invariant
            spec_block_in_mesh_bound(block_position),
            k <= 6,
            neighbors@.len() == 6,
            forall|k2: int|
                0 <= k2 < 6 ==> #[trigger] neighbors@[k2] == (
                    spec_direction_at(k2),
                    spec_resolve_neighbor(
                        chunk@,
                        ns,
                        spec_neighbor_position(block_position, spec_direction_at(k2)),
                    ),
                ),
            mesh@ == spec_apply_quads(
                old_mesh,
                spec_block_face_quads_upto(chunk@, ns, block_position, k as int),
            ),
            spec_mesh_wf(mesh@),
            mesh@.vertices.len() <= old_mesh.vertices.len() + 4 * k,
            old_mesh.vertices.len() + 24 <= u32::MAX,
        decreases 6 - k,
    {
        let ghost upto_k = spec_block_face_quads_upto(chunk@, ns, block_position, k as int);
        let ghost upto_k1 = spec_block_face_quads_upto(chunk@, ns, block_position, k as int + 1);
        let pair: (Direction, Option<Block>) = neighbors[k];
        match pair.1 {
            None => {
                proof {
                    assert(upto_k1 =~= upto_k + seq![
                        spec_face_quad(block_position, spec_direction_at(k as int)),
                    ]);
                }
                let quad_points: [MeshVertex; 4] = match pair.0 {
                    Direction::North => [
                        corner(block_position, 1, 0, 1),
                        corner(block_position, 0, 0, 1),
                        corner(block_position, 0, 1, 1),
                        corner(block_position, 1, 1, 1),
                    ],
                    Direction::South => [
                        corner(block_position, 0, 0, 0),
                        corner(block_position, 1, 0, 0),
                        corner(block_position, 1, 1, 0),
                        corner(block_position, 0, 1, 0),
                    ],
                    Direction::East => [
                        corner(block_position, 0, 0, 1),
                        corner(block_position, 0, 0, 0),
                        corner(block_position, 0, 1, 0),
                        corner(block_position, 0, 1, 1),
                    ],
                    Direction::West => [
                        corner(block_position, 1, 0, 0),
                        corner(block_position, 1, 0, 1),
                        corner(block_position, 1, 1, 1),
                        corner(block_position, 1, 1, 0),
                    ],
                    Direction::Up => [
                        corner(block_position, 0, 1, 0),
                        corner(block_position, 1, 1, 0),
                        corner(block_position, 1, 1, 1),
                        corner(block_position, 0, 1, 1),
                    ],
                    Direction::Down => [
                        corner(block_position, 0, 0, 0),
                        corner(block_position, 1, 0, 0),
                        corner(block_position, 1, 0, 1),
                        corner(block_position, 0, 0, 1),
                    ],
                };
                let winding = match pair.0 {
                    Direction::Down => WindingDirection::CounterClockwise,
                    _ => WindingDirection::Clockwise,
                };
                proof {
                    let q = spec_face_quad(block_position, spec_direction_at(k as int));
                    assert(quad_points@ =~= q.points);
                    assert(winding == q.winding);
                    assert((upto_k + seq![q]).drop_last() =~= upto_k);
                    assert((upto_k + seq![q]).last() == q);
                }
                mesh.add_quad(quad_points, winding);
            },
            Some(_) => {
                proof {
                    assert(upto_k1 =~= upto_k);
                }
            },
        }
        k = k + 1;
    }
    assert(spec_block_face_quads_upto(chunk@, ns, block_position, 6) == spec_block_quads(
        chunk@,
        ns,
        block_position,
    ));
}

/// A chunk origin far enough from the mesh coordinate bound that every
/// block of the chunk stays inside it.
pub open spec fn spec_origin_in_mesh_bounds(o: BlockPosition) -> bool {
    &&& -MESH_COORD_BOUND <= o.x && o.x + 16 <= MESH_COORD_BOUND
    &&& -MESH_COORD_BOUND <= o.y && o.y + 16 <= MESH_COORD_BOUND
    &&& -MESH_COORD_BOUND <= o.z && o.z + 16 <= MESH_COORD_BOUND
}

/// The world position of the `k`-th block of a chunk, in meshing order:
/// x outermost, then y, then z.
pub open spec fn spec_block_position_at(c: ChunkView, k: int) -> BlockPosition {
    BlockPosition {
        x: (c.origin.x + k / 256) as i32,
        y: (c.origin.y + (k % 256) / 16) as i32,
        z: (c.origin.z + k % 16) as i32,
    }
}

/// The quads the `k`-th block of a chunk contributes: none when it is air,
/// its exposed faces otherwise.
pub open spec fn spec_block_emission(
    c: ChunkView,
    ns: Seq<Option<ChunkView>>,
    k: int,
) -> Seq<Quad> {
    let p = spec_block_position_at(c, k);
    if c.visible_block_at(p) is Some {
        spec_block_quads(c, ns, p)
    } else {
        Seq::empty()
    }
}

/// The quads of the first `k` blocks of a chunk, in meshing order.
pub open spec fn spec_chunk_quads_upto(
    c: ChunkView,
    ns: Seq<Option<ChunkView>>,
    k: int,
) -> Seq<Quad>
    decreases k,
{
    if k <= 0 {
        Seq::empty()
    } else {
        spec_chunk_quads_upto(c, ns, k - 1) + spec_block_emission(c, ns, k - 1)
    }
}

/// All quads of a chunk: for every non-air block, one quad per face whose
/// neighbor resolves to air or absent, in meshing order.
pub open spec fn spec_chunk_quads(c: ChunkView, ns: Seq<Option<ChunkView>>) -> Seq<Quad> {
    spec_chunk_quads_upto(c, ns, CHUNK_SIZE as int)
}

/// The mesh of a chunk: its quads appended to the empty mesh in order.
pub open spec fn spec_chunk_mesh(c: ChunkView, ns: Seq<Option<ChunkView>>) -> MeshView {
    spec_apply_quads(spec_empty_mesh(), spec_chunk_quads(c, ns))
}

/// The first `k` blocks of a chunk contribute at most `6 * k` quads, all of
/// them four-cornered.
pub proof fn lemma_chunk_quads_len(c: ChunkView, ns: Seq<Option<ChunkView>>, k: int)
    ensures
        spec_chunk_quads_upto(c, ns, k).len() <= 6 * (if k >= 0 { k } else { 0 }),
        spec_quads_wf(spec_chunk_quads_upto(c, ns, k)),
    decreases k,
{
    if k > 0 {
        lemma_chunk_quads_len(c, ns, k - 1);
        lemma_block_quads_len(c, ns, spec_block_position_at(c, k - 1), 6);
    }
}

/// The meshing order index `256 x + 16 y + z` decomposes back into its three
/// local coordinates.
proof fn lemma_meshing_index(x: int, y: int, z: int)
    requires
        0 <= x < 16,
        0 <= y < 16,
        0 <= z < 16,
    ensures
        (256 * x + 16 * y + z) / 256 == x,
        ((256 * x + 16 * y + z) % 256) / 16 == y,
        (256 * x + 16 * y + z) % 16 == z,
{
    let k = 256 * x + 16 * y + z;
    lemma_fundamental_div_mod_converse(k, 256, x, 16 * y + z);
    lemma_fundamental_div_mod_converse(16 * y + z, 16, y, z);
    lemma_fundamental_div_mod_converse(k, 16, 16 * x + y, z);
}

/// Meshes a whole chunk against its neighbor snapshots: walks every block in
/// x, then y, then z order, skips air, and emits the exposed faces of each
/// remaining block.
pub fn mesh_chunk(chunk: &Chunk, neighbor_chunks: &[Option<Chunk>]) -> (chunk_mesh: Mesh)
    requires
        chunk@.wf(),
        spec_neighbors_wf(spec_neighbor_views(neighbor_chunks@)),
        spec_origin_in_mesh_bounds(chunk@.origin),
    ensures
        chunk_mesh@ == spec_chunk_mesh(chunk@, spec_neighbor_views(neighbor_chunks@)),
        spec_mesh_wf(chunk_mesh@),
{
    let ghost ns = spec_neighbor_views(neighbor_chunks@);
    let mut chunk_mesh = Mesh::default();
    let origin_position = chunk.origin_position();

    let mut x: usize = 0;
    while x < CHUNK_BLOCK_WIDTH
        invariant
            chunk@.wf(),
            spec_neighbors_wf(ns),
            ns == spec_neighbor_views(neighbor_chunks@),
            spec_origin_in_mesh_bounds(chunk@.origin),
            origin_position == chunk@.origin,
            x <= 16,
            chunk_mesh@ == spec_apply_quads(
                spec_empty_mesh(),
                spec_chunk_quads_upto(chunk@, ns, 256 * x),
            ),
            spec_mesh_wf(chunk_mesh@),
        decreases 16 - x,
    {
        let mut y: usize = 0;
        while y < CHUNK_BLOCK_HEIGHT
            invariant
                chunk@.wf(),
                spec_neighbors_wf(ns),
                ns == spec_neighbor_views(neighbor_chunks@),
                spec_origin_in_mesh_bounds(chunk@.origin),
                origin_position == chunk@.origin,
                x < 16,
                y <= 16,
                chunk_mesh@ == spec_apply_quads(
                    spec_empty_mesh(),
                    spec_chunk_quads_upto(chunk@, ns, 256 * x + 16 * y),
                ),
                spec_mesh_wf(chunk_mesh@),
            decreases 16 - y,
        {
            let mut z: usize = 0;
            while z < CHUNK_BLOCK_DEPTH
                invariant
                    chunk@.wf(),
                    spec_neighbors_wf(ns),
                    ns == spec_neighbor_views(neighbor_chunks@),
                    spec_origin_in_mesh_bounds(chunk@.origin),
                    origin_position == chunk@.origin,
                    x < 16,
                    y < 16,
                    z <= 16,
                    chunk_mesh@ == spec_apply_quads(
                        spec_empty_mesh(),
                        spec_chunk_quads_upto(chunk@, ns, 256 * x + 16 * y + z),
                    ),
                    spec_mesh_wf(chunk_mesh@),
                decreases 16 - z,
            {
                let ghost k = 256 * x + 16 * y + z;
                let ghost upto_k = spec_chunk_quads_upto(chunk@, ns, k as int);
                let ghost emission = spec_block_emission(chunk@, ns, k as int);
                proof {
                    lemma_chunk_quads_len(chunk@, ns, k as int);
                    lemma_meshing_index(x as int, y as int, z as int);
                    lemma_aligned_headroom(origin_position.x as int);
                    lemma_aligned_headroom(origin_position.y as int);
                    lemma_aligned_headroom(origin_position.z as int);
                }
                let block_position = origin_position.offset(x as i32, y as i32, z as i32);
                proof {
                    assert(block_position == spec_block_position_at(chunk@, k as int));
                    lemma_axis_decomposition(origin_position.x as int, x as int);
                    lemma_axis_decomposition(origin_position.y as int, y as int);
                    lemma_axis_decomposition(origin_position.z as int, z as int);
                    assert(chunk@.contains_position(block_position));
                    assert(spec_chunk_quads_upto(chunk@, ns, k + 1) == upto_k + emission);
                    lemma_apply_quads_concat(spec_empty_mesh(), upto_k, emission);
                    lemma_apply_quads_len(spec_empty_mesh(), upto_k);
                }
                match chunk.get_block_at_position(block_position) {
                    Ok(Some(_)) => {
                        assert(emission == spec_block_quads(chunk@, ns, block_position));
                        mesh_block(chunk, neighbor_chunks, &mut chunk_mesh, block_position);
                    },
                    _ => {
                        assert(emission =~= Seq::<Quad>::empty());
                        assert(spec_apply_quads(chunk_mesh@, emission) == chunk_mesh@);
                    },
                }
                z = z + 1;
            }
            y = y + 1;
        }
        x = x + 1;
    }
    proof {
        assert(256 * 16int == CHUNK_SIZE as int);
    }
    chunk_mesh
}

/// What one meshing submission publishes: nothing for an all-culled chunk,
/// otherwise the chunk's origin paired with its mesh.
pub open spec fn spec_published(
    c: ChunkView,
    ns: Seq<Option<ChunkView>>,
) -> Seq<(BlockPosition, MeshView)> {
    if spec_chunk_mesh(c, ns).vertices.len() == 0 {
        Seq::empty()
    } else {
        seq![(c.origin, spec_chunk_mesh(c, ns))]
    }
}

/// Every queued mesh is well formed.
pub open spec fn spec_meshes_wf(q: Seq<(BlockPosition, MeshView)>) -> bool {
    forall|i: int| 0 <= i < q.len() ==> spec_mesh_wf((#[trigger] q[i]).1)
}

/// Runs the face-culling mesher over submitted chunks and queues the
/// completed meshes until they are drained.
pub struct ChunkMesher {
    ready_chunk_meshes: Vec<(BlockPosition, Mesh)>,
}

impl View for ChunkMesher {
    type V = Seq<(BlockPosition, MeshView)>;

    closed spec fn view(&self) -> Seq<(BlockPosition, MeshView)> {
        self.ready_chunk_meshes@.map(|_i: int, pr: (BlockPosition, Mesh)| (pr.0, pr.1@))
    }
}

impl ChunkMesher {
    /// A mesher with an empty completion queue.
    pub fn new() -> (m: Self)
        ensures
            m@ == Seq::<(BlockPosition, MeshView)>::empty(),
    {
        let m = ChunkMesher { ready_chunk_meshes: Vec::new() };
        proof {
            assert(m@ =~= Seq::<(BlockPosition, MeshView)>::empty());
        }
        m
    }

    /// Meshes a chunk against its neighbor snapshots and queues the result,
    /// keyed by the chunk's origin; an empty mesh is not published.
    pub fn begin_meshing_chunk(&mut self, chunk: Chunk, neighbor_chunks: Vec<Option<Chunk>>)
        requires
            chunk@.wf(),
            spec_neighbors_wf(spec_neighbor_views(neighbor_chunks@)),
            spec_origin_in_mesh_bounds(chunk@.origin),
            spec_meshes_wf(old(self)@),
        ensures
            final(self)@ == old(self)@ + spec_published(
                chunk@,
                spec_neighbor_views(neighbor_chunks@),
            ),
            spec_meshes_wf(final(self)@),
    {
        let ghost old_queue = self@;
        let chunk_mesh = mesh_chunk(&chunk, neighbor_chunks.as_slice());
        if !chunk_mesh.is_empty() {
            let origin = chunk.origin_position();
            self.ready_chunk_meshes.push((origin, chunk_mesh));
            proof {
                assert(self@ =~= old_queue + spec_published(
                    chunk@,
                    spec_neighbor_views(neighbor_chunks@),
                ));
            }
        } else {
            proof {
                assert(self@ =~= old_queue + spec_published(
                    chunk@,
                    spec_neighbor_views(neighbor_chunks@),
                ));
            }
        }
    }

    /// Deposits a mesh completed elsewhere (for example on a worker thread
    /// that ran [`mesh_chunk`]) in the completion queue, keyed by the origin
    /// of the chunk it was computed for.
    pub fn publish_completed_mesh(&mut self, origin: BlockPosition, mesh: Mesh)
        requires
            spec_mesh_wf(mesh@),
            spec_meshes_wf(old(self)@),
        ensures
            final(self)@ == old(self)@ + seq![(origin, mesh@)],
            spec_meshes_wf(final(self)@),
    {
        let ghost old_queue = self@;
        self.ready_chunk_meshes.push((origin, mesh));
        proof {
            assert(self@ =~= old_queue + seq![(origin, mesh@)]);
        }
    }

    /// Drains the completion queue: hands back every mesh completed since
    /// the last drain, in completion order, and leaves the queue empty.
    pub fn ready_chunk_meshes(&mut self) -> (r: Vec<(BlockPosition, Mesh)>)
        ensures
            r@.map(|_i: int, pr: (BlockPosition, Mesh)| (pr.0, pr.1@)) == old(self)@,
            final(self)@ == Seq::<(BlockPosition, MeshView)>::empty(),
    {
        let mut drained: Vec<(BlockPosition, Mesh)> = Vec::new();
        core::mem::swap(&mut drained, &mut self.ready_chunk_meshes);
        proof {
            assert(self@ =~= Seq::<(BlockPosition, MeshView)>::empty());
        }
        drained
    }
}

} // verus!
