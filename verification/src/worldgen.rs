//! World generation: fills a box of chunk origins with freshly generated
//! chunks. Generation itself is a stub: every chunk comes out filled with
//! the solid stand-in block.

use vstd::prelude::*;
use vstd::arithmetic::div_mod::{lemma_fundamental_div_mod, lemma_mod_multiples_vanish};
use crate::block::Block;
use crate::block_position::{spec_aligned, BlockPosition};
use crate::chunk::{Chunk, ChunkView, CHUNK_SIZE, CHUNK_BLOCK_DEPTH, CHUNK_BLOCK_HEIGHT,
    CHUNK_BLOCK_WIDTH};
use crate::world::World;

verus! {

/// The extent of the generated world, in chunks per direction.
/// The box spans `[-max_width, max_width)` chunks along x,
/// `[0, max_height)` along y and `[-max_length, max_length)` along z.
pub struct WorldGenerationSettings {
    pub max_width: i32,
    pub max_height: i32,
    pub max_length: i32,
}

/// Largest extent accepted per direction, so origins stay inside i32.
pub const MAX_WORLD_EXTENT: i32 = 0x800_0000;

/// The chunk origins that generation covers.
pub open spec fn spec_generated_origin(s: WorldGenerationSettings, o: BlockPosition) -> bool {
    &&& spec_aligned(o)
    &&& -16 * s.max_width <= o.x < 16 * s.max_width
    &&& 0 <= o.y < 16 * s.max_height
    &&& -16 * s.max_length <= o.z < 16 * s.max_length
}

/// What generation puts at an origin: a chunk of solid stand-in blocks.
pub open spec fn spec_generated_chunk(o: BlockPosition) -> ChunkView {
    ChunkView {
        origin: o,
        blocks: Seq::new(CHUNK_SIZE as nat, |_i: int| Block { id: 1, state: 0 }),
    }
}

/// A multiple of 16 is aligned on that axis.
proof fn lemma_multiple_aligned(a: int)
    ensures
        (16 * a) % 16 == 0,
{
    lemma_mod_multiples_vanish(a, 0, 16);
}

/// Two multiples of 16 within one chunk dimension of each other are ordered.
proof fn lemma_aligned_step(v: int, c: int)
    requires
        v % 16 == 0,
        c % 16 == 0,
        v < c + 16,
    ensures
        v <= c,
{
    lemma_fundamental_div_mod(v, 16);
    lemma_fundamental_div_mod(c, 16);
}

/// After the z pass of one (x, y) column, the column is covered up to its
/// full length exactly when the covered set reads as "y finished".
proof fn lemma_column_covered(
    s: WorldGenerationSettings,
    m: Map<BlockPosition, ChunkView>,
    x: int,
    y: int,
)
    requires
        forall|o: BlockPosition| #![trigger m.contains_key(o)]
            m.contains_key(o) <==> (spec_generated_origin(s, o) && (o.x < 16 * x || (o.x == 16 * x
                && o.y < 16 * y) || (o.x == 16 * x && o.y == 16 * y && o.z < 16 * s.max_length))),
    ensures
        forall|o: BlockPosition| #![trigger m.contains_key(o)]
            m.contains_key(o) <==> (spec_generated_origin(s, o) && (o.x < 16 * x || (o.x == 16 * x
                && o.y < 16 * (y + 1)))),
{
    assert forall|o: BlockPosition| #![trigger m.contains_key(o)]
        m.contains_key(o) <==> (spec_generated_origin(s, o) && (o.x < 16 * x || (o.x == 16 * x
            && o.y < 16 * (y + 1)))) by {
        if spec_generated_origin(s, o) && o.x == 16 * x && o.y < 16 * (y + 1) && !(o.y < 16
            * y) {
            lemma_multiple_aligned(y);
            lemma_aligned_step(o.y as int, 16 * y);
        }
    }
}

/// After the y passes of one x slab, the slab is covered up to its full
/// height exactly when the covered set reads as "x finished".
proof fn lemma_slab_covered(
    s: WorldGenerationSettings,
    m: Map<BlockPosition, ChunkView>,
    x: int,
)
    requires
        forall|o: BlockPosition| #![trigger m.contains_key(o)]
            m.contains_key(o) <==> (spec_generated_origin(s, o) && (o.x < 16 * x || (o.x == 16 * x
                && o.y < 16 * s.max_height))),
    ensures
        forall|o: BlockPosition| #![trigger m.contains_key(o)]
            m.contains_key(o) <==> (spec_generated_origin(s, o) && o.x < 16 * (x + 1)),
{
    assert forall|o: BlockPosition| #![trigger m.contains_key(o)]
        m.contains_key(o) <==> (spec_generated_origin(s, o) && o.x < 16 * (x + 1)) by {
        if spec_generated_origin(s, o) && o.x < 16 * (x + 1) && !(o.x < 16 * x) {
            lemma_multiple_aligned(x);
            lemma_aligned_step(o.x as int, 16 * x);
        }
    }
}

/// Inserting the chunk of the walk's current origin extends the covered set
/// by exactly one z step.
proof fn lemma_insert_covers_origin(
    s: WorldGenerationSettings,
    before: Map<BlockPosition, ChunkView>,
    after: Map<BlockPosition, ChunkView>,
    x: int,
    y: int,
    z: int,
    inserted: BlockPosition,
    c: ChunkView,
)
    requires
        -s.max_width <= x < s.max_width,
        0 <= y < s.max_height,
        -s.max_length <= z < s.max_length,
        inserted == (BlockPosition { x: (16 * x) as i32, y: (16 * y) as i32, z: (16 * z) as i32 }),
        -0x8000_0000 <= 16 * x < 0x8000_0000,
        -0x8000_0000 <= 16 * y < 0x8000_0000,
        -0x8000_0000 <= 16 * z < 0x8000_0000,
        after == before.insert(inserted, c),
        forall|o: BlockPosition| #![trigger before.contains_key(o)]
            before.contains_key(o) <==> (spec_generated_origin(s, o) && (o.x < 16 * x || (o.x == 16
                * x && o.y < 16 * y) || (o.x == 16 * x && o.y == 16 * y && o.z < 16 * z))),
    ensures
        forall|o: BlockPosition| #![trigger after.contains_key(o)]
            after.contains_key(o) <==> (spec_generated_origin(s, o) && (o.x < 16 * x || (o.x == 16
                * x && o.y < 16 * y) || (o.x == 16 * x && o.y == 16 * y && o.z < 16 * (z + 1)))),
{
    lemma_multiple_aligned(x);
    lemma_multiple_aligned(y);
    lemma_multiple_aligned(z);
    assert(spec_generated_origin(s, inserted));
    assert forall|o: BlockPosition| #![trigger after.contains_key(o)]
        after.contains_key(o) <==> (spec_generated_origin(s, o) && (o.x < 16 * x || (o.x == 16 * x
            && o.y < 16 * y) || (o.x == 16 * x && o.y == 16 * y && o.z < 16 * (z + 1)))) by {
        if o != inserted && spec_generated_origin(s, o) && o.x == 16 * x && o.y == 16 * y && o.z
            < 16 * (z + 1) && !(o.z < 16 * z) {
            lemma_aligned_step(o.z as int, 16 * z);
        }
    }
}

/// Generates one chunk at an origin.
fn generate_chunk(origin_position: BlockPosition) -> (c: Chunk)
    requires
        spec_aligned(origin_position),
    ensures
        c@.wf(),
        c@ == spec_generated_chunk(origin_position),
{
    let c = Chunk::new(origin_position);
    proof {
        assert(c@.blocks =~= spec_generated_chunk(origin_position).blocks);
    }
    c
}

/// Generates a world: one chunk for every origin of the settings' box.
/// The seed is accepted for later, richer generation rules; the current
/// rules do not consume it.
#[verifier::rlimit(100)]
pub fn generate_world(_seed: u64, settings: WorldGenerationSettings) -> (w: World)
    requires
        0 <= settings.max_width <= MAX_WORLD_EXTENT,
        0 <= settings.max_height <= MAX_WORLD_EXTENT,
        0 <= settings.max_length <= MAX_WORLD_EXTENT,
    ensures
        w.wf(),
        forall|o: BlockPosition|
            w.spec_as_map().contains_key(o) <==> spec_generated_origin(settings, o),
        forall|o: BlockPosition|
            #[trigger] w.spec_as_map().contains_key(o) ==> w.spec_as_map()[o]
                == spec_generated_chunk(o),
{
    let w16 = CHUNK_BLOCK_WIDTH as i32;
    let h16 = CHUNK_BLOCK_HEIGHT as i32;
    let l16 = CHUNK_BLOCK_DEPTH as i32;
    let mut world = World::new();
    let mut x: i32 = -settings.max_width;
    while x < settings.max_width
        invariant
            0 <= settings.max_width <= MAX_WORLD_EXTENT,
            0 <= settings.max_height <= MAX_WORLD_EXTENT,
            0 <= settings.max_length <= MAX_WORLD_EXTENT,
            w16 == 16 && h16 == 16 && l16 == 16,
            -settings.max_width <= x <= settings.max_width,
            world.wf(),
            forall|o: BlockPosition| #![trigger world.spec_as_map().contains_key(o)]
                world.spec_as_map().contains_key(o) <==> (spec_generated_origin(settings, o)
                    && o.x < 16 * x),
            forall|o: BlockPosition|
                #[trigger] world.spec_as_map().contains_key(o) ==> world.spec_as_map()[o]
                    == spec_generated_chunk(o),
        decreases settings.max_width - x,
    {
        let mut y: i32 = 0;
        while y < settings.max_height
            invariant
                0 <= settings.max_width <= MAX_WORLD_EXTENT,
                0 <= settings.max_height <= MAX_WORLD_EXTENT,
                0 <= settings.max_length <= MAX_WORLD_EXTENT,
                w16 == 16 && h16 == 16 && l16 == 16,
                -settings.max_width <= x < settings.max_width,
                0 <= y <= settings.max_height,
                world.wf(),
                forall|o: BlockPosition| #![trigger world.spec_as_map().contains_key(o)]
                    world.spec_as_map().contains_key(o) <==> (spec_generated_origin(settings, o)
                        && (o.x < 16 * x || (o.x == 16 * x && o.y < 16 * y))),
                forall|o: BlockPosition|
                    #[trigger] world.spec_as_map().contains_key(o) ==> world.spec_as_map()[o]
                        == spec_generated_chunk(o),
            decreases settings.max_height - y,
        {
            let mut z: i32 = -settings.max_length;
            while z < settings.max_length
                invariant
                    0 <= settings.max_width <= MAX_WORLD_EXTENT,
                    0 <= settings.max_height <= MAX_WORLD_EXTENT,
                    0 <= settings.max_length <= MAX_WORLD_EXTENT,
                    w16 == 16 && h16 == 16 && l16 == 16,
                    -settings.max_width <= x < settings.max_width,
                    0 <= y < settings.max_height,
                    -settings.max_length <= z <= settings.max_length,
                    world.wf(),
                    forall|o: BlockPosition| #![trigger world.spec_as_map().contains_key(o)]
                        world.spec_as_map().contains_key(o) <==> (spec_generated_origin(
                            settings,
                            o,
                        ) && (o.x < 16 * x || (o.x == 16 * x && o.y < 16 * y) || (o.x == 16 * x
                            && o.y == 16 * y && o.z < 16 * z))),
                    forall|o: BlockPosition|
                        #[trigger] world.spec_as_map().contains_key(o) ==> world.spec_as_map()[o]
                            == spec_generated_chunk(o),
                decreases settings.max_length - z,
            {
                let origin_position = BlockPosition::new(x * w16, y * h16, z * l16);
                proof {
                    lemma_multiple_aligned(x as int);
                    lemma_multiple_aligned(y as int);
                    lemma_multiple_aligned(z as int);
                    assert(spec_aligned(origin_position));
                }
                let chunk = generate_chunk(origin_position);
                let ghost pre = world.spec_as_map();
                world.insert_chunk(chunk);
                proof {
                    lemma_insert_covers_origin(
                        settings,
                        pre,
                        world.spec_as_map(),
                        x as int,
                        y as int,
                        z as int,
                        origin_position,
                        spec_generated_chunk(origin_position),
                    );
                }
                z = z + 1;
            }
            proof {
                assert(z == settings.max_length);
                lemma_column_covered(settings, world.spec_as_map(), x as int, y as int);
            }
            y = y + 1;
        }
        proof {
            assert(y == settings.max_height);
            lemma_slab_covered(settings, world.spec_as_map(), x as int);
        }
        x = x + 1;
    }
    world
}

} // verus!
