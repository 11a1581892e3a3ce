use vstd::prelude::*;
use crate::blocks::BlockId;
use crate::chunk::{Chunk, ChunkCoord, ChunkView, Surroundings};
use crate::light::{cy, lemma_settled_unique, neighbor_shadows, settled_from, sky_seeded};
use crate::mesh::{create_chunk_mesh, direct_model, is_mesh_of, visible_faces, ChunkMesh};
use crate::registry::BlockRegistry;

verus! {

/// Elevation of the terrain before noise is added.
pub const BASE_HEIGHT: i32 = 32;

/// Number of layers of dirt under the surface block.
pub const DIRT_DEPTH: i32 = 3;

/// Terrain height of each column of a chunk: the column `(x, z)` is at `x + 16 * z`.
pub type ColumnHeights = [i32; 256];

/// The block at world height `world_y` of a column whose surface is at `height`.
///
/// Below zero there is nothing; at zero lies bedrock; above the surface is
/// air; the surface is grass; the three blocks under it are dirt; all else is stone.
pub open spec fn terrain_block(
    world_y: int,
    height: int,
    grass_id: BlockId,
    dirt_id: BlockId,
    stone_id: BlockId,
    bedrock_id: BlockId,
) -> BlockId {
    if world_y < 0 {
        BlockId(0)
    } else if world_y == 0 {
        bedrock_id
    } else if world_y > height {
        BlockId(0)
    } else if world_y == height {
        grass_id
    } else if world_y >= height - 3 {
        dirt_id
    } else {
        stone_id
    }
}

fn column_block(
    world_y: i64,
    height: i32,
    grass_id: BlockId,
    dirt_id: BlockId,
    stone_id: BlockId,
    bedrock_id: BlockId,
) -> (id: BlockId)
    ensures
        id == terrain_block(world_y as int, height as int, grass_id, dirt_id, stone_id, bedrock_id),
{
    let terrain_height: i64 = height as i64;
    if world_y < 0 {
        BlockId(0)
    } else if world_y == 0 {
        bedrock_id
    } else if world_y > terrain_height {
        BlockId(0)
    } else if world_y == terrain_height {
        grass_id
    } else if terrain_height - world_y <= DIRT_DEPTH as i64 {
        dirt_id
    } else {
        stone_id
    }
}

/// Whether `chunk` is the terrain chunk at `coord` for the given column
/// heights: every voxel holds the block of its column and height, and the
/// light is sky light for a chunk that stands alone.
pub open spec fn is_generated(
    chunk: ChunkView,
    coord: ChunkCoord,
    heights: Seq<i32>,
    grass_id: BlockId,
    dirt_id: BlockId,
    stone_id: BlockId,
    bedrock_id: BlockId,
) -> bool {
    &&& chunk.wf()
    &&& chunk.coord == coord
    &&& forall|i: int|
        0 <= i < 4096 ==> #[trigger] chunk.blocks[i] == terrain_block(
            coord.y * 16 + cy(i),
            heights[i % 256] as int,
            grass_id,
            dirt_id,
            stone_id,
            bedrock_id,
        )
    &&& settled_from(
        chunk.light,
        sky_seeded(chunk.blocks, neighbor_shadows(Surroundings::none())),
        chunk.blocks,
        Surroundings::none(),
    )
}

/// Generation is a function of its inputs: two chunks generated for the same
/// coordinate, heights and materials have the same blocks and the same light.
pub proof fn lemma_generation_deterministic(
    a: ChunkView,
    b: ChunkView,
    coord: ChunkCoord,
    heights: Seq<i32>,
    grass_id: BlockId,
    dirt_id: BlockId,
    stone_id: BlockId,
    bedrock_id: BlockId,
)
    requires
        is_generated(a, coord, heights, grass_id, dirt_id, stone_id, bedrock_id),
        is_generated(b, coord, heights, grass_id, dirt_id, stone_id, bedrock_id),
    ensures
        a == b,
{
    assert(a.blocks =~= b.blocks);
    lemma_settled_unique(
        a.light,
        b.light,
        sky_seeded(a.blocks, neighbor_shadows(Surroundings::none())),
        a.blocks,
        Surroundings::none(),
    );
}

/// Builds the terrain chunk at `coord`: fills every column up to its height,
/// lights the chunk as one that stands alone, and meshes it in full daylight
/// without neighbours.
pub fn generate_chunk(
    coord: ChunkCoord,
    heights: &ColumnHeights,
    grass_id: BlockId,
    dirt_id: BlockId,
    stone_id: BlockId,
    bedrock_id: BlockId,
    block_registry: &BlockRegistry,
) -> (generated: (ChunkCoord, Chunk, Option<ChunkMesh>))
    ensures
        generated.0 == coord,
        is_generated(generated.1@, coord, heights@, grass_id, dirt_id, stone_id, bedrock_id),
        is_mesh_of(
            generated.2,
            visible_faces(generated.1@, block_registry@, direct_model(Surroundings::none()), 15),
        ),
{
    let mut chunk = Chunk::new(coord);
    let chunk_world_y: i64 = coord.y as i64 * 16;
    let mut i: usize = 0;
    while i < 4096
        invariant
            i <= 4096,
            chunk_world_y == coord.y * 16,
            chunk@.wf(),
            chunk@.coord == coord,
            forall|j: int|
                0 <= j < i ==> #[trigger] chunk@.blocks[j] == terrain_block(
                    coord.y * 16 + cy(j),
                    heights@[j % 256] as int,
                    grass_id,
                    dirt_id,
                    stone_id,
                    bedrock_id,
                ),
        decreases 4096 - i,
    {
        let x: usize = i % 16;
        let z: usize = (i / 16) % 16;
        let y: usize = i / 256;
        let terrain_height: i32 = heights[x + 16 * z];
        let world_y: i64 = chunk_world_y + y as i64;
        let block_id = column_block(world_y, terrain_height, grass_id, dirt_id, stone_id, bedrock_id);
        let ghost prev = chunk@.blocks;
        chunk.set_block(x, y, z, block_id);
        proof {
            use_type_invariant(&chunk);
            assert(chunk@.blocks == prev.update(i as int, block_id));
        }
        i += 1;
    }
    chunk.calculate_skylight();
    proof {
        use_type_invariant(&chunk);
    }
    let mesh = create_chunk_mesh(&chunk, block_registry);
    (coord, chunk, mesh)
}

} // verus!
